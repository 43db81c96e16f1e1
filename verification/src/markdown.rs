//! Deterministic Markdown compilation of a validated design specification.
//!
//! Only accepted and edited rules are exported. They are grouped into ten
//! fixed sections, sorted within each section by category, then by
//! descending confidence, then by identifier, and followed by a checklist
//! made from the exported constraints. Prose is whitespace-normalized and
//! Markdown-escaped, so no rule text can open a heading or a list item;
//! semantic values are kept verbatim inside a code span whose fence is longer
//! than any backtick run they hold.

use vstd::prelude::*;
use crate::binary32::{in_unit_interval, push_two_decimals, rank_of, two_decimals, unit_rank};
use crate::model::{all_rules, exportable, DesignSpec, Rule, RuleKind, RuleStatus};
use crate::text::{
    ascii_lower, chars_of, collapse_whitespace, collapse_ws, contains_chars, contains_text, is_ws,
    lemma_collapse_ws_single_line, lemma_text_lt_irreflexive, lemma_text_lt_total,
    lemma_text_lt_transitive, push_char, push_str, text_less, text_lt, to_ascii_lower,
};
use crate::validation::{
    missing_evidence_issues, rule_issues, rules_issues, validation_issues, ValidationError,
    ValidationIssue,
};

verus! {

// ----- rendering of text -----

/// Characters that rendered prose escapes with a backslash.
pub open spec fn md_special(c: char) -> bool {
    c == '\\' || c == '`' || c == '*' || c == '_' || c == '[' || c == ']' || c == '(' || c == ')'
        || c == '<' || c == '>' || c == '|'
}

pub open spec fn escape_md(s: Seq<char>) -> Seq<char>
    decreases s.len(),
{
    if s.len() == 0 {
        Seq::empty()
    } else {
        escape_md(s.drop_last()) + if md_special(s.last()) {
            seq!['\\', s.last()]
        } else {
            seq![s.last()]
        }
    }
}

/// Prose as it appears in the export: whitespace collapsed, then escaped.
pub open spec fn render_text(s: Seq<char>) -> Seq<char> {
    escape_md(collapse_ws(s))
}

/// Length of the run of backticks that ends the text.
pub open spec fn trailing_ticks(s: Seq<char>) -> nat
    decreases s.len(),
{
    if s.len() > 0 && s.last() == '`' {
        trailing_ticks(s.drop_last()) + 1
    } else {
        0
    }
}

/// Length of the longest run of backticks in the text.
pub open spec fn longest_tick_run(s: Seq<char>) -> nat
    decreases s.len(),
{
    if s.len() == 0 {
        0
    } else {
        let rest = longest_tick_run(s.drop_last());
        let end = trailing_ticks(s);
        if rest >= end {
            rest
        } else {
            end
        }
    }
}

pub open spec fn ticks(n: nat) -> Seq<char> {
    Seq::new(n, |i: int| '`')
}

/// A code span holding `v` verbatim.
pub open spec fn code_span(v: Seq<char>) -> Seq<char> {
    let fence = ticks(longest_tick_run(v) + 1);
    fence + v + fence
}

pub open spec fn kind_label(k: RuleKind) -> Seq<char> {
    match k {
        RuleKind::Observation => "observation"@,
        RuleKind::Pattern => "pattern"@,
        RuleKind::Recommendation => "recommendation"@,
    }
}

pub open spec fn value_part(r: Rule) -> Seq<char> {
    match r.value {
        Some(v) => " Value: "@ + code_span(v@),
        None => Seq::empty(),
    }
}

/// One exported rule.
pub open spec fn rule_line(r: Rule) -> Seq<char> {
    "- **"@ + render_text(r.category@) + "** ("@ + kind_label(r.kind) + ", confidence "@
        + two_decimals(r.confidence) + "): "@ + render_text(r.statement@) + value_part(r) + "\n"@
}

pub open spec fn rule_lines(rs: Seq<Rule>) -> Seq<char>
    decreases rs.len(),
{
    if rs.len() == 0 {
        Seq::empty()
    } else {
        rule_lines(rs.drop_last()) + rule_line(rs.last())
    }
}

pub open spec fn section_text(title: Seq<char>, rs: Seq<Rule>) -> Seq<char> {
    "# "@ + title + "\n\n"@ + rule_lines(rs) + "\n"@
}

pub open spec fn checklist_lines(rs: Seq<Rule>) -> Seq<char>
    decreases rs.len(),
{
    if rs.len() == 0 {
        Seq::empty()
    } else {
        checklist_lines(rs.drop_last()) + "- [ ] "@ + render_text(rs.last().statement@) + "\n"@
    }
}

pub open spec fn checklist_text(rs: Seq<Rule>) -> Seq<char> {
    "# "@ + "AI implementation checklist"@ + "\n\n"@ + checklist_lines(rs)
}

// ----- selection and order -----

/// Which exported rules of a section go into an output section.
#[derive(Debug, Clone, Copy, PartialEq, Eq, Structural)]
pub enum Selection {
    All,
    VisualPrinciples,
    OtherIntent,
    Typography,
    OtherTokens,
}

pub open spec fn is_visual_category(cat: Seq<char>) -> bool {
    contains_text(ascii_lower(cat), "visual"@) || contains_text(ascii_lower(cat), "principle"@)
}

pub open spec fn is_typography_category(cat: Seq<char>) -> bool {
    contains_text(ascii_lower(cat), "typography"@) || contains_text(ascii_lower(cat), "type"@)
        || contains_text(ascii_lower(cat), "font"@) || contains_text(ascii_lower(cat), "text"@)
}

pub open spec fn selected(which: Selection, r: Rule) -> bool {
    exportable(r) && match which {
        Selection::All => true,
        Selection::VisualPrinciples => is_visual_category(r.category@),
        Selection::OtherIntent => !is_visual_category(r.category@),
        Selection::Typography => is_typography_category(r.category@),
        Selection::OtherTokens => !is_typography_category(r.category@),
    }
}

pub open spec fn select(rs: Seq<Rule>, which: Selection) -> Seq<Rule>
    decreases rs.len(),
{
    if rs.len() == 0 {
        Seq::empty()
    } else if selected(which, rs.last()) {
        select(rs.drop_last(), which).push(rs.last())
    } else {
        select(rs.drop_last(), which)
    }
}

/// Section order: category, then descending confidence, then identifier.
pub open spec fn sorts_before(a: Rule, b: Rule) -> bool {
    ||| text_lt(a.category@, b.category@)
    ||| (a.category@ == b.category@ && unit_rank(a.confidence) > unit_rank(b.confidence))
    ||| (a.category@ == b.category@ && unit_rank(a.confidence) == unit_rank(b.confidence) && a.id
        < b.id)
}

/// Inserts `x` into the sorted `s` after every element that does not sort
/// after it.
pub open spec fn insert_sorted(x: Rule, s: Seq<Rule>) -> Seq<Rule>
    decreases s.len(),
{
    if s.len() == 0 || !sorts_before(x, s.last()) {
        s.push(x)
    } else {
        insert_sorted(x, s.drop_last()).push(s.last())
    }
}

/// Stable sort by section order.
pub open spec fn sort_rules(s: Seq<Rule>) -> Seq<Rule>
    decreases s.len(),
{
    if s.len() == 0 {
        Seq::empty()
    } else {
        insert_sorted(s.last(), sort_rules(s.drop_last()))
    }
}

pub open spec fn section_rules(rs: Seq<Rule>, which: Selection) -> Seq<Rule> {
    sort_rules(select(rs, which))
}

/// The complete export of a specification.
pub open spec fn markdown_text(spec: DesignSpec) -> Seq<char> {
    section_text("Design intent"@, section_rules(spec.intent@, Selection::OtherIntent))
        + section_text("Visual principles"@, section_rules(spec.intent@, Selection::VisualPrinciples))
        + section_text("Design tokens"@, section_rules(spec.tokens@, Selection::OtherTokens))
        + section_text("Typography"@, section_rules(spec.tokens@, Selection::Typography))
        + section_text("Layout and responsive rules"@, section_rules(spec.layout@, Selection::All))
        + section_text("Component conventions"@, section_rules(spec.components@, Selection::All))
        + section_text("Interaction and states"@, section_rules(spec.motion@, Selection::All))
        + section_text("Image and icon direction"@, section_rules(spec.assets@, Selection::All))
        + section_text("Do / Don't"@, section_rules(spec.constraints@, Selection::All))
        + checklist_text(section_rules(spec.constraints@, Selection::All))
}

// ----- excluded terms -----

pub open spec fn nonempty_terms(ts: Seq<String>) -> Seq<String>
    decreases ts.len(),
{
    if ts.len() == 0 {
        Seq::empty()
    } else if ts.last()@.len() > 0 {
        nonempty_terms(ts.drop_last()).push(ts.last())
    } else {
        nonempty_terms(ts.drop_last())
    }
}

/// A term shows in a rule's normalized statement, its normalized category or
/// its value text.
pub open spec fn term_hits(r: Rule, t: Seq<char>) -> bool {
    ||| contains_text(collapse_ws(r.statement@), t)
    ||| contains_text(collapse_ws(r.category@), t)
    ||| (r.value matches Some(v) && contains_text(v@, t))
}

pub open spec fn rule_term_issues(r: Rule, terms: Seq<String>) -> Seq<ValidationIssue>
    decreases terms.len(),
{
    if terms.len() == 0 {
        Seq::empty()
    } else {
        rule_term_issues(r, terms.drop_last()) + if term_hits(r, terms.last()@) {
            seq![ValidationIssue::ExcludedTermInRule { rule_id: r.id, term: terms.last() }]
        } else {
            Seq::empty()
        }
    }
}

pub open spec fn rules_term_issues(rs: Seq<Rule>, terms: Seq<String>) -> Seq<ValidationIssue>
    decreases rs.len(),
{
    if rs.len() == 0 {
        Seq::empty()
    } else {
        rules_term_issues(rs.drop_last(), terms) + if exportable(rs.last()) {
            rule_term_issues(rs.last(), terms)
        } else {
            Seq::empty()
        }
    }
}

/// One issue per exported rule and non-empty excluded term that shows in it.
pub open spec fn excluded_term_issues(spec: DesignSpec) -> Seq<ValidationIssue> {
    rules_term_issues(all_rules(spec), nonempty_terms(spec.metadata.excluded_terms@))
}

pub open spec fn all_in_unit(rs: Seq<Rule>) -> bool {
    forall|i: int| 0 <= i < rs.len() ==> in_unit_interval(#[trigger] rs[i].confidence)
}


// ----- lemmas -----

proof fn lemma_valid_rules_in_unit(rs: Seq<Rule>, seen: Seq<u128>, known: Seq<u128>)
    requires
        rules_issues(rs, seen, known).len() == 0,
    ensures
        all_in_unit(rs),
    decreases rs.len(),
{
    if rs.len() > 0 {
        let r = rs.last();
        let ri = rule_issues(r, seen + crate::validation::rule_ids(rs.drop_last()), known);
        assert(ri.len() == 0);
        if !in_unit_interval(r.confidence) {
            assert(ri.len() > 0);
        }
        lemma_valid_rules_in_unit(rs.drop_last(), seen, known);
        assert forall|i: int| 0 <= i < rs.len() implies in_unit_interval(
            #[trigger] rs[i].confidence,
        ) by {
            if i < rs.len() - 1 {
                assert(rs[i] == rs.drop_last()[i]);
            }
        }
    }
}

/// In a valid specification every confidence is a number in `[0, 1]`.
proof fn lemma_valid_spec_in_unit(spec: DesignSpec)
    requires
        validation_issues(spec).len() == 0,
    ensures
        all_in_unit(spec.intent@),
        all_in_unit(spec.tokens@),
        all_in_unit(spec.layout@),
        all_in_unit(spec.components@),
        all_in_unit(spec.assets@),
        all_in_unit(spec.motion@),
        all_in_unit(spec.constraints@),
{
    let all = all_rules(spec);
    let known = crate::validation::evidence_ids(spec.evidence@);
    assert(rules_issues(all, Seq::empty(), known).len() == 0);
    lemma_valid_rules_in_unit(all, Seq::empty(), known);
    let a = spec.intent@.len();
    let b = a + spec.tokens@.len();
    let c = b + spec.layout@.len();
    let d = c + spec.components@.len();
    let e = d + spec.assets@.len();
    let f = e + spec.motion@.len();
    assert forall|i: int| 0 <= i < spec.intent@.len() implies in_unit_interval(
        #[trigger] spec.intent@[i].confidence,
    ) by {
        assert(all[i] == spec.intent@[i]);
    }
    assert forall|i: int| 0 <= i < spec.tokens@.len() implies in_unit_interval(
        #[trigger] spec.tokens@[i].confidence,
    ) by {
        assert(all[a + i] == spec.tokens@[i]);
    }
    assert forall|i: int| 0 <= i < spec.layout@.len() implies in_unit_interval(
        #[trigger] spec.layout@[i].confidence,
    ) by {
        assert(all[b + i] == spec.layout@[i]);
    }
    assert forall|i: int| 0 <= i < spec.components@.len() implies in_unit_interval(
        #[trigger] spec.components@[i].confidence,
    ) by {
        assert(all[c + i] == spec.components@[i]);
    }
    assert forall|i: int| 0 <= i < spec.assets@.len() implies in_unit_interval(
        #[trigger] spec.assets@[i].confidence,
    ) by {
        assert(all[d + i] == spec.assets@[i]);
    }
    assert forall|i: int| 0 <= i < spec.motion@.len() implies in_unit_interval(
        #[trigger] spec.motion@[i].confidence,
    ) by {
        assert(all[e + i] == spec.motion@[i]);
    }
    assert forall|i: int| 0 <= i < spec.constraints@.len() implies in_unit_interval(
        #[trigger] spec.constraints@[i].confidence,
    ) by {
        assert(all[f + i] == spec.constraints@[i]);
    }
}

proof fn lemma_insert_at(x: Rule, s: Seq<Rule>, p: int)
    requires
        0 <= p <= s.len(),
        forall|j: int| p <= j < s.len() ==> sorts_before(x, #[trigger] s[j]),
        p == 0 || !sorts_before(x, s[p - 1]),
    ensures
        insert_sorted(x, s) == s.insert(p, x),
    decreases s.len(),
{
    if s.len() == p {
        assert(s.push(x) =~= s.insert(p, x));
    } else {
        assert(sorts_before(x, s[s.len() - 1]));
        lemma_insert_at(x, s.drop_last(), p);
        assert(s.drop_last().insert(p, x).push(s.last()) =~= s.insert(p, x));
    }
}

// ----- executable parts -----

/// Whether a category names visual principles.
pub fn is_visual_principle(category: &str) -> (r: bool)
    ensures
        r == is_visual_category(category@),
{
    let lower = to_ascii_lower(&chars_of(category));
    contains_chars(&lower, &chars_of("visual")) || contains_chars(&lower, &chars_of("principle"))
}

/// Whether a category names typography.
pub fn is_typography(category: &str) -> (r: bool)
    ensures
        r == is_typography_category(category@),
{
    let lower = to_ascii_lower(&chars_of(category));
    contains_chars(&lower, &chars_of("typography")) || contains_chars(&lower, &chars_of("type"))
        || contains_chars(&lower, &chars_of("font")) || contains_chars(&lower, &chars_of("text"))
}

fn is_selected(which: Selection, r: &Rule) -> (b: bool)
    ensures
        b == selected(which, *r),
{
    if !r.is_exportable() {
        return false;
    }
    match which {
        Selection::All => true,
        Selection::VisualPrinciples => is_visual_principle(r.category.as_str()),
        Selection::OtherIntent => !is_visual_principle(r.category.as_str()),
        Selection::Typography => is_typography(r.category.as_str()),
        Selection::OtherTokens => !is_typography(r.category.as_str()),
    }
}

/// The rules of `rs` at the positions `idx`, in that order.
pub open spec fn pick(rs: Seq<Rule>, idx: Seq<usize>) -> Seq<Rule> {
    idx.map_values(|i: usize| rs[i as int])
}

pub open spec fn positions_in(idx: Seq<usize>, n: nat) -> bool {
    forall|k: int| 0 <= k < idx.len() ==> #[trigger] idx[k] < n
}

/// The positions of the exported rules of a section that an output section
/// takes, in order.
fn select_rules(rules: &Vec<Rule>, which: Selection) -> (out: Vec<usize>)
    ensures
        pick(rules@, out@) == select(rules@, which),
        positions_in(out@, rules@.len()),
{
    let mut out: Vec<usize> = Vec::new();
    let mut i: usize = 0;
    while i < rules.len()
        invariant
            i <= rules@.len(),
            pick(rules@, out@) == select(rules@.take(i as int), which),
            positions_in(out@, rules@.len()),
        decreases rules@.len() - i,
    {
        let ghost t = rules@.take(i + 1);
        assert(t.drop_last() =~= rules@.take(i as int));
        assert(t.last() == rules@[i as int]);
        if is_selected(which, &rules[i]) {
            let ghost before = out@;
            out.push(i);
            assert(pick(rules@, out@) =~= pick(rules@, before).push(rules@[i as int]));
        }
        i = i + 1;
    }
    assert(rules@.take(rules@.len() as int) =~= rules@);
    out
}

/// Whether `a` sorts before `b` in a section.
pub fn rule_sorts_before(a: &Rule, b: &Rule) -> (r: bool)
    ensures
        r == sorts_before(*a, *b),
{
    let ca = chars_of(a.category.as_str());
    let cb = chars_of(b.category.as_str());
    if text_less(&ca, &cb) {
        return true;
    }
    if a.category != b.category {
        return false;
    }
    let ra = rank_of(a.confidence);
    let rb = rank_of(b.confidence);
    ra > rb || (ra == rb && a.id < b.id)
}

fn insert_position(rules: &Vec<Rule>, out: &mut Vec<usize>, x: usize)
    requires
        x < rules@.len(),
        positions_in(old(out)@, rules@.len()),
    ensures
        pick(rules@, final(out)@) == insert_sorted(rules@[x as int], pick(rules@, old(out)@)),
        positions_in(final(out)@, rules@.len()),
{
    let ghost s = pick(rules@, out@);
    let mut p: usize = out.len();
    while p > 0 && rule_sorts_before(&rules[x], &rules[out[p - 1]])
        invariant
            p <= out@.len(),
            out@ == old(out)@,
            s == pick(rules@, out@),
            x < rules@.len(),
            positions_in(out@, rules@.len()),
            forall|j: int| p <= j < s.len() ==> sorts_before(rules@[x as int], #[trigger] s[j]),
        decreases p,
    {
        p = p - 1;
    }
    proof {
        assert(p > 0 ==> s[p - 1] == rules@[out@[p - 1] as int]);
        lemma_insert_at(rules@[x as int], s, p as int);
    }
    out.insert(p, x);
    assert(pick(rules@, out@) =~= s.insert(p as int, rules@[x as int]));
}

/// Positions in section order.
fn sort_section(rules: &Vec<Rule>, idx: &Vec<usize>) -> (out: Vec<usize>)
    requires
        positions_in(idx@, rules@.len()),
    ensures
        pick(rules@, out@) == sort_rules(pick(rules@, idx@)),
        positions_in(out@, rules@.len()),
{
    let mut out: Vec<usize> = Vec::new();
    let mut i: usize = 0;
    let ghost all = pick(rules@, idx@);
    while i < idx.len()
        invariant
            i <= idx@.len(),
            all == pick(rules@, idx@),
            positions_in(idx@, rules@.len()),
            positions_in(out@, rules@.len()),
            pick(rules@, out@) == sort_rules(all.take(i as int)),
        decreases idx@.len() - i,
    {
        let ghost t = all.take(i + 1);
        assert(t.drop_last() =~= all.take(i as int));
        assert(t.last() == rules@[idx@[i as int] as int]);
        insert_position(rules, &mut out, idx[i]);
        i = i + 1;
    }
    assert(all.take(all.len() as int) =~= all);
    out
}

/// Appends prose as it appears in the export.
pub fn push_rendered(out: &mut String, s: &str)
    ensures
        final(out)@ == old(out)@ + render_text(s@),
{
    let normalized = collapse_whitespace(&chars_of(s));
    let mut i: usize = 0;
    while i < normalized.len()
        invariant
            i <= normalized@.len(),
            out@ == old(out)@ + escape_md(normalized@.take(i as int)),
        decreases normalized@.len() - i,
    {
        let c = normalized[i];
        let ghost t = normalized@.take(i + 1);
        assert(t.drop_last() =~= normalized@.take(i as int));
        if c == '\\' || c == '`' || c == '*' || c == '_' || c == '[' || c == ']' || c == '('
            || c == ')' || c == '<' || c == '>' || c == '|' {
            push_char(out, '\\');
        }
        push_char(out, c);
        i = i + 1;
        assert(out@ =~= old(out)@ + escape_md(normalized@.take(i as int)));
    }
    assert(normalized@.take(normalized@.len() as int) =~= normalized@);
}

/// Length of the longest run of backticks in a text.
fn longest_ticks(v: &Vec<char>) -> (n: usize)
    ensures
        n == longest_tick_run(v@),
{
    let mut best: usize = 0;
    let mut run: usize = 0;
    let mut i: usize = 0;
    while i < v.len()
        invariant
            i <= v@.len(),
            run == trailing_ticks(v@.take(i as int)),
            best == longest_tick_run(v@.take(i as int)),
            run <= i,
            best <= i,
        decreases v@.len() - i,
    {
        let ghost t = v@.take(i + 1);
        assert(t.drop_last() =~= v@.take(i as int));
        if v[i] == '`' {
            run = run + 1;
        } else {
            run = 0;
        }
        if run > best {
            best = run;
        }
        i = i + 1;
    }
    assert(v@.take(v@.len() as int) =~= v@);
    best
}

fn push_ticks(out: &mut String, n: usize)
    ensures
        final(out)@ == old(out)@ + ticks(n as nat),
{
    let mut i: usize = 0;
    while i < n
        invariant
            i <= n,
            out@ == old(out)@ + ticks(i as nat),
        decreases n - i,
    {
        push_char(out, '`');
        i = i + 1;
        assert(out@ =~= old(out)@ + ticks(i as nat));
    }
}

/// Appends a code span holding `v` verbatim.
pub fn push_code_span(out: &mut String, v: &str)
    ensures
        final(out)@ == old(out)@ + code_span(v@),
{
    let cs = chars_of(v);
    let n = longest_ticks(&cs);
    push_ticks(out, n);
    push_char(out, '`');
    push_str(out, v);
    push_ticks(out, n);
    push_char(out, '`');
    assert(ticks(n as nat).push('`') =~= ticks(n as nat + 1));
    assert(out@ =~= old(out)@ + code_span(v@));
}

fn kind_text(k: RuleKind) -> (s: &'static str)
    ensures
        s@ == kind_label(k),
{
    match k {
        RuleKind::Observation => "observation",
        RuleKind::Pattern => "pattern",
        RuleKind::Recommendation => "recommendation",
    }
}

fn push_rule_line(out: &mut String, r: &Rule)
    requires
        in_unit_interval(r.confidence),
    ensures
        final(out)@ == old(out)@ + rule_line(*r),
{
    push_str(out, "- **");
    push_rendered(out, r.category.as_str());
    push_str(out, "** (");
    push_str(out, kind_text(r.kind));
    push_str(out, ", confidence ");
    push_two_decimals(out, r.confidence);
    push_str(out, "): ");
    push_rendered(out, r.statement.as_str());
    let ghost before_value = out@;
    match &r.value {
        Some(v) => {
            push_str(out, " Value: ");
            push_code_span(out, v.as_str());
        },
        None => {},
    }
    assert(out@ =~= before_value + value_part(*r));
    push_str(out, "\n");
    assert(out@ =~= old(out)@ + rule_line(*r));
}

fn push_section(out: &mut String, title: &str, rules: &Vec<Rule>, idx: &Vec<usize>)
    requires
        all_in_unit(rules@),
        positions_in(idx@, rules@.len()),
    ensures
        final(out)@ == old(out)@ + section_text(title@, pick(rules@, idx@)),
{
    push_str(out, "# ");
    push_str(out, title);
    push_str(out, "\n\n");
    let ghost head = out@;
    let ghost rs = pick(rules@, idx@);
    let mut i: usize = 0;
    while i < idx.len()
        invariant
            i <= idx@.len(),
            all_in_unit(rules@),
            positions_in(idx@, rules@.len()),
            rs == pick(rules@, idx@),
            out@ == head + rule_lines(rs.take(i as int)),
        decreases idx@.len() - i,
    {
        let ghost t = rs.take(i + 1);
        assert(t.drop_last() =~= rs.take(i as int));
        let k = idx[i];
        assert(t.last() == rules@[k as int]);
        assert(in_unit_interval(rules@[k as int].confidence));
        push_rule_line(out, &rules[k]);
        i = i + 1;
        assert(out@ =~= head + rule_lines(rs.take(i as int)));
    }
    assert(rs.take(rs.len() as int) =~= rs);
    push_str(out, "\n");
    assert(out@ =~= old(out)@ + section_text(title@, rs));
}

fn push_checklist(out: &mut String, rules: &Vec<Rule>, idx: &Vec<usize>)
    requires
        positions_in(idx@, rules@.len()),
    ensures
        final(out)@ == old(out)@ + checklist_text(pick(rules@, idx@)),
{
    push_str(out, "# ");
    push_str(out, "AI implementation checklist");
    push_str(out, "\n\n");
    let ghost head = out@;
    let ghost rs = pick(rules@, idx@);
    let mut i: usize = 0;
    while i < idx.len()
        invariant
            i <= idx@.len(),
            positions_in(idx@, rules@.len()),
            rs == pick(rules@, idx@),
            out@ == head + checklist_lines(rs.take(i as int)),
        decreases idx@.len() - i,
    {
        let ghost t = rs.take(i + 1);
        assert(t.drop_last() =~= rs.take(i as int));
        let k = idx[i];
        assert(t.last() == rules@[k as int]);
        push_str(out, "- [ ] ");
        push_rendered(out, rules[k].statement.as_str());
        push_str(out, "\n");
        i = i + 1;
        assert(out@ =~= head + checklist_lines(rs.take(i as int)));
    }
    assert(rs.take(rs.len() as int) =~= rs);
    assert(out@ =~= old(out)@ + checklist_text(rs));
}

/// The positions of an output section's rules, in order.
fn section(rules: &Vec<Rule>, which: Selection) -> (out: Vec<usize>)
    ensures
        pick(rules@, out@) == section_rules(rules@, which),
        positions_in(out@, rules@.len()),
{
    let selected = select_rules(rules, which);
    sort_section(rules, &selected)
}

// ----- excluded terms, executable -----

pub open spec fn pick_terms(ts: Seq<String>, idx: Seq<usize>) -> Seq<String> {
    idx.map_values(|i: usize| ts[i as int])
}

fn nonempty_term_positions(terms: &Vec<String>) -> (out: Vec<usize>)
    ensures
        pick_terms(terms@, out@) == nonempty_terms(terms@),
        forall|k: int| 0 <= k < out@.len() ==> #[trigger] out@[k] < terms@.len(),
{
    let mut out: Vec<usize> = Vec::new();
    let mut i: usize = 0;
    while i < terms.len()
        invariant
            i <= terms@.len(),
            pick_terms(terms@, out@) == nonempty_terms(terms@.take(i as int)),
            forall|k: int| 0 <= k < out@.len() ==> #[trigger] out@[k] < terms@.len(),
        decreases terms@.len() - i,
    {
        let ghost t = terms@.take(i + 1);
        assert(t.drop_last() =~= terms@.take(i as int));
        assert(t.last() == terms@[i as int]);
        if !terms[i].as_str().is_empty() {
            let ghost before = out@;
            out.push(i);
            assert(pick_terms(terms@, out@) =~= pick_terms(terms@, before).push(terms@[i as int]));
        }
        i = i + 1;
    }
    assert(terms@.take(terms@.len() as int) =~= terms@);
    out
}

fn check_rule_terms(
    r: &Rule,
    terms: &Vec<String>,
    idx: &Vec<usize>,
    issues: &mut Vec<ValidationIssue>,
)
    requires
        forall|k: int| 0 <= k < idx@.len() ==> #[trigger] idx@[k] < terms@.len(),
    ensures
        final(issues)@ == old(issues)@ + rule_term_issues(*r, pick_terms(terms@, idx@)),
{
    let statement = collapse_whitespace(&chars_of(r.statement.as_str()));
    let category = collapse_whitespace(&chars_of(r.category.as_str()));
    let value: Vec<char> = match &r.value {
        Some(v) => chars_of(v.as_str()),
        None => Vec::new(),
    };
    let ghost ts = pick_terms(terms@, idx@);
    let mut i: usize = 0;
    while i < idx.len()
        invariant
            i <= idx@.len(),
            ts == pick_terms(terms@, idx@),
            forall|k: int| 0 <= k < idx@.len() ==> #[trigger] idx@[k] < terms@.len(),
            statement@ == collapse_ws(r.statement@),
            category@ == collapse_ws(r.category@),
            r.value matches Some(v) ==> value@ == v@,
            issues@ == old(issues)@ + rule_term_issues(*r, ts.take(i as int)),
        decreases idx@.len() - i,
    {
        let ghost t = ts.take(i + 1);
        assert(t.drop_last() =~= ts.take(i as int));
        let k = idx[i];
        assert(t.last() == terms@[k as int]);
        let term = chars_of(terms[k].as_str());
        let in_value = match &r.value {
            Some(_) => contains_chars(&value, &term),
            None => false,
        };
        if contains_chars(&statement, &term) || contains_chars(&category, &term) || in_value {
            issues.push(ValidationIssue::ExcludedTermInRule { rule_id: r.id, term: terms[k].clone() });
        }
        i = i + 1;
        assert(issues@ =~= old(issues)@ + rule_term_issues(*r, ts.take(i as int)));
    }
    assert(ts.take(ts.len() as int) =~= ts);
}

fn check_rules_terms(
    rules: &Vec<Rule>,
    terms: &Vec<String>,
    idx: &Vec<usize>,
    issues: &mut Vec<ValidationIssue>,
)
    requires
        forall|k: int| 0 <= k < idx@.len() ==> #[trigger] idx@[k] < terms@.len(),
    ensures
        final(issues)@ == old(issues)@ + rules_term_issues(rules@, pick_terms(terms@, idx@)),
{
    let ghost ts = pick_terms(terms@, idx@);
    let mut i: usize = 0;
    while i < rules.len()
        invariant
            i <= rules@.len(),
            ts == pick_terms(terms@, idx@),
            forall|k: int| 0 <= k < idx@.len() ==> #[trigger] idx@[k] < terms@.len(),
            issues@ == old(issues)@ + rules_term_issues(rules@.take(i as int), ts),
        decreases rules@.len() - i,
    {
        let ghost t = rules@.take(i + 1);
        assert(t.drop_last() =~= rules@.take(i as int));
        let ghost before = issues@;
        if rules[i].is_exportable() {
            check_rule_terms(&rules[i], terms, idx, issues);
        }
        i = i + 1;
        assert(issues@ =~= old(issues)@ + rules_term_issues(rules@.take(i as int), ts));
    }
    assert(rules@.take(rules@.len() as int) =~= rules@);
}

proof fn lemma_rules_term_issues_append(a: Seq<Rule>, b: Seq<Rule>, ts: Seq<String>)
    ensures
        rules_term_issues(a + b, ts) == rules_term_issues(a, ts) + rules_term_issues(b, ts),
    decreases b.len(),
{
    if b.len() == 0 {
        assert(a + b =~= a);
        assert(rules_term_issues(a, ts) + Seq::empty() =~= rules_term_issues(a, ts));
    } else {
        lemma_rules_term_issues_append(a, b.drop_last(), ts);
        assert((a + b).drop_last() =~= a + b.drop_last());
        assert((a + b).last() == b.last());
        assert(rules_term_issues(a + b, ts) =~= rules_term_issues(a, ts) + rules_term_issues(b, ts));
    }
}

/// One issue per exported rule and non-empty excluded term that shows in it.
pub fn find_excluded_terms(spec: &DesignSpec) -> (issues: Vec<ValidationIssue>)
    ensures
        issues@ == excluded_term_issues(*spec),
{
    let terms = &spec.metadata.excluded_terms;
    let idx = nonempty_term_positions(terms);
    let mut issues: Vec<ValidationIssue> = Vec::new();
    check_rules_terms(&spec.intent, terms, &idx, &mut issues);
    check_rules_terms(&spec.tokens, terms, &idx, &mut issues);
    check_rules_terms(&spec.layout, terms, &idx, &mut issues);
    check_rules_terms(&spec.components, terms, &idx, &mut issues);
    check_rules_terms(&spec.assets, terms, &idx, &mut issues);
    check_rules_terms(&spec.motion, terms, &idx, &mut issues);
    check_rules_terms(&spec.constraints, terms, &idx, &mut issues);
    proof {
        let ts = pick_terms(terms@, idx@);
        let s1 = spec.intent@;
        let s2 = s1 + spec.tokens@;
        let s3 = s2 + spec.layout@;
        let s4 = s3 + spec.components@;
        let s5 = s4 + spec.assets@;
        let s6 = s5 + spec.motion@;
        lemma_rules_term_issues_append(s1, spec.tokens@, ts);
        lemma_rules_term_issues_append(s2, spec.layout@, ts);
        lemma_rules_term_issues_append(s3, spec.components@, ts);
        lemma_rules_term_issues_append(s4, spec.assets@, ts);
        lemma_rules_term_issues_append(s5, spec.motion@, ts);
        lemma_rules_term_issues_append(s6, spec.constraints@, ts);
        assert(s6 + spec.constraints@ == all_rules(*spec));
        assert(issues@ =~= excluded_term_issues(*spec));
    }
    issues
}

/// Compiles a specification into Markdown: its validation issues when it is
/// invalid, otherwise its excluded-term issues when an exported rule shows an
/// excluded term, otherwise the export text.
pub fn compile_markdown(spec: &DesignSpec) -> (r: Result<String, ValidationError>)
    ensures
        validation_issues(*spec).len() > 0 ==> (r matches Err(e) && e.issues@ == validation_issues(
            *spec,
        )),
        validation_issues(*spec).len() == 0 && excluded_term_issues(*spec).len() > 0 ==> (r matches Err(
            e,
        ) && e.issues@ == excluded_term_issues(*spec)),
        validation_issues(*spec).len() == 0 && excluded_term_issues(*spec).len() == 0 ==> (r matches Ok(
            text,
        ) && text@ == markdown_text(*spec)),
{
    match spec.validate() {
        Err(e) => {
            return Err(e);
        },
        Ok(()) => {},
    }
    let issues = find_excluded_terms(spec);
    if issues.len() > 0 {
        return Err(ValidationError { issues });
    }
    proof {
        lemma_valid_spec_in_unit(*spec);
    }
    let mut out = String::new();
    let ghost start = out@;
    push_section(&mut out, "Design intent", &spec.intent, &section(&spec.intent, Selection::OtherIntent));
    push_section(
        &mut out,
        "Visual principles",
        &spec.intent,
        &section(&spec.intent, Selection::VisualPrinciples),
    );
    push_section(&mut out, "Design tokens", &spec.tokens, &section(&spec.tokens, Selection::OtherTokens));
    push_section(&mut out, "Typography", &spec.tokens, &section(&spec.tokens, Selection::Typography));
    push_section(
        &mut out,
        "Layout and responsive rules",
        &spec.layout,
        &section(&spec.layout, Selection::All),
    );
    push_section(
        &mut out,
        "Component conventions",
        &spec.components,
        &section(&spec.components, Selection::All),
    );
    push_section(
        &mut out,
        "Interaction and states",
        &spec.motion,
        &section(&spec.motion, Selection::All),
    );
    push_section(
        &mut out,
        "Image and icon direction",
        &spec.assets,
        &section(&spec.assets, Selection::All),
    );
    let constraints = section(&spec.constraints, Selection::All);
    push_section(&mut out, "Do / Don't", &spec.constraints, &constraints);
    push_checklist(&mut out, &spec.constraints, &constraints);
    assert(out@ =~= markdown_text(*spec));
    Ok(out)
}

// ----- laws -----

proof fn lemma_escape_keeps_single_line(s: Seq<char>)
    requires
        forall|i: int| 0 <= i < s.len() ==> (s[i] == ' ' || !is_ws(#[trigger] s[i])),
    ensures
        forall|i: int|
            0 <= i < escape_md(s).len() ==> (escape_md(s)[i] == ' ' || !is_ws(
                #[trigger] escape_md(s)[i],
            )),
    decreases s.len(),
{
    if s.len() > 0 {
        let prev = s.drop_last();
        assert forall|i: int| 0 <= i < prev.len() implies (prev[i] == ' ' || !is_ws(
            #[trigger] prev[i],
        )) by {
            assert(prev[i] == s[i]);
        }
        lemma_escape_keeps_single_line(prev);
        let out = escape_md(s);
        let head = escape_md(prev);
        assert(s[s.len() - 1] == ' ' || !is_ws(s[s.len() - 1]));
        assert forall|i: int| 0 <= i < out.len() implies (out[i] == ' ' || !is_ws(
            #[trigger] out[i],
        )) by {
            if i < head.len() {
                assert(out[i] == head[i]);
            }
        }
    }
}

/// Rendered prose is a single line: every character is a plain space or not
/// whitespace at all, so no rule text can start a heading or a checklist
/// item of its own.
pub proof fn law_rendered_text_is_one_line(s: Seq<char>)
    ensures
        forall|i: int|
            0 <= i < render_text(s).len() ==> (render_text(s)[i] == ' ' || !is_ws(
                #[trigger] render_text(s)[i],
            )),
{
    lemma_collapse_ws_single_line(s);
    lemma_escape_keeps_single_line(collapse_ws(s));
}

proof fn lemma_rule_term_issues_empty(r: Rule, terms: Seq<String>)
    requires
        rule_term_issues(r, terms).len() == 0,
    ensures
        forall|j: int| 0 <= j < terms.len() ==> !term_hits(r, #[trigger] terms[j]@),
    decreases terms.len(),
{
    if terms.len() > 0 {
        lemma_rule_term_issues_empty(r, terms.drop_last());
        assert forall|j: int| 0 <= j < terms.len() implies !term_hits(r, #[trigger] terms[j]@) by {
            if j < terms.len() - 1 {
                assert(terms[j] == terms.drop_last()[j]);
            }
        }
    }
}

proof fn lemma_rules_term_issues_empty(rs: Seq<Rule>, terms: Seq<String>)
    requires
        rules_term_issues(rs, terms).len() == 0,
    ensures
        forall|i: int|
            0 <= i < rs.len() && exportable(rs[i]) ==> rule_term_issues(
                #[trigger] rs[i],
                terms,
            ).len() == 0,
    decreases rs.len(),
{
    if rs.len() > 0 {
        lemma_rules_term_issues_empty(rs.drop_last(), terms);
        assert forall|i: int| 0 <= i < rs.len() && exportable(rs[i]) implies rule_term_issues(
            #[trigger] rs[i],
            terms,
        ).len() == 0 by {
            if i < rs.len() - 1 {
                assert(rs[i] == rs.drop_last()[i]);
            }
        }
    }
}

proof fn lemma_nonempty_terms_kept(ts: Seq<String>)
    ensures
        forall|j: int|
            0 <= j < ts.len() && (#[trigger] ts[j])@.len() > 0 ==> exists|k: int|
                0 <= k < nonempty_terms(ts).len() && nonempty_terms(ts)[k] == ts[j],
    decreases ts.len(),
{
    if ts.len() > 0 {
        lemma_nonempty_terms_kept(ts.drop_last());
        let rest = nonempty_terms(ts.drop_last());
        assert forall|j: int| 0 <= j < ts.len() && (#[trigger] ts[j])@.len() > 0 implies exists|
            k: int,
        | 0 <= k < nonempty_terms(ts).len() && nonempty_terms(ts)[k] == ts[j] by {
            if j < ts.len() - 1 {
                assert(ts[j] == ts.drop_last()[j]);
                let k = choose|k: int| 0 <= k < rest.len() && rest[k] == ts.drop_last()[j];
                assert(nonempty_terms(ts)[k] == rest[k]);
            } else {
                assert(nonempty_terms(ts)[rest.len() as int] == ts[j]);
            }
        }
    }
}

/// An export never shows an excluded term: when a specification has no
/// excluded-term issues (as every compiled one has), no confirmed rule's
/// normalized statement, normalized category or value text contains any
/// non-empty excluded term.
pub proof fn law_export_free_of_excluded_terms(spec: DesignSpec)
    requires
        excluded_term_issues(spec).len() == 0,
    ensures
        forall|i: int, j: int|
            0 <= i < all_rules(spec).len() && exportable(all_rules(spec)[i]) && 0 <= j
                < spec.metadata.excluded_terms@.len() && spec.metadata.excluded_terms@[j]@.len()
                > 0 ==> !term_hits(
                #[trigger] all_rules(spec)[i],
                #[trigger] spec.metadata.excluded_terms@[j]@,
            ),
{
    let all = all_rules(spec);
    let ts = spec.metadata.excluded_terms@;
    let kept = nonempty_terms(ts);
    lemma_rules_term_issues_empty(all, kept);
    lemma_nonempty_terms_kept(ts);
    assert forall|i: int, j: int|
        0 <= i < all.len() && exportable(all[i]) && 0 <= j < ts.len() && ts[j]@.len()
            > 0 implies !term_hits(#[trigger] all[i], #[trigger] ts[j]@) by {
        assert(rule_term_issues(all[i], kept).len() == 0);
        lemma_rule_term_issues_empty(all[i], kept);
        let k = choose|k: int| 0 <= k < kept.len() && kept[k] == ts[j];
        assert(!term_hits(all[i], kept[k]@));
    }
}

proof fn lemma_insert_sorted_multiset(x: Rule, s: Seq<Rule>)
    ensures
        insert_sorted(x, s).to_multiset() =~= s.to_multiset().insert(x),
    decreases s.len(),
{
    broadcast use vstd::seq_lib::group_to_multiset_ensures;

    if s.len() > 0 && sorts_before(x, s.last()) {
        lemma_insert_sorted_multiset(x, s.drop_last());
        assert(s.drop_last().push(s.last()) =~= s);
    }
}

proof fn lemma_sort_rules_multiset(s: Seq<Rule>)
    ensures
        sort_rules(s).to_multiset() =~= s.to_multiset(),
    decreases s.len(),
{
    broadcast use vstd::seq_lib::group_to_multiset_ensures;

    if s.len() > 0 {
        lemma_sort_rules_multiset(s.drop_last());
        lemma_insert_sorted_multiset(s.last(), sort_rules(s.drop_last()));
        assert(s.drop_last().push(s.last()) =~= s);
    }
}

proof fn lemma_select_contains(rs: Seq<Rule>, which: Selection, r: Rule)
    ensures
        select(rs, which).contains(r) <==> (rs.contains(r) && selected(which, r)),
    decreases rs.len(),
{
    broadcast use vstd::seq_lib::group_to_multiset_ensures;

    if rs.len() > 0 {
        let init = rs.drop_last();
        lemma_select_contains(init, which, r);
        assert(init.push(rs.last()) =~= rs);
        lemma_push_contains(init, rs.last(), r);
        lemma_push_contains(select(init, which), rs.last(), r);
    }
}

proof fn lemma_push_contains(s: Seq<Rule>, a: Rule, b: Rule)
    ensures
        s.push(a).contains(b) <==> (s.contains(b) || a == b),
{
    if s.contains(b) {
        let i = choose|i: int| 0 <= i < s.len() && s[i] == b;
        assert(s.push(a)[i] == b);
    }
    if a == b {
        assert(s.push(a)[s.len() as int] == b);
    }
    if s.push(a).contains(b) {
        let i = choose|i: int| 0 <= i < s.push(a).len() && s.push(a)[i] == b;
        if i < s.len() {
            assert(s[i] == b);
        }
    }
}

/// No rule of `s` sorts before one that comes earlier.
pub open spec fn in_section_order(s: Seq<Rule>) -> bool {
    forall|i: int, j: int| 0 <= i < j < s.len() ==> !sorts_before(#[trigger] s[j], #[trigger] s[i])
}

proof fn lemma_sorts_before_order(a: Rule, b: Rule, c: Rule)
    ensures
        !sorts_before(a, a),
        sorts_before(a, b) && sorts_before(b, c) ==> sorts_before(a, c),
        !sorts_before(a, b) && !sorts_before(b, a) ==> (a.category@ == b.category@ && unit_rank(
            a.confidence,
        ) == unit_rank(b.confidence) && a.id == b.id),
{
    lemma_text_lt_irreflexive(a.category@);
    if text_lt(a.category@, b.category@) && text_lt(b.category@, c.category@) {
        lemma_text_lt_transitive(a.category@, b.category@, c.category@);
    }
    if a.category@ != b.category@ {
        lemma_text_lt_total(a.category@, b.category@);
    }
}

proof fn lemma_insert_sorted_in_order(x: Rule, s: Seq<Rule>)
    requires
        in_section_order(s),
    ensures
        in_section_order(insert_sorted(x, s)),
    decreases s.len(),
{
    broadcast use vstd::seq_lib::group_to_multiset_ensures;

    if s.len() == 0 {
    } else if !sorts_before(x, s.last()) {
        let last = s.last();
        assert forall|i: int| 0 <= i < s.len() implies !sorts_before(x, #[trigger] s[i]) by {
            if i < s.len() - 1 {
                assert(!sorts_before(s[s.len() - 1], s[i]));
                lemma_sorts_before_order(s[i], last, x);
                lemma_sorts_before_order(x, s[i], last);
            }
        }
        let out = s.push(x);
        assert forall|i: int, j: int| 0 <= i < j < out.len() implies !sorts_before(
            #[trigger] out[j],
            #[trigger] out[i],
        ) by {
            if j < s.len() {
                assert(out[j] == s[j] && out[i] == s[i]);
            } else {
                assert(out[j] == x && out[i] == s[i]);
            }
        }
    } else {
        let init = s.drop_last();
        let last = s.last();
        assert(in_section_order(init)) by {
            assert forall|i: int, j: int| 0 <= i < j < init.len() implies !sorts_before(
                #[trigger] init[j],
                #[trigger] init[i],
            ) by {
                assert(init[j] == s[j] && init[i] == s[i]);
            }
        }
        lemma_insert_sorted_in_order(x, init);
        lemma_insert_sorted_multiset(x, init);
        let mid = insert_sorted(x, init);
        let out = mid.push(last);
        assert forall|k: int| 0 <= k < mid.len() implies !sorts_before(last, #[trigger] mid[k]) by {
            assert(mid.to_multiset().count(mid[k]) > 0);
            if mid[k] == x {
                lemma_sorts_before_order(x, last, x);
            } else {
                assert(init.to_multiset().count(mid[k]) > 0);
                let i = choose|i: int| 0 <= i < init.len() && init[i] == mid[k];
                assert(s[i] == init[i]);
                assert(!sorts_before(s[s.len() - 1], s[i]));
            }
        }
        assert forall|i: int, j: int| 0 <= i < j < out.len() implies !sorts_before(
            #[trigger] out[j],
            #[trigger] out[i],
        ) by {
            if j < mid.len() {
                assert(out[j] == mid[j] && out[i] == mid[i]);
            } else {
                assert(out[j] == last && out[i] == mid[i]);
            }
        }
    }
}

proof fn lemma_sort_rules_in_order(s: Seq<Rule>)
    ensures
        in_section_order(sort_rules(s)),
    decreases s.len(),
{
    if s.len() > 0 {
        lemma_sort_rules_in_order(s.drop_last());
        lemma_insert_sorted_in_order(s.last(), sort_rules(s.drop_last()));
    }
}

/// A section of the export holds exactly the rules of the specification that
/// it selects, that is the accepted or edited rules of its kind: each of them
/// as often as it occurs in the specification, and no other rule. A pending
/// or rejected rule is never exported. The section lists them in section
/// order: by category, then by descending confidence, then by identifier.
pub proof fn law_section_holds_exactly_its_confirmed_rules(rs: Seq<Rule>, which: Selection, r: Rule)
    ensures
        in_section_order(section_rules(rs, which)),
        section_rules(rs, which).to_multiset() == select(rs, which).to_multiset(),
        section_rules(rs, which).contains(r) <==> (rs.contains(r) && selected(which, r)),
        section_rules(rs, which).contains(r) ==> exportable(r),
{
    broadcast use vstd::seq_lib::group_to_multiset_ensures;

    lemma_sort_rules_multiset(select(rs, which));
    lemma_sort_rules_in_order(select(rs, which));
    lemma_select_contains(rs, which, r);
    let out = section_rules(rs, which);
    assert(out.to_multiset().count(r) == select(rs, which).to_multiset().count(r));
    assert(out.contains(r) <==> select(rs, which).contains(r));
}

/// A confirmed token rule whose lower-cased category mentions typography,
/// type, font or text is exported under "Typography" and not under "Design
/// tokens"; any other confirmed token rule under "Design tokens" and not
/// under "Typography".
pub proof fn law_typography_tokens_are_exported_as_typography(spec: DesignSpec, r: Rule)
    requires
        spec.tokens@.contains(r),
        r.status == RuleStatus::Accepted || r.status == RuleStatus::Edited,
    ensures
        (contains_text(ascii_lower(r.category@), "typography"@) || contains_text(
            ascii_lower(r.category@),
            "type"@,
        ) || contains_text(ascii_lower(r.category@), "font"@) || contains_text(
            ascii_lower(r.category@),
            "text"@,
        )) ==> section_rules(spec.tokens@, Selection::Typography).contains(r) && !section_rules(
            spec.tokens@,
            Selection::OtherTokens,
        ).contains(r),
        !(contains_text(ascii_lower(r.category@), "typography"@) || contains_text(
            ascii_lower(r.category@),
            "type"@,
        ) || contains_text(ascii_lower(r.category@), "font"@) || contains_text(
            ascii_lower(r.category@),
            "text"@,
        )) ==> section_rules(spec.tokens@, Selection::OtherTokens).contains(r) && !section_rules(
            spec.tokens@,
            Selection::Typography,
        ).contains(r),
{
    law_section_holds_exactly_its_confirmed_rules(spec.tokens@, Selection::Typography, r);
    law_section_holds_exactly_its_confirmed_rules(spec.tokens@, Selection::OtherTokens, r);
}

/// A confirmed intent rule whose lower-cased category mentions visual or
/// principle is exported under "Visual principles" and not under "Design
/// intent"; any other confirmed intent rule under "Design intent" and not
/// under "Visual principles".
pub proof fn law_visual_intent_is_exported_as_visual_principles(spec: DesignSpec, r: Rule)
    requires
        spec.intent@.contains(r),
        r.status == RuleStatus::Accepted || r.status == RuleStatus::Edited,
    ensures
        (contains_text(ascii_lower(r.category@), "visual"@) || contains_text(
            ascii_lower(r.category@),
            "principle"@,
        )) ==> section_rules(spec.intent@, Selection::VisualPrinciples).contains(r)
            && !section_rules(spec.intent@, Selection::OtherIntent).contains(r),
        !(contains_text(ascii_lower(r.category@), "visual"@) || contains_text(
            ascii_lower(r.category@),
            "principle"@,
        )) ==> section_rules(spec.intent@, Selection::OtherIntent).contains(r) && !section_rules(
            spec.intent@,
            Selection::VisualPrinciples,
        ).contains(r),
{
    law_section_holds_exactly_its_confirmed_rules(spec.intent@, Selection::VisualPrinciples, r);
    law_section_holds_exactly_its_confirmed_rules(spec.intent@, Selection::OtherIntent, r);
}

} // verus!
