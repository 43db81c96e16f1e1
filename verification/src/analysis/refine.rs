//! Natural-language refinement of draft rules.
//!
//! A refinement sends the rules in scope, as JSON, together with the user's
//! instruction; the model answers with the rules it changed. Changed rules
//! come back as `Edited` and still need human acceptance.

use vstd::prelude::*;
use crate::analysis::orchestrator::AnalysisError;
use crate::analysis::prompt::FIXED_ANALYSIS_INSTRUCTIONS;
use crate::ids::{hyphenated, id_to_string};
use crate::json::{json_compact, json_get, member_from, to_json_text, JsonMember, JsonValue, JsonView};
use crate::model::{all_rules, DesignSpec, Rule, RuleSource, RuleStatus};
use crate::providers::client::AnalysisRequest;
use crate::text::{chars_of, is_blank, is_blank_str, push_str, string_of, trim, trim_chars};
use crate::validation::{rule_ids, rules_issues, rule_issues, validation_issues};

verus! {

#[derive(Debug, Clone, Copy, PartialEq, Eq, Structural)]
pub enum RefineScope {
    AllRules,
    Rule(u128),
}

#[derive(Debug, Clone)]
pub struct RefineOutcome {
    pub spec: DesignSpec,
    pub affected_rule_ids: Vec<u128>,
}

/// One changed rule in the model's answer.
#[derive(Debug, Clone, PartialEq, Eq)]
pub struct PatchedRule {
    pub id: u128,
    pub statement: String,
}

/// The refinement prompt.
pub open spec fn refine_prompt_text(instruction: Seq<char>, rules_json: Seq<char>) -> Seq<char> {
    FIXED_ANALYSIS_INSTRUCTIONS@ + "\n\nRewrite the design rules below according to the user's instruction.\nReturn only a JSON array of the changed rules, each item shaped as\n{\"id\": \"<uuid>\", \"statement\": \"<new statement>\"}.\nUse only ids from the provided rules. Do not invent new rules and do not\ninclude rules whose statement is unchanged.\n\nUser instruction:\n"@
        + instruction + "\n\nRules:\n"@ + rules_json
}

pub fn refine_prompt(instruction: &str, rules_json: &str) -> (prompt: String)
    ensures
        prompt@ == refine_prompt_text(instruction@, rules_json@),
{
    let mut prompt = String::new();
    push_str(&mut prompt, FIXED_ANALYSIS_INSTRUCTIONS);
    push_str(
        &mut prompt,
        "\n\nRewrite the design rules below according to the user's instruction.\nReturn only a JSON array of the changed rules, each item shaped as\n{\"id\": \"<uuid>\", \"statement\": \"<new statement>\"}.\nUse only ids from the provided rules. Do not invent new rules and do not\ninclude rules whose statement is unchanged.\n\nUser instruction:\n",
    );
    push_str(&mut prompt, instruction);
    push_str(&mut prompt, "\n\nRules:\n");
    push_str(&mut prompt, rules_json);
    assert(prompt@ =~= refine_prompt_text(instruction@, rules_json@));
    prompt
}

/// The rule is in the scope of the refinement.
pub open spec fn in_scope(r: Rule, scope: RefineScope) -> bool {
    match scope {
        RefineScope::AllRules => true,
        RefineScope::Rule(id) => r.id == id,
    }
}

/// The rules in scope, in order.
pub open spec fn scoped(rs: Seq<Rule>, scope: RefineScope) -> Seq<Rule>
    decreases rs.len(),
{
    if rs.len() == 0 {
        Seq::empty()
    } else if in_scope(rs.last(), scope) {
        scoped(rs.drop_last(), scope).push(rs.last())
    } else {
        scoped(rs.drop_last(), scope)
    }
}

/// The rules of a specification a refinement works on.
pub open spec fn refine_targets(spec: DesignSpec, scope: RefineScope) -> Seq<Rule> {
    scoped(all_rules(spec), scope)
}

/// How a rule is shown to the model: its category, identifier and statement.
pub open spec fn rule_json(r: Rule) -> JsonView {
    JsonView::Object(
        seq![
            ("category"@, JsonView::Text(r.category@)),
            ("id"@, JsonView::Text(hyphenated(r.id))),
            ("statement"@, JsonView::Text(r.statement@)),
        ],
    )
}

/// The rules shown to the model, as a JSON array.
pub open spec fn rules_json(rs: Seq<Rule>) -> JsonView {
    JsonView::Array(rs.map_values(|r: Rule| rule_json(r)))
}

proof fn lemma_scoped_append(a: Seq<Rule>, b: Seq<Rule>, scope: RefineScope)
    ensures
        scoped(a + b, scope) == scoped(a, scope) + scoped(b, scope),
    decreases b.len(),
{
    if b.len() == 0 {
        assert(a + b =~= a);
        assert(scoped(b, scope) =~= Seq::<Rule>::empty());
        assert(scoped(a, scope) + scoped(b, scope) =~= scoped(a, scope));
    } else {
        lemma_scoped_append(a, b.drop_last(), scope);
        assert((a + b).drop_last() =~= a + b.drop_last());
        assert((a + b).last() == b.last());
        if in_scope(b.last(), scope) {
            assert(scoped(a, scope) + scoped(b.drop_last(), scope).push(b.last()) =~= (scoped(
                a,
                scope,
            ) + scoped(b.drop_last(), scope)).push(b.last()));
        }
    }
}

/// Appends the rules of `section` that are in scope, shown as JSON, and their
/// identifiers.
fn push_scoped(
    section: &Vec<Rule>,
    scope: RefineScope,
    items: &mut Vec<JsonValue>,
    ids: &mut Vec<u128>,
)
    ensures
        final(items)@.map_values(|v: JsonValue| v@) == old(items)@.map_values(|v: JsonValue| v@)
            + scoped(section@, scope).map_values(|r: Rule| rule_json(r)),
        final(ids)@ == old(ids)@ + scoped(section@, scope).map_values(|r: Rule| r.id),
{
    let ghost items0 = items@.map_values(|v: JsonValue| v@);
    let ghost ids0 = ids@;
    let mut i: usize = 0;
    while i < section.len()
        invariant
            i <= section@.len(),
            items@.map_values(|v: JsonValue| v@) == items0 + scoped(
                section@.take(i as int),
                scope,
            ).map_values(|r: Rule| rule_json(r)),
            ids@ == ids0 + scoped(section@.take(i as int), scope).map_values(|r: Rule| r.id),
        decreases section@.len() - i,
    {
        let r = &section[i];
        let ghost before = section@.take(i as int);
        let ghost prev_items = items@;
        assert(section@.take(i + 1).drop_last() =~= before);
        assert(section@.take(i + 1).last() == *r);
        let in_it = match scope {
            RefineScope::AllRules => true,
            RefineScope::Rule(id) => r.id == id,
        };
        if in_it {
            let mut members: Vec<JsonMember> = Vec::new();
            members.push(
                JsonMember { key: "category".to_owned(), value: JsonValue::Text(r.category.clone()) },
            );
            members.push(JsonMember { key: "id".to_owned(), value: JsonValue::Text(id_to_string(r.id)) });
            members.push(
                JsonMember {
                    key: "statement".to_owned(),
                    value: JsonValue::Text(r.statement.clone()),
                },
            );
            assert(members@.len() == 3);
            assert(members@[0].key@ == "category"@);
            assert(members@[0].value@ == JsonView::Text(r.category@));
            assert(members@[1].value@ == JsonView::Text(hyphenated(r.id)));
            assert(members@[2].value@ == JsonView::Text(r.statement@));
            let item = JsonValue::Object(members);
            assert(item@->Object_0 =~= rule_json(*r)->Object_0);
            assert(item@ == rule_json(*r));
            items.push(item);
            ids.push(r.id);
        }
        proof {
            if in_scope(*r, scope) {
                assert(scoped(section@.take(i + 1), scope) == scoped(before, scope).push(*r));
                assert(items@ == prev_items.push(items@.last()));
                assert(items@.map_values(|v: JsonValue| v@) =~= prev_items.map_values(
                    |v: JsonValue| v@,
                ).push(rule_json(*r)));
            } else {
                assert(scoped(section@.take(i + 1), scope) == scoped(before, scope));
            }
        }
        i = i + 1;
        assert(items@.map_values(|v: JsonValue| v@) =~= items0 + scoped(
            section@.take(i as int),
            scope,
        ).map_values(|r: Rule| rule_json(r)));
        assert(ids@ =~= ids0 + scoped(section@.take(i as int), scope).map_values(|r: Rule| r.id));
    }
    assert(section@.take(section@.len() as int) =~= section@);
}

/// `e` is the refinement error with message `m`.
pub open spec fn is_refine_error(e: AnalysisError, m: Seq<char>) -> bool {
    e matches AnalysisError::Refine(text) && text@ == m
}

fn refine_error(m: &str) -> (e: AnalysisError)
    ensures
        is_refine_error(e, m@),
{
    AnalysisError::Refine(m.to_owned())
}

/// Prepares a refinement: checks the instruction and the scope, and builds
/// the request (no images, no structured-output constraint) together with
/// the identifiers of the rules in scope. A blank instruction and a scope
/// that matches no rule fail before anything is sent.
pub fn prepare_refinement(
    spec: &DesignSpec,
    instruction: &str,
    scope: RefineScope,
    model: &str,
) -> (r: Result<(AnalysisRequest, Vec<u128>), AnalysisError>)
    ensures
        is_blank(instruction@) ==> (r matches Err(e) && is_refine_error(
            e,
            "instruction must not be empty"@,
        )),
        !is_blank(instruction@) && refine_targets(*spec, scope).len() == 0 ==> (r matches Err(e)
            && is_refine_error(e, "no rules match the requested scope"@)),
        !is_blank(instruction@) && refine_targets(*spec, scope).len() > 0 ==> (r matches Ok(
            (request, ids),
        ) && request.model@ == model@ && request.prompt@ == refine_prompt_text(
            instruction@,
            json_compact(rules_json(refine_targets(*spec, scope))),
        ) && request.json_schema is None && request.images@.len() == 0 && ids@
            == refine_targets(*spec, scope).map_values(|r: Rule| r.id)),
{
    if is_blank_str(instruction) {
        return Err(refine_error("instruction must not be empty"));
    }
    let mut items: Vec<JsonValue> = Vec::new();
    let mut ids: Vec<u128> = Vec::new();
    push_scoped(&spec.intent, scope, &mut items, &mut ids);
    push_scoped(&spec.tokens, scope, &mut items, &mut ids);
    push_scoped(&spec.layout, scope, &mut items, &mut ids);
    push_scoped(&spec.components, scope, &mut items, &mut ids);
    push_scoped(&spec.assets, scope, &mut items, &mut ids);
    push_scoped(&spec.motion, scope, &mut items, &mut ids);
    push_scoped(&spec.constraints, scope, &mut items, &mut ids);
    let ghost targets = refine_targets(*spec, scope);
    proof {
        let a = spec.intent@;
        let b = a + spec.tokens@;
        let c = b + spec.layout@;
        let d = c + spec.components@;
        let e = d + spec.assets@;
        let f = e + spec.motion@;
        lemma_scoped_append(a, spec.tokens@, scope);
        lemma_scoped_append(b, spec.layout@, scope);
        lemma_scoped_append(c, spec.components@, scope);
        lemma_scoped_append(d, spec.assets@, scope);
        lemma_scoped_append(e, spec.motion@, scope);
        lemma_scoped_append(f, spec.constraints@, scope);
        assert(targets =~= scoped(spec.intent@, scope) + scoped(spec.tokens@, scope) + scoped(
            spec.layout@,
            scope,
        ) + scoped(spec.components@, scope) + scoped(spec.assets@, scope) + scoped(
            spec.motion@,
            scope,
        ) + scoped(spec.constraints@, scope));
        assert(items@.map_values(|v: JsonValue| v@) =~= targets.map_values(|r: Rule| rule_json(r)));
        assert(ids@ =~= targets.map_values(|r: Rule| r.id));
    }
    if ids.len() == 0 {
        return Err(refine_error("no rules match the requested scope"));
    }
    let array = JsonValue::Array(items);
    assert(array@->Array_0 =~= items@.map_values(|v: JsonValue| v@));
    assert(array@ == rules_json(targets));
    let text = to_json_text(&array);
    let prompt = refine_prompt(instruction, text.as_str());
    let request = AnalysisRequest {
        model: model.to_owned(),
        prompt,
        json_schema: None,
        images: Vec::new(),
    };
    Ok((request, ids))
}

// ----- applying the model's answer -----

/// The view of a changed rule: its identifier and new statement.
pub open spec fn patch_views(ps: Seq<PatchedRule>) -> Seq<(u128, Seq<char>)> {
    ps.map_values(|p: PatchedRule| (p.id, p.statement@))
}

/// The new statement for identifier `id`: that of the first change at or
/// after position `i` that names it.
pub open spec fn patch_from(ps: Seq<(u128, Seq<char>)>, id: u128, i: int) -> Option<Seq<char>>
    decreases ps.len() - i,
{
    if i < 0 || i >= ps.len() {
        None
    } else if ps[i].0 == id {
        Some(ps[i].1)
    } else {
        patch_from(ps, id, i + 1)
    }
}

/// `out` is `r` after the changes: when a change names `r`, its trimmed new
/// statement, status `Edited` and source `Model`, everything else kept;
/// otherwise `r` itself.
pub open spec fn patched_rule(out: Rule, r: Rule, ps: Seq<(u128, Seq<char>)>) -> bool {
    match patch_from(ps, r.id, 0) {
        Some(t) => {
            &&& out.statement@ == trim(t)
            &&& out.status == RuleStatus::Edited
            &&& out.source == RuleSource::Model
            &&& out.id == r.id
            &&& out.category == r.category
            &&& out.kind == r.kind
            &&& out.scope == r.scope
            &&& out.value == r.value
            &&& out.evidence_ids == r.evidence_ids
            &&& out.confidence == r.confidence
        },
        None => out == r,
    }
}

pub open spec fn patched_section(out: Seq<Rule>, rs: Seq<Rule>, ps: Seq<(u128, Seq<char>)>) -> bool {
    &&& out.len() == rs.len()
    &&& forall|i: int| 0 <= i < rs.len() ==> patched_rule(#[trigger] out[i], rs[i], ps)
}

/// `q` is `p` with the changes applied to its rules; metadata, evidence and
/// uncertainties are kept.
pub open spec fn refined(q: DesignSpec, p: DesignSpec, ps: Seq<(u128, Seq<char>)>) -> bool {
    &&& q.metadata == p.metadata
    &&& patched_section(q.intent@, p.intent@, ps)
    &&& patched_section(q.tokens@, p.tokens@, ps)
    &&& patched_section(q.layout@, p.layout@, ps)
    &&& patched_section(q.components@, p.components@, ps)
    &&& patched_section(q.assets@, p.assets@, ps)
    &&& patched_section(q.motion@, p.motion@, ps)
    &&& patched_section(q.constraints@, p.constraints@, ps)
    &&& q.evidence == p.evidence
    &&& q.uncertainties == p.uncertainties
}

/// Every specification the changes can produce from `p` is valid.
pub open spec fn refinement_valid(p: DesignSpec, ps: Seq<(u128, Seq<char>)>) -> bool {
    forall|q: DesignSpec| refined(q, p, ps) ==> validation_issues(q).len() == 0
}

/// The changes can be applied: each names a rule that was sent, has a
/// non-blank statement, and names a rule no earlier change named.
pub open spec fn patches_acceptable(ps: Seq<(u128, Seq<char>)>, target_ids: Seq<u128>) -> bool {
    forall|k: int|
        0 <= k < ps.len() ==> {
            &&& target_ids.contains(#[trigger] ps[k].0)
            &&& !is_blank(ps[k].1)
            &&& forall|j: int| 0 <= j < k ==> ps[j].0 != ps[k].0
        }
}

/// The rule fields validation looks at.
pub open spec fn checked_alike(a: Rule, b: Rule) -> bool {
    &&& a.id == b.id
    &&& a.statement@ == b.statement@
    &&& a.confidence == b.confidence
    &&& a.evidence_ids@ == b.evidence_ids@
}

pub open spec fn sections_alike(a: Seq<Rule>, b: Seq<Rule>) -> bool {
    &&& a.len() == b.len()
    &&& forall|i: int| 0 <= i < a.len() ==> checked_alike(#[trigger] a[i], b[i])
}

proof fn lemma_rules_issues_alike(a: Seq<Rule>, b: Seq<Rule>, seen: Seq<u128>, known: Seq<u128>)
    requires
        sections_alike(a, b),
    ensures
        rules_issues(a, seen, known) == rules_issues(b, seen, known),
        rule_ids(a) == rule_ids(b),
    decreases a.len(),
{
    assert(rule_ids(a) =~= rule_ids(b));
    if a.len() > 0 {
        lemma_rules_issues_alike(a.drop_last(), b.drop_last(), seen, known);
        assert(checked_alike(a.last(), b.last()));
        let s = seen + rule_ids(a.drop_last());
        assert(rule_issues(a.last(), s, known) == rule_issues(b.last(), s, known));
    }
}

proof fn lemma_patched_alike(q1: Seq<Rule>, q2: Seq<Rule>, p: Seq<Rule>, ps: Seq<(u128, Seq<char>)>)
    requires
        patched_section(q1, p, ps),
        patched_section(q2, p, ps),
    ensures
        sections_alike(q1, q2),
{
    assert forall|i: int| 0 <= i < q1.len() implies checked_alike(#[trigger] q1[i], q2[i]) by {
        assert(patched_rule(q1[i], p[i], ps));
        assert(patched_rule(q2[i], p[i], ps));
    }
}

proof fn lemma_alike_concat(a1: Seq<Rule>, a2: Seq<Rule>, b1: Seq<Rule>, b2: Seq<Rule>)
    requires
        sections_alike(a1, a2),
        sections_alike(b1, b2),
    ensures
        sections_alike(a1 + b1, a2 + b2),
{
    assert forall|i: int| 0 <= i < (a1 + b1).len() implies checked_alike(
        #[trigger] (a1 + b1)[i],
        (a2 + b2)[i],
    ) by {
        if i < a1.len() {
            assert(checked_alike(a1[i], a2[i]));
        } else {
            assert(checked_alike(b1[i - a1.len()], b2[i - a1.len()]));
        }
    }
}

/// Validation depends only on what the changes determine.
proof fn lemma_refined_same_issues(q1: DesignSpec, q2: DesignSpec, p: DesignSpec, ps: Seq<(u128, Seq<char>)>)
    requires
        refined(q1, p, ps),
        refined(q2, p, ps),
    ensures
        validation_issues(q1) == validation_issues(q2),
{
    lemma_patched_alike(q1.intent@, q2.intent@, p.intent@, ps);
    lemma_patched_alike(q1.tokens@, q2.tokens@, p.tokens@, ps);
    lemma_patched_alike(q1.layout@, q2.layout@, p.layout@, ps);
    lemma_patched_alike(q1.components@, q2.components@, p.components@, ps);
    lemma_patched_alike(q1.assets@, q2.assets@, p.assets@, ps);
    lemma_patched_alike(q1.motion@, q2.motion@, p.motion@, ps);
    lemma_patched_alike(q1.constraints@, q2.constraints@, p.constraints@, ps);
    lemma_alike_concat(q1.intent@, q2.intent@, q1.tokens@, q2.tokens@);
    lemma_alike_concat(
        q1.intent@ + q1.tokens@,
        q2.intent@ + q2.tokens@,
        q1.layout@,
        q2.layout@,
    );
    lemma_alike_concat(
        q1.intent@ + q1.tokens@ + q1.layout@,
        q2.intent@ + q2.tokens@ + q2.layout@,
        q1.components@,
        q2.components@,
    );
    lemma_alike_concat(
        q1.intent@ + q1.tokens@ + q1.layout@ + q1.components@,
        q2.intent@ + q2.tokens@ + q2.layout@ + q2.components@,
        q1.assets@,
        q2.assets@,
    );
    lemma_alike_concat(
        q1.intent@ + q1.tokens@ + q1.layout@ + q1.components@ + q1.assets@,
        q2.intent@ + q2.tokens@ + q2.layout@ + q2.components@ + q2.assets@,
        q1.motion@,
        q2.motion@,
    );
    lemma_alike_concat(
        q1.intent@ + q1.tokens@ + q1.layout@ + q1.components@ + q1.assets@ + q1.motion@,
        q2.intent@ + q2.tokens@ + q2.layout@ + q2.components@ + q2.assets@ + q2.motion@,
        q1.constraints@,
        q2.constraints@,
    );
    let known = crate::validation::evidence_ids(p.evidence@);
    lemma_rules_issues_alike(all_rules(q1), all_rules(q2), Seq::empty(), known);
}

fn find_patch(patches: &Vec<PatchedRule>, id: u128) -> (r: Option<usize>)
    ensures
        match r {
            Some(k) => k < patches@.len() && patch_from(patch_views(patches@), id, 0) == Some(
                patches@[k as int].statement@,
            ),
            None => patch_from(patch_views(patches@), id, 0) is None,
        },
{
    let ghost ps = patch_views(patches@);
    let mut k: usize = 0;
    while k < patches.len()
        invariant
            k <= patches@.len(),
            ps == patch_views(patches@),
            patch_from(ps, id, 0) == patch_from(ps, id, k as int),
        decreases patches@.len() - k,
    {
        if patches[k].id == id {
            return Some(k);
        }
        k = k + 1;
    }
    None
}

fn trimmed(s: &str) -> (r: String)
    ensures
        r@ == trim(s@),
{
    string_of(&trim_chars(&chars_of(s)))
}

fn patch_section(rules: Vec<Rule>, patches: &Vec<PatchedRule>) -> (out: Vec<Rule>)
    ensures
        patched_section(out@, rules@, patch_views(patches@)),
{
    let ghost original = rules@;
    let ghost ps = patch_views(patches@);
    let mut src = rules;
    let mut out: Vec<Rule> = Vec::new();
    while src.len() > 0
        invariant
            out@.len() + src@.len() == original.len(),
            ps == patch_views(patches@),
            src@ == original.skip(out@.len() as int),
            forall|i: int| 0 <= i < out@.len() ==> patched_rule(#[trigger] out@[i], original[i], ps),
        decreases src@.len(),
    {
        let ghost k: int = out@.len() as int;
        let mut r = src.remove(0);
        assert(r == original[k]);
        match find_patch(patches, r.id) {
            Some(j) => {
                r.statement = trimmed(patches[j].statement.as_str());
                r.status = RuleStatus::Edited;
                r.source = RuleSource::Model;
            },
            None => {},
        }
        out.push(r);
        assert(src@ =~= original.skip(k + 1));
    }
    out
}

/// What applying the changes `ps` to `spec` gives.
pub open spec fn patches_outcome(
    r: Result<RefineOutcome, AnalysisError>,
    spec: DesignSpec,
    target_ids: Seq<u128>,
    ps: Seq<(u128, Seq<char>)>,
) -> bool {
    if ps.len() == 0 {
        r matches Err(e) && is_refine_error(e, "the model returned no rule changes"@)
    } else if !patches_acceptable(ps, target_ids) {
        r == Err::<RefineOutcome, AnalysisError>(AnalysisError::InvalidSpec)
    } else {
        &&& (r is Ok <==> refinement_valid(spec, ps))
        &&& r is Err ==> r == Err::<RefineOutcome, AnalysisError>(AnalysisError::InvalidSpec)
        &&& r matches Ok(o) ==> refined(o.spec, spec, ps) && o.affected_rule_ids@ == ps.map_values(
            |p: (u128, Seq<char>)| p.0,
        )
    }
}

/// Checks the changes against the rules that were sent.
fn acceptable(patches: &Vec<PatchedRule>, target_ids: &Vec<u128>) -> (r: bool)
    ensures
        r == patches_acceptable(patch_views(patches@), target_ids@),
{
    let ghost ps = patch_views(patches@);
    let mut k: usize = 0;
    while k < patches.len()
        invariant
            k <= patches@.len(),
            ps == patch_views(patches@),
            patches_acceptable(ps.take(k as int), target_ids@),
        decreases patches@.len() - k,
    {
        let patch = &patches[k];
        assert(ps[k as int] == (patch.id, patch.statement@));
        if !crate::validation::id_in(target_ids, patch.id) {
            assert(!patches_acceptable(ps, target_ids@)) by {
                assert(!target_ids@.contains(ps[k as int].0));
            }
            return false;
        }
        if is_blank_str(patch.statement.as_str()) {
            assert(!patches_acceptable(ps, target_ids@)) by {
                assert(is_blank(patch.statement@));
                assert(is_blank(ps[k as int].1));
                if patches_acceptable(ps, target_ids@) {
                    assert(target_ids@.contains(ps[k as int].0));
                }
            }
            return false;
        }
        let mut j: usize = 0;
        while j < k
            invariant
                j <= k < patches@.len(),
                ps == patch_views(patches@),
                forall|i: int| 0 <= i < j ==> ps[i].0 != ps[k as int].0,
            decreases k - j,
        {
            if patches[j].id == patches[k].id {
                assert(!patches_acceptable(ps, target_ids@)) by {
                    assert(ps[j as int].0 == ps[k as int].0);
                }
                return false;
            }
            j = j + 1;
        }
        k = k + 1;
        assert(patches_acceptable(ps.take(k as int), target_ids@)) by {
            assert forall|m: int| 0 <= m < k implies {
                &&& target_ids@.contains(#[trigger] ps.take(k as int)[m].0)
                &&& !is_blank(ps.take(k as int)[m].1)
                &&& forall|j: int| 0 <= j < m ==> ps.take(k as int)[j].0 != ps.take(k as int)[m].0
            } by {
                if m < k - 1 {
                    assert(ps.take(k as int)[m] == ps.take(k - 1)[m]);
                    assert forall|j: int| 0 <= j < m implies ps.take(k as int)[j].0 != ps.take(
                        k as int,
                    )[m].0 by {
                        assert(ps.take(k as int)[j] == ps.take(k - 1)[j]);
                    }
                }
            }
        }
    }
    assert(ps.take(ps.len() as int) =~= ps);
    true
}

/// Applies the model's changes to the specification. No changes is a
/// refinement error; a change that names a rule that was not sent, has a
/// blank statement or names a rule twice makes the answer invalid; the
/// changed specification must validate.
pub fn apply_patches(spec: DesignSpec, target_ids: &Vec<u128>, patches: Vec<PatchedRule>) -> (r:
    Result<RefineOutcome, AnalysisError>)
    ensures
        patches_outcome(r, spec, target_ids@, patch_views(patches@)),
{
    let ghost ps = patch_views(patches@);
    if patches.len() == 0 {
        return Err(refine_error("the model returned no rule changes"));
    }
    if !acceptable(&patches, target_ids) {
        return Err(AnalysisError::InvalidSpec);
    }
    let ghost original = spec;
    let DesignSpec {
        metadata,
        intent,
        tokens,
        layout,
        components,
        assets,
        motion,
        constraints,
        evidence,
        uncertainties,
    } = spec;
    let q = DesignSpec {
        metadata,
        intent: patch_section(intent, &patches),
        tokens: patch_section(tokens, &patches),
        layout: patch_section(layout, &patches),
        components: patch_section(components, &patches),
        assets: patch_section(assets, &patches),
        motion: patch_section(motion, &patches),
        constraints: patch_section(constraints, &patches),
        evidence,
        uncertainties,
    };
    assert(refined(q, original, ps));
    let mut affected: Vec<u128> = Vec::new();
    let mut k: usize = 0;
    while k < patches.len()
        invariant
            k <= patches@.len(),
            ps == patch_views(patches@),
            affected@ == ps.take(k as int).map_values(|p: (u128, Seq<char>)| p.0),
        decreases patches@.len() - k,
    {
        affected.push(patches[k].id);
        k = k + 1;
        assert(affected@ =~= ps.take(k as int).map_values(|p: (u128, Seq<char>)| p.0));
    }
    assert(ps.take(ps.len() as int) =~= ps);
    match q.validate() {
        Ok(()) => {
            assert(refinement_valid(original, ps)) by {
                assert forall|q2: DesignSpec| refined(q2, original, ps) implies validation_issues(
                    q2,
                ).len() == 0 by {
                    lemma_refined_same_issues(q, q2, original, ps);
                }
            }
            Ok(RefineOutcome { spec: q, affected_rule_ids: affected })
        },
        Err(_) => Err(AnalysisError::InvalidSpec),
    }
}

/// The model's answer to a refinement once its JSON text (see
/// `extract_json`) was read as a list of changed rules: not JSON at all, JSON
/// of another shape, or the changed rules in order.
pub enum ParsedPatches {
    NotJson,
    WrongShape,
    Patches(Vec<PatchedRule>),
}

/// Applies the model's answer to a refinement: an answer that is not JSON is
/// `InvalidJson`, one of another shape `InvalidSpec`; changed rules are
/// applied as `apply_patches` says.
pub fn apply_refinement(spec: DesignSpec, target_ids: &Vec<u128>, parsed: ParsedPatches) -> (r:
    Result<RefineOutcome, AnalysisError>)
    ensures
        match parsed {
            ParsedPatches::NotJson => r == Err::<RefineOutcome, AnalysisError>(
                AnalysisError::InvalidJson,
            ),
            ParsedPatches::WrongShape => r == Err::<RefineOutcome, AnalysisError>(
                AnalysisError::InvalidSpec,
            ),
            ParsedPatches::Patches(ps) => patches_outcome(r, spec, target_ids@, patch_views(ps@)),
        },
{
    match parsed {
        ParsedPatches::NotJson => Err(AnalysisError::InvalidJson),
        ParsedPatches::WrongShape => Err(AnalysisError::InvalidSpec),
        ParsedPatches::Patches(patches) => apply_patches(spec, target_ids, patches),
    }
}

// ----- laws -----

proof fn lemma_push_has(s: Seq<Rule>, a: Rule, b: Rule)
    ensures
        s.push(a).contains(b) <==> (s.contains(b) || a == b),
{
    if s.contains(b) {
        let i = choose|i: int| 0 <= i < s.len() && s[i] == b;
        assert(s.push(a)[i] == b);
    }
    if a == b {
        assert(s.push(a)[s.len() as int] == b);
    }
    if s.push(a).contains(b) {
        let i = choose|i: int| 0 <= i < s.push(a).len() && s.push(a)[i] == b;
        if i < s.len() {
            assert(s[i] == b);
        }
    }
}

proof fn lemma_scoped_has(rs: Seq<Rule>, scope: RefineScope, r: Rule)
    ensures
        scoped(rs, scope).contains(r) <==> (rs.contains(r) && in_scope(r, scope)),
    decreases rs.len(),
{
    if rs.len() > 0 {
        let init = rs.drop_last();
        lemma_scoped_has(init, scope, r);
        assert(init.push(rs.last()) =~= rs);
        lemma_push_has(init, rs.last(), r);
        lemma_push_has(scoped(init, scope), rs.last(), r);
    }
}

/// The identifier member of a rule as it is shown to the model.
pub proof fn lemma_rule_json_id(r: Rule)
    ensures
        json_get(rule_json(r), "id"@) == Some(JsonView::Text(hyphenated(r.id))),
{
    reveal_strlit("category");
    reveal_strlit("id");
    let ms = rule_json(r)->Object_0;
    assert(ms[0].0.len() != "id"@.len());
    assert(member_from(ms, "id"@, 1) == Some(JsonView::Text(hyphenated(r.id))));
}

/// A refinement shows the model exactly the rules in its scope: in the JSON
/// array handed to the printer, every rule of the specification in scope
/// appears as an item whose `"id"` member is its hyphenated identifier, and
/// every item is such a rule in scope. Refining one rule shows no other
/// identifier than that rule's.
pub proof fn law_refinement_shows_exactly_the_scoped_rules(spec: DesignSpec, scope: RefineScope)
    ensures
        forall|r: Rule|
            all_rules(spec).contains(r) && in_scope(r, scope) ==> exists|i: int|
                0 <= i < rules_json(refine_targets(spec, scope))->Array_0.len() && #[trigger] json_get(
                    rules_json(refine_targets(spec, scope))->Array_0[i],
                    "id"@,
                ) == Some(JsonView::Text(hyphenated(r.id))),
        forall|i: int|
            0 <= i < rules_json(refine_targets(spec, scope))->Array_0.len() ==> exists|r: Rule|
                all_rules(spec).contains(r) && in_scope(r, scope) && #[trigger] rules_json(
                    refine_targets(spec, scope),
                )->Array_0[i] == rule_json(r),
        forall|i: int|
            0 <= i < rules_json(refine_targets(spec, scope))->Array_0.len() ==> (scope matches RefineScope::Rule(
                x,
            ) ==> #[trigger] json_get(rules_json(refine_targets(spec, scope))->Array_0[i], "id"@)
                == Some(JsonView::Text(hyphenated(x)))),
{
    let ts = refine_targets(spec, scope);
    let items = rules_json(ts)->Array_0;
    assert(items.len() == ts.len());
    assert forall|r: Rule| all_rules(spec).contains(r) && in_scope(r, scope) implies exists|i: int|
        0 <= i < items.len() && #[trigger] json_get(items[i], "id"@) == Some(
            JsonView::Text(hyphenated(r.id)),
        ) by {
        lemma_scoped_has(all_rules(spec), scope, r);
        let i = choose|i: int| 0 <= i < ts.len() && ts[i] == r;
        assert(items[i] == rule_json(r));
        lemma_rule_json_id(r);
    }
    assert forall|i: int| 0 <= i < items.len() implies exists|r: Rule|
        all_rules(spec).contains(r) && in_scope(r, scope) && #[trigger] items[i] == rule_json(r) by {
        let r = ts[i];
        assert(ts.contains(r));
        lemma_scoped_has(all_rules(spec), scope, r);
        assert(items[i] == rule_json(r));
    }
    assert forall|i: int| 0 <= i < items.len() implies (scope matches RefineScope::Rule(x) ==> #[trigger] json_get(
        items[i],
        "id"@,
    ) == Some(JsonView::Text(hyphenated(x)))) by {
        let r = ts[i];
        assert(ts.contains(r));
        lemma_scoped_has(all_rules(spec), scope, r);
        assert(items[i] == rule_json(r));
        lemma_rule_json_id(r);
    }
}


proof fn lemma_patched_concat(
    a1: Seq<Rule>,
    a2: Seq<Rule>,
    b1: Seq<Rule>,
    b2: Seq<Rule>,
    ps: Seq<(u128, Seq<char>)>,
)
    requires
        patched_section(a1, a2, ps),
        patched_section(b1, b2, ps),
    ensures
        patched_section(a1 + b1, a2 + b2, ps),
{
    assert forall|i: int| 0 <= i < (a2 + b2).len() implies patched_rule(
        #[trigger] (a1 + b1)[i],
        (a2 + b2)[i],
        ps,
    ) by {
        if i < a2.len() {
            assert((a1 + b1)[i] == a1[i]);
            assert((a2 + b2)[i] == a2[i]);
        } else {
            assert((a1 + b1)[i] == b1[i - a1.len()]);
            assert((a2 + b2)[i] == b2[i - a2.len()]);
        }
    }
}

/// A refinement changes only the rules its changes name: every other rule
/// is kept as it was, and each named rule keeps its identifier, category,
/// kind, scope, value, evidence and confidence, takes the trimmed new
/// statement, and becomes an edited, model-sourced rule awaiting review.
pub proof fn law_refinement_changes_only_named_rules(
    q: DesignSpec,
    p: DesignSpec,
    ps: Seq<(u128, Seq<char>)>,
)
    requires
        refined(q, p, ps),
    ensures
        patched_section(all_rules(q), all_rules(p), ps),
{
    lemma_patched_concat(q.intent@, p.intent@, q.tokens@, p.tokens@, ps);
    lemma_patched_concat(
        q.intent@ + q.tokens@,
        p.intent@ + p.tokens@,
        q.layout@,
        p.layout@,
        ps,
    );
    lemma_patched_concat(
        q.intent@ + q.tokens@ + q.layout@,
        p.intent@ + p.tokens@ + p.layout@,
        q.components@,
        p.components@,
        ps,
    );
    lemma_patched_concat(
        q.intent@ + q.tokens@ + q.layout@ + q.components@,
        p.intent@ + p.tokens@ + p.layout@ + p.components@,
        q.assets@,
        p.assets@,
        ps,
    );
    lemma_patched_concat(
        q.intent@ + q.tokens@ + q.layout@ + q.components@ + q.assets@,
        p.intent@ + p.tokens@ + p.layout@ + p.components@ + p.assets@,
        q.motion@,
        p.motion@,
        ps,
    );
    lemma_patched_concat(
        q.intent@ + q.tokens@ + q.layout@ + q.components@ + q.assets@ + q.motion@,
        p.intent@ + p.tokens@ + p.layout@ + p.components@ + p.assets@ + p.motion@,
        q.constraints@,
        p.constraints@,
        ps,
    );
}

proof fn lemma_patch_from_first(ps: Seq<(u128, Seq<char>)>, k: int, i: int)
    requires
        0 <= i <= k < ps.len(),
        forall|j: int| 0 <= j < k ==> ps[j].0 != ps[k].0,
    ensures
        patch_from(ps, ps[k].0, i) == Some(ps[k].1),
    decreases k - i,
{
    if i < k {
        lemma_patch_from_first(ps, k, i + 1);
    }
}

/// An applied refinement hands back every rule that a change names as a
/// model edit: its statement is the change's trimmed statement, its status
/// `Edited` and its source `Model`, whatever they were before, with its
/// identifier, category, kind, scope, value, evidence and confidence kept;
/// every rule no change names comes back as it was.
pub proof fn law_refined_rules_are_model_edits(
    r: Result<RefineOutcome, AnalysisError>,
    spec: DesignSpec,
    target_ids: Seq<u128>,
    ps: Seq<PatchedRule>,
    i: int,
)
    requires
        patches_outcome(r, spec, target_ids, patch_views(ps)),
        r is Ok,
        0 <= i < all_rules(spec).len(),
    ensures
        all_rules(r->Ok_0.spec).len() == all_rules(spec).len(),
        forall|k: int|
            0 <= k < ps.len() && #[trigger] ps[k].id == all_rules(spec)[i].id ==> {
                let out = all_rules(r->Ok_0.spec)[i];
                let before = all_rules(spec)[i];
                &&& out.statement@ == trim(ps[k].statement@)
                &&& out.status == RuleStatus::Edited
                &&& out.source == RuleSource::Model
                &&& out.id == before.id
                &&& out.category == before.category
                &&& out.kind == before.kind
                &&& out.scope == before.scope
                &&& out.value == before.value
                &&& out.evidence_ids == before.evidence_ids
                &&& out.confidence == before.confidence
            },
        (forall|k: int| 0 <= k < ps.len() ==> #[trigger] ps[k].id != all_rules(spec)[i].id)
            ==> all_rules(r->Ok_0.spec)[i] == all_rules(spec)[i],
{
    let pv = patch_views(ps);
    let q = r->Ok_0.spec;
    law_refinement_changes_only_named_rules(q, spec, pv);
    assert(patched_rule(all_rules(q)[i], all_rules(spec)[i], pv));
    let id = all_rules(spec)[i].id;
    assert forall|k: int| 0 <= k < ps.len() && #[trigger] ps[k].id == id implies patch_from(pv, id, 0)
        == Some(ps[k].statement@) by {
        assert(pv[k] == (ps[k].id, ps[k].statement@));
        assert(target_ids.contains(pv[k].0));
        assert forall|j: int| 0 <= j < k implies pv[j].0 != pv[k].0 by {
            assert(pv[j].0 != pv[k].0);
        }
        lemma_patch_from_first(pv, k, 0);
    }
    if forall|k: int| 0 <= k < ps.len() ==> #[trigger] ps[k].id != id {
        lemma_patch_from_none(pv, id, 0);
    }
}

proof fn lemma_patch_from_none(ps: Seq<(u128, Seq<char>)>, id: u128, i: int)
    requires
        0 <= i,
        forall|k: int| 0 <= k < ps.len() ==> #[trigger] ps[k].0 != id,
    ensures
        patch_from(ps, id, i) is None,
    decreases ps.len() - i,
{
    if i < ps.len() {
        lemma_patch_from_none(ps, id, i + 1);
    }
}

} // verus!
