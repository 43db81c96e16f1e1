//! Validation of design specifications.
//!
//! `DesignSpec::validate` reports every problem it finds, in a fixed order:
//! the schema version first, then each rule (section by section), each piece
//! of evidence and each uncertainty, in order. An identifier is reported as a
//! duplicate at every occurrence after its first one, counting rules,
//! evidence and uncertainties together.

use vstd::prelude::*;
use crate::binary32::{in_unit_interval, is_in_unit_interval, sum_at_most_one, sum_within_one};
use crate::model::{all_rules, DesignSpec, Evidence, EvidenceRegion, Rule, Uncertainty};
use crate::text::{chars_of, decimal, is_blank, is_blank_str, push_decimal, push_str};

verus! {

#[derive(Debug, Clone, PartialEq)]
pub enum ValidationIssue {
    UnsupportedSchemaVersion { schema_version: String },
    BlankRuleStatement { rule_id: u128 },
    BlankUncertaintyStatement { uncertainty_id: u128 },
    InvalidConfidence { rule_id: u128, confidence: u32 },
    DuplicateId { id: u128 },
    MissingEvidence { owner_id: u128, evidence_id: u128 },
    InvalidRegion { evidence_id: u128 },
    ExcludedTermInRule { rule_id: u128, term: String },
}

/// A specification failed validation; `issues` lists every problem found.
#[derive(Debug, Clone, PartialEq)]
pub struct ValidationError {
    pub issues: Vec<ValidationIssue>,
}

/// The text of a validation failure with `n` issues.
pub open spec fn validation_failure_text(n: nat) -> Seq<char> {
    "design specification validation failed with "@ + decimal(n) + " issue(s)"@
}

impl ValidationError {
    /// The text of a validation failure:
    /// `design specification validation failed with <n> issue(s)`.
    pub fn message(&self) -> (s: String)
        ensures
            s@ == validation_failure_text(self.issues@.len()),
    {
        let mut s = "design specification validation failed with ".to_owned();
        push_decimal(&mut s, self.issues.len() as u64);
        push_str(&mut s, " issue(s)");
        s
    }
}

/// The text before the first `.` (all of it when there is none).
pub open spec fn before_dot(s: Seq<char>) -> Seq<char>
    decreases s.len(),
{
    if s.len() == 0 || s[0] == '.' {
        Seq::empty()
    } else {
        seq![s[0]] + before_dot(s.drop_first())
    }
}

/// `d.parse::<u64>() == Ok(1)`: an optional `+`, then decimal digits that are
/// all `0` but the last, which is `1`.
pub open spec fn parses_as_one(d: Seq<char>) -> bool {
    if d.len() > 0 && d[0] == '+' {
        zeros_then_one(d.drop_first())
    } else {
        zeros_then_one(d)
    }
}

/// Decimal digits that are all `0` but the last, which is `1`.
pub open spec fn zeros_then_one(t: Seq<char>) -> bool {
    &&& t.len() >= 1
    &&& t.last() == '1'
    &&& forall|i: int| 0 <= i < t.len() - 1 ==> t[i] == '0'
}

/// The schema version's major component is 1.
pub open spec fn supported_schema(version: Seq<char>) -> bool {
    parses_as_one(before_dot(version))
}

/// An evidence region is valid when its four numbers lie in `[0, 1]` and it
/// does not extend past the right or bottom edge.
pub open spec fn region_valid(r: EvidenceRegion) -> bool {
    &&& in_unit_interval(r.x)
    &&& in_unit_interval(r.y)
    &&& in_unit_interval(r.width)
    &&& in_unit_interval(r.height)
    &&& sum_at_most_one(r.x, r.width)
    &&& sum_at_most_one(r.y, r.height)
}

pub open spec fn rule_ids(rs: Seq<Rule>) -> Seq<u128> {
    rs.map_values(|r: Rule| r.id)
}

pub open spec fn evidence_ids(es: Seq<Evidence>) -> Seq<u128> {
    es.map_values(|e: Evidence| e.id)
}

pub open spec fn uncertainty_ids(us: Seq<Uncertainty>) -> Seq<u128> {
    us.map_values(|u: Uncertainty| u.id)
}

/// One issue per reference to evidence that does not exist, in order.
pub open spec fn missing_evidence_issues(owner: u128, refs: Seq<u128>, known: Seq<u128>) -> Seq<
    ValidationIssue,
>
    decreases refs.len(),
{
    if refs.len() == 0 {
        Seq::empty()
    } else {
        missing_evidence_issues(owner, refs.drop_last(), known) + if known.contains(refs.last()) {
            Seq::empty()
        } else {
            seq![ValidationIssue::MissingEvidence { owner_id: owner, evidence_id: refs.last() }]
        }
    }
}

pub open spec fn duplicate_issue(id: u128, seen: Seq<u128>) -> Seq<ValidationIssue> {
    if seen.contains(id) {
        seq![ValidationIssue::DuplicateId { id }]
    } else {
        Seq::empty()
    }
}

/// The issues of one rule, given the identifiers seen before it.
pub open spec fn rule_issues(r: Rule, seen: Seq<u128>, known: Seq<u128>) -> Seq<ValidationIssue> {
    duplicate_issue(r.id, seen) + (if is_blank(r.statement@) {
        seq![ValidationIssue::BlankRuleStatement { rule_id: r.id }]
    } else {
        Seq::empty()
    }) + (if !in_unit_interval(r.confidence) {
        seq![ValidationIssue::InvalidConfidence { rule_id: r.id, confidence: r.confidence }]
    } else {
        Seq::empty()
    }) + missing_evidence_issues(r.id, r.evidence_ids@, known)
}

pub open spec fn rules_issues(rs: Seq<Rule>, seen: Seq<u128>, known: Seq<u128>) -> Seq<
    ValidationIssue,
>
    decreases rs.len(),
{
    if rs.len() == 0 {
        Seq::empty()
    } else {
        rules_issues(rs.drop_last(), seen, known) + rule_issues(
            rs.last(),
            seen + rule_ids(rs.drop_last()),
            known,
        )
    }
}

pub open spec fn evidence_issues(e: Evidence, seen: Seq<u128>) -> Seq<ValidationIssue> {
    duplicate_issue(e.id, seen) + match e.region {
        Some(r) => if region_valid(r) {
            Seq::empty()
        } else {
            seq![ValidationIssue::InvalidRegion { evidence_id: e.id }]
        },
        None => Seq::empty(),
    }
}

pub open spec fn evidences_issues(es: Seq<Evidence>, seen: Seq<u128>) -> Seq<ValidationIssue>
    decreases es.len(),
{
    if es.len() == 0 {
        Seq::empty()
    } else {
        evidences_issues(es.drop_last(), seen) + evidence_issues(
            es.last(),
            seen + evidence_ids(es.drop_last()),
        )
    }
}

pub open spec fn uncertainty_issues(u: Uncertainty, seen: Seq<u128>, known: Seq<u128>) -> Seq<
    ValidationIssue,
> {
    duplicate_issue(u.id, seen) + (if is_blank(u.statement@) {
        seq![ValidationIssue::BlankUncertaintyStatement { uncertainty_id: u.id }]
    } else {
        Seq::empty()
    }) + missing_evidence_issues(u.id, u.evidence_ids@, known)
}

pub open spec fn uncertainties_issues(us: Seq<Uncertainty>, seen: Seq<u128>, known: Seq<u128>) -> Seq<
    ValidationIssue,
>
    decreases us.len(),
{
    if us.len() == 0 {
        Seq::empty()
    } else {
        uncertainties_issues(us.drop_last(), seen, known) + uncertainty_issues(
            us.last(),
            seen + uncertainty_ids(us.drop_last()),
            known,
        )
    }
}

pub open spec fn schema_issues(spec: DesignSpec) -> Seq<ValidationIssue> {
    if supported_schema(spec.metadata.schema_version@) {
        Seq::empty()
    } else {
        seq![
            ValidationIssue::UnsupportedSchemaVersion {
                schema_version: spec.metadata.schema_version,
            },
        ]
    }
}

/// Every issue of a specification, in reporting order.
pub open spec fn validation_issues(spec: DesignSpec) -> Seq<ValidationIssue> {
    let rules = all_rules(spec);
    let known = evidence_ids(spec.evidence@);
    schema_issues(spec) + rules_issues(rules, Seq::empty(), known) + evidences_issues(
        spec.evidence@,
        rule_ids(rules),
    ) + uncertainties_issues(spec.uncertainties@, rule_ids(rules) + known, known)
}

// ----- what a valid specification is -----

/// No identifier of `ids` occurs in `seen` or twice in `ids`.
pub open spec fn ids_fresh(seen: Seq<u128>, ids: Seq<u128>) -> bool {
    &&& forall|i: int, k: int| 0 <= i < ids.len() && 0 <= k < seen.len() ==> #[trigger] seen[k]
        != #[trigger] ids[i]
    &&& forall|i: int, j: int| 0 <= i < j < ids.len() ==> #[trigger] ids[i] != #[trigger] ids[j]
}

/// Every cited evidence identifier is a known one.
pub open spec fn refs_known(refs: Seq<u128>, known: Seq<u128>) -> bool {
    forall|i: int| 0 <= i < refs.len() ==> known.contains(#[trigger] refs[i])
}

/// A rule is acceptable: its statement is not blank, its confidence lies in
/// `[0, 1]`, and it cites only known evidence.
pub open spec fn rule_acceptable(r: Rule, known: Seq<u128>) -> bool {
    &&& !is_blank(r.statement@)
    &&& in_unit_interval(r.confidence)
    &&& refs_known(r.evidence_ids@, known)
}

/// A piece of evidence is acceptable when its region, if it has one, is valid.
pub open spec fn evidence_acceptable(e: Evidence) -> bool {
    match e.region {
        Some(r) => region_valid(r),
        None => true,
    }
}

/// An uncertainty is acceptable: its statement is not blank and it cites only
/// known evidence.
pub open spec fn uncertainty_acceptable(u: Uncertainty, known: Seq<u128>) -> bool {
    &&& !is_blank(u.statement@)
    &&& refs_known(u.evidence_ids@, known)
}

/// A valid specification: its schema's major version is 1; every rule,
/// piece of evidence and uncertainty is acceptable; and the identifiers of
/// all rules, evidence and uncertainties are pairwise distinct.
pub open spec fn spec_valid(spec: DesignSpec) -> bool {
    let rules = all_rules(spec);
    let known = evidence_ids(spec.evidence@);
    &&& supported_schema(spec.metadata.schema_version@)
    &&& forall|i: int| 0 <= i < rules.len() ==> rule_acceptable(#[trigger] rules[i], known)
    &&& forall|i: int|
        0 <= i < spec.evidence@.len() ==> evidence_acceptable(#[trigger] spec.evidence@[i])
    &&& forall|i: int|
        0 <= i < spec.uncertainties@.len() ==> uncertainty_acceptable(
            #[trigger] spec.uncertainties@[i],
            known,
        )
    &&& ids_fresh(Seq::empty(), rule_ids(rules) + known + uncertainty_ids(spec.uncertainties@))
}

proof fn lemma_missing_none(owner: u128, refs: Seq<u128>, known: Seq<u128>)
    ensures
        (missing_evidence_issues(owner, refs, known).len() == 0) == refs_known(refs, known),
    decreases refs.len(),
{
    if refs.len() > 0 {
        let init = refs.drop_last();
        lemma_missing_none(owner, init, known);
        if refs_known(refs, known) {
            assert forall|i: int| 0 <= i < init.len() implies known.contains(#[trigger] init[i]) by {
                assert(init[i] == refs[i]);
            }
            assert(known.contains(refs[refs.len() - 1]));
        }
        if refs_known(init, known) && known.contains(refs.last()) {
            assert forall|i: int| 0 <= i < refs.len() implies known.contains(#[trigger] refs[i]) by {
                if i < init.len() {
                    assert(init[i] == refs[i]);
                }
            }
        }
    }
}

proof fn lemma_fresh_push(seen: Seq<u128>, ids: Seq<u128>, x: u128)
    ensures
        ids_fresh(seen, ids.push(x)) == (ids_fresh(seen, ids) && !(seen + ids).contains(x)),
{
    let p = ids.push(x);
    let all = seen + ids;
    if ids_fresh(seen, p) {
        assert forall|i: int, k: int| 0 <= i < ids.len() && 0 <= k < seen.len() implies #[trigger] seen[k]
            != #[trigger] ids[i] by {
            assert(p[i] == ids[i]);
        }
        assert forall|i: int, j: int| 0 <= i < j < ids.len() implies #[trigger] ids[i]
            != #[trigger] ids[j] by {
            assert(p[i] == ids[i] && p[j] == ids[j]);
        }
        if all.contains(x) {
            let m = choose|m: int| 0 <= m < all.len() && all[m] == x;
            if m < seen.len() {
                assert(seen[m] != p[ids.len() as int]);
            } else {
                assert(all[m] == ids[m - seen.len()]);
                assert(p[m - seen.len()] != p[ids.len() as int]);
            }
        }
    }
    if ids_fresh(seen, ids) && !all.contains(x) {
        assert forall|i: int, k: int| 0 <= i < p.len() && 0 <= k < seen.len() implies #[trigger] seen[k]
            != #[trigger] p[i] by {
            if i < ids.len() {
                assert(p[i] == ids[i]);
            } else {
                assert(all[k] == seen[k]);
            }
        }
        assert forall|i: int, j: int| 0 <= i < j < p.len() implies #[trigger] p[i]
            != #[trigger] p[j] by {
            assert(p[i] == ids[i]);
            if j < ids.len() {
                assert(p[j] == ids[j]);
            } else {
                assert(all[seen.len() + i] == ids[i]);
            }
        }
    }
}

proof fn lemma_fresh_concat(seen: Seq<u128>, a: Seq<u128>, b: Seq<u128>)
    ensures
        ids_fresh(seen, a + b) == (ids_fresh(seen, a) && ids_fresh(seen + a, b)),
    decreases b.len(),
{
    if b.len() == 0 {
        assert(a + b =~= a);
    } else {
        let init = b.drop_last();
        lemma_fresh_concat(seen, a, init);
        assert(a + b =~= (a + init).push(b.last()));
        assert(b =~= init.push(b.last()));
        assert(seen + (a + init) =~= (seen + a) + init);
        lemma_fresh_push(seen, a + init, b.last());
        lemma_fresh_push(seen + a, init, b.last());
    }
}

proof fn lemma_rules_none(rs: Seq<Rule>, seen: Seq<u128>, known: Seq<u128>)
    ensures
        (rules_issues(rs, seen, known).len() == 0) == ((forall|i: int|
            0 <= i < rs.len() ==> rule_acceptable(#[trigger] rs[i], known)) && ids_fresh(
            seen,
            rule_ids(rs),
        )),
    decreases rs.len(),
{
    if rs.len() == 0 {
        assert(rule_ids(rs) =~= Seq::<u128>::empty());
    } else {
        let init = rs.drop_last();
        let r = rs.last();
        let ids = rule_ids(init);
        lemma_rules_none(init, seen, known);
        lemma_rule_none(r, seen + ids, known);
        assert(rule_ids(rs) =~= ids.push(r.id));
        lemma_fresh_push(seen, ids, r.id);
        lemma_all_split(rs, known);
    }
}

proof fn lemma_rule_none(r: Rule, seen: Seq<u128>, known: Seq<u128>)
    ensures
        (rule_issues(r, seen, known).len() == 0) == (rule_acceptable(r, known) && !seen.contains(
            r.id,
        )),
{
    lemma_missing_none(r.id, r.evidence_ids@, known);
}

proof fn lemma_all_split(rs: Seq<Rule>, known: Seq<u128>)
    requires
        rs.len() > 0,
    ensures
        (forall|i: int| 0 <= i < rs.len() ==> rule_acceptable(#[trigger] rs[i], known)) == ((forall|
            i: int,
        | 0 <= i < rs.drop_last().len() ==> rule_acceptable(#[trigger] rs.drop_last()[i], known))
            && rule_acceptable(rs.last(), known)),
{
    let init = rs.drop_last();
    if forall|i: int| 0 <= i < init.len() ==> rule_acceptable(#[trigger] init[i], known) {
        if rule_acceptable(rs.last(), known) {
            assert forall|i: int| 0 <= i < rs.len() implies rule_acceptable(#[trigger] rs[i], known) by {
                if i < init.len() {
                    assert(init[i] == rs[i]);
                }
            }
        }
    }
    if forall|i: int| 0 <= i < rs.len() ==> rule_acceptable(#[trigger] rs[i], known) {
        assert forall|i: int| 0 <= i < init.len() implies rule_acceptable(#[trigger] init[i], known) by {
            assert(init[i] == rs[i]);
        }
        assert(rule_acceptable(rs[rs.len() - 1], known));
    }
}

proof fn lemma_evidences_none(es: Seq<Evidence>, seen: Seq<u128>)
    ensures
        (evidences_issues(es, seen).len() == 0) == ((forall|i: int|
            0 <= i < es.len() ==> evidence_acceptable(#[trigger] es[i])) && ids_fresh(
            seen,
            evidence_ids(es),
        )),
    decreases es.len(),
{
    if es.len() == 0 {
        assert(evidence_ids(es) =~= Seq::<u128>::empty());
    } else {
        let init = es.drop_last();
        let e = es.last();
        lemma_evidences_none(init, seen);
        assert(evidence_ids(es) =~= evidence_ids(init).push(e.id));
        lemma_fresh_push(seen, evidence_ids(init), e.id);
        if forall|i: int| 0 <= i < init.len() ==> evidence_acceptable(#[trigger] init[i]) {
            if evidence_acceptable(e) {
                assert forall|i: int| 0 <= i < es.len() implies evidence_acceptable(#[trigger] es[i]) by {
                    if i < init.len() {
                        assert(init[i] == es[i]);
                    }
                }
            }
        }
        if forall|i: int| 0 <= i < es.len() ==> evidence_acceptable(#[trigger] es[i]) {
            assert forall|i: int| 0 <= i < init.len() implies evidence_acceptable(#[trigger] init[i]) by {
                assert(init[i] == es[i]);
            }
            assert(evidence_acceptable(es[es.len() - 1]));
        }
    }
}

proof fn lemma_uncertainties_none(us: Seq<Uncertainty>, seen: Seq<u128>, known: Seq<u128>)
    ensures
        (uncertainties_issues(us, seen, known).len() == 0) == ((forall|i: int|
            0 <= i < us.len() ==> uncertainty_acceptable(#[trigger] us[i], known)) && ids_fresh(
            seen,
            uncertainty_ids(us),
        )),
    decreases us.len(),
{
    if us.len() == 0 {
        assert(uncertainty_ids(us) =~= Seq::<u128>::empty());
    } else {
        let init = us.drop_last();
        let u = us.last();
        lemma_uncertainties_none(init, seen, known);
        lemma_missing_none(u.id, u.evidence_ids@, known);
        assert(uncertainty_ids(us) =~= uncertainty_ids(init).push(u.id));
        lemma_fresh_push(seen, uncertainty_ids(init), u.id);
        if forall|i: int| 0 <= i < init.len() ==> uncertainty_acceptable(#[trigger] init[i], known) {
            if uncertainty_acceptable(u, known) {
                assert forall|i: int| 0 <= i < us.len() implies uncertainty_acceptable(
                    #[trigger] us[i],
                    known,
                ) by {
                    if i < init.len() {
                        assert(init[i] == us[i]);
                    }
                }
            }
        }
        if forall|i: int| 0 <= i < us.len() ==> uncertainty_acceptable(#[trigger] us[i], known) {
            assert forall|i: int| 0 <= i < init.len() implies uncertainty_acceptable(
                #[trigger] init[i],
                known,
            ) by {
                assert(init[i] == us[i]);
            }
            assert(uncertainty_acceptable(us[us.len() - 1], known));
        }
    }
}

/// A specification validates exactly when it is valid in the sense of
/// `spec_valid`: schema major version 1, no blank rule or uncertainty
/// statement, every confidence in `[0, 1]`, every cited evidence known,
/// every evidence region valid, and no identifier used twice among rules,
/// evidence and uncertainties.
pub proof fn law_valid_exactly_when(spec: DesignSpec)
    ensures
        (validation_issues(spec).len() == 0) == spec_valid(spec),
{
    let rules = all_rules(spec);
    let known = evidence_ids(spec.evidence@);
    let uids = uncertainty_ids(spec.uncertainties@);
    let e = Seq::<u128>::empty();
    lemma_rules_none(rules, e, known);
    lemma_evidences_none(spec.evidence@, rule_ids(rules));
    lemma_uncertainties_none(spec.uncertainties@, rule_ids(rules) + known, known);
    lemma_fresh_concat(e, rule_ids(rules), known);
    lemma_fresh_concat(e, rule_ids(rules) + known, uids);
    assert(e + rule_ids(rules) =~= rule_ids(rules));
    assert(e + (rule_ids(rules) + known) =~= rule_ids(rules) + known);
}

/// In a specification that validates, every evidence region has its four
/// numbers in `[0, 1]`, and its single-precision sums `x + width` and
/// `y + height` are both at most 1: a region may run past neither the right
/// nor the bottom edge.
pub proof fn law_valid_regions_stay_inside(spec: DesignSpec, i: int)
    requires
        validation_issues(spec).len() == 0,
        0 <= i < spec.evidence@.len(),
        spec.evidence@[i].region is Some,
    ensures
        ({
            let rg = spec.evidence@[i].region->0;
            &&& in_unit_interval(rg.x)
            &&& in_unit_interval(rg.y)
            &&& in_unit_interval(rg.width)
            &&& in_unit_interval(rg.height)
            &&& sum_at_most_one(rg.x, rg.width)
            &&& sum_at_most_one(rg.y, rg.height)
        }),
{
    law_valid_exactly_when(spec);
    assert(evidence_acceptable(spec.evidence@[i]));
}

proof fn lemma_invalid_region_reported(es: Seq<Evidence>, seen: Seq<u128>, i: int)
    requires
        0 <= i < es.len(),
        es[i].region is Some,
        !region_valid(es[i].region->0),
    ensures
        evidences_issues(es, seen).contains(ValidationIssue::InvalidRegion { evidence_id: es[i].id }),
    decreases es.len(),
{
    let init = es.drop_last();
    let a = evidences_issues(init, seen);
    let b = evidence_issues(es.last(), seen + evidence_ids(init));
    assert(evidences_issues(es, seen) == a + b);
    if i == es.len() - 1 {
        let d = duplicate_issue(es.last().id, seen + evidence_ids(init));
        assert(b == d + seq![ValidationIssue::InvalidRegion { evidence_id: es[i].id }]);
        assert((a + b)[(a.len() + d.len()) as int] == ValidationIssue::InvalidRegion {
            evidence_id: es[i].id,
        });
    } else {
        assert(init[i] == es[i]);
        lemma_invalid_region_reported(init, seen, i);
        let k = choose|k: int|
            0 <= k < a.len() && a[k] == ValidationIssue::InvalidRegion { evidence_id: es[i].id };
        assert((a + b)[k] == a[k]);
    }
}

/// A region that runs past an edge of the screenshot (`x + width` or
/// `y + height` above 1 in single precision), or whose numbers leave
/// `[0, 1]`, is reported as an invalid region of its evidence.
pub proof fn law_region_past_an_edge_is_reported(spec: DesignSpec, i: int)
    requires
        0 <= i < spec.evidence@.len(),
        spec.evidence@[i].region is Some,
        ({
            let rg = spec.evidence@[i].region->0;
            ||| !in_unit_interval(rg.x)
            ||| !in_unit_interval(rg.y)
            ||| !in_unit_interval(rg.width)
            ||| !in_unit_interval(rg.height)
            ||| !sum_at_most_one(rg.x, rg.width)
            ||| !sum_at_most_one(rg.y, rg.height)
        }),
    ensures
        validation_issues(spec).contains(
            ValidationIssue::InvalidRegion { evidence_id: spec.evidence@[i].id },
        ),
        validation_issues(spec).len() > 0,
{
    let rules = all_rules(spec);
    let known = evidence_ids(spec.evidence@);
    let issue = ValidationIssue::InvalidRegion { evidence_id: spec.evidence@[i].id };
    lemma_invalid_region_reported(spec.evidence@, rule_ids(rules), i);
    let s = schema_issues(spec);
    let r = rules_issues(rules, Seq::empty(), known);
    let e = evidences_issues(spec.evidence@, rule_ids(rules));
    let u = uncertainties_issues(spec.uncertainties@, rule_ids(rules) + known, known);
    assert(validation_issues(spec) == s + r + e + u);
    let k = choose|k: int| 0 <= k < e.len() && e[k] == issue;
    assert((s + r + e + u)[s.len() + r.len() + k] == issue);
}

/// Whether `v[start..end]` is a run of `0` digits closed by a single `1`.
fn digits_equal_one(v: &Vec<char>, start: usize, end: usize) -> (r: bool)
    requires
        start <= end <= v@.len(),
    ensures
        r == (start < end && v@[end - 1] == '1' && forall|j: int|
            start <= j < end - 1 ==> v@[j] == '0'),
{
    if start >= end || v[end - 1] != '1' {
        return false;
    }
    let mut k: usize = start;
    while k < end - 1
        invariant
            start <= k <= end - 1,
            end <= v@.len(),
            forall|j: int| start <= j < k ==> v@[j] == '0',
        decreases end - 1 - k,
    {
        if v[k] != '0' {
            return false;
        }
        k = k + 1;
    }
    true
}

/// Tests the schema version's major component.
pub fn has_supported_schema_major(version: &str) -> (r: bool)
    ensures
        r == supported_schema(version@),
{
    let v = chars_of(version);
    let mut i: usize = 0;
    while i < v.len() && v[i] != '.'
        invariant
            i <= v@.len(),
            forall|j: int| 0 <= j < i ==> v@[j] != '.',
        decreases v@.len() - i,
    {
        i = i + 1;
    }
    proof {
        lemma_before_dot(v@, i as int);
    }
    let start: usize = if i > 0 && v[0] == '+' {
        1
    } else {
        0
    };
    let r = digits_equal_one(&v, start, i);
    proof {
        let d = v@.take(i as int);
        assert(d.len() > 0 ==> d[0] == v@[0]);
        let t = if d.len() > 0 && d[0] == '+' {
            d.drop_first()
        } else {
            d
        };
        assert(t =~= v@.subrange(start as int, i as int));
        assert(t.len() == i - start);
        assert(t.len() > 0 ==> t.last() == v@[i - 1]);
        assert(supported_schema(version@) == parses_as_one(d));
        assert(parses_as_one(d) == zeros_then_one(t));
        if r {
            assert(t.len() >= 1);
            assert(t.last() == '1');
            assert forall|j: int| 0 <= j < t.len() - 1 implies t[j] == '0' by {
                assert(t[j] == v@[start + j]);
            }
            assert(zeros_then_one(t));
        } else {
            if start >= i {
                assert(t.len() == 0);
                assert(!zeros_then_one(t));
            } else if v@[i - 1] != '1' {
                assert(t.last() != '1');
                assert(!zeros_then_one(t));
            } else {
                let j0 = choose|j: int| start <= j < i - 1 && v@[j] != '0';
                assert(t[j0 - start] == v@[j0]);
                assert(!(forall|j: int| 0 <= j < t.len() - 1 ==> t[j] == '0'));
                assert(!zeros_then_one(t));
            }
            assert(!zeros_then_one(t));
        }
        assert(parses_as_one(d) == r);
    }
    r
}

proof fn lemma_before_dot(s: Seq<char>, i: int)
    requires
        0 <= i <= s.len(),
        forall|j: int| 0 <= j < i ==> s[j] != '.',
        i == s.len() || s[i] == '.',
    ensures
        before_dot(s) == s.take(i),
    decreases i,
{
    if i == 0 {
        assert(s.take(0) =~= Seq::<char>::empty());
    } else {
        lemma_before_dot(s.drop_first(), i - 1);
        assert(seq![s[0]] + s.drop_first().take(i - 1) =~= s.take(i));
    }
}

/// Tests whether an evidence region is valid.
pub fn valid_region(r: EvidenceRegion) -> (b: bool)
    ensures
        b == region_valid(r),
{
    is_in_unit_interval(r.x) && is_in_unit_interval(r.y) && is_in_unit_interval(r.width)
        && is_in_unit_interval(r.height) && sum_within_one(r.x, r.width) && sum_within_one(
        r.y,
        r.height,
    )
}

/// Whether `id` is in `ids`.
pub fn id_in(ids: &Vec<u128>, id: u128) -> (r: bool)
    ensures
        r == ids@.contains(id),
{
    let mut i: usize = 0;
    while i < ids.len()
        invariant
            i <= ids@.len(),
            forall|j: int| 0 <= j < i ==> ids@[j] != id,
        decreases ids@.len() - i,
    {
        if ids[i] == id {
            assert(ids@[i as int] == id);
            return true;
        }
        i = i + 1;
    }
    false
}

fn record_id(id: u128, seen: &mut Vec<u128>, issues: &mut Vec<ValidationIssue>)
    ensures
        final(seen)@ == old(seen)@.push(id),
        final(issues)@ == old(issues)@ + duplicate_issue(id, old(seen)@),
{
    if id_in(seen, id) {
        issues.push(ValidationIssue::DuplicateId { id });
    }
    seen.push(id);
    assert(issues@ =~= old(issues)@ + duplicate_issue(id, old(seen)@));
}

fn record_missing_evidence(
    owner: u128,
    refs: &Vec<u128>,
    known: &Vec<u128>,
    issues: &mut Vec<ValidationIssue>,
)
    ensures
        final(issues)@ == old(issues)@ + missing_evidence_issues(owner, refs@, known@),
{
    let mut i: usize = 0;
    while i < refs.len()
        invariant
            i <= refs@.len(),
            issues@ == old(issues)@ + missing_evidence_issues(owner, refs@.take(i as int), known@),
        decreases refs@.len() - i,
    {
        let ghost before = issues@;
        let e = refs[i];
        if !id_in(known, e) {
            issues.push(ValidationIssue::MissingEvidence { owner_id: owner, evidence_id: e });
        }
        let ghost t = refs@.take(i + 1);
        assert(t.drop_last() =~= refs@.take(i as int));
        i = i + 1;
        assert(issues@ =~= old(issues)@ + missing_evidence_issues(owner, refs@.take(i as int), known@));
    }
    assert(refs@.take(refs@.len() as int) =~= refs@);
}

fn check_rules(
    rules: &Vec<Rule>,
    known: &Vec<u128>,
    seen: &mut Vec<u128>,
    issues: &mut Vec<ValidationIssue>,
)
    ensures
        final(seen)@ == old(seen)@ + rule_ids(rules@),
        final(issues)@ == old(issues)@ + rules_issues(rules@, old(seen)@, known@),
{
    let mut i: usize = 0;
    while i < rules.len()
        invariant
            i <= rules@.len(),
            seen@ == old(seen)@ + rule_ids(rules@.take(i as int)),
            issues@ == old(issues)@ + rules_issues(rules@.take(i as int), old(seen)@, known@),
        decreases rules@.len() - i,
    {
        let rule = &rules[i];
        let ghost seen_before = seen@;
        let ghost issues_before = issues@;
        record_id(rule.id, seen, issues);
        if is_blank_str(rule.statement.as_str()) {
            issues.push(ValidationIssue::BlankRuleStatement { rule_id: rule.id });
        }
        let ghost mid = issues@;
        if !is_in_unit_interval(rule.confidence) {
            issues.push(
                ValidationIssue::InvalidConfidence { rule_id: rule.id, confidence: rule.confidence },
            );
        }
        let ghost mid2 = issues@;
        record_missing_evidence(rule.id, &rule.evidence_ids, known, issues);
        let ghost t = rules@.take(i + 1);
        assert(t.drop_last() =~= rules@.take(i as int));
        assert(rule_ids(t) =~= rule_ids(rules@.take(i as int)).push(rule.id));
        assert(issues@ =~= issues_before + rule_issues(*rule, seen_before, known@));
        i = i + 1;
    }
    assert(rules@.take(rules@.len() as int) =~= rules@);
}

proof fn lemma_rules_issues_append(a: Seq<Rule>, b: Seq<Rule>, seen: Seq<u128>, known: Seq<u128>)
    ensures
        rules_issues(a + b, seen, known) == rules_issues(a, seen, known) + rules_issues(
            b,
            seen + rule_ids(a),
            known,
        ),
    decreases b.len(),
{
    if b.len() == 0 {
        assert(a + b =~= a);
        assert(rules_issues(a, seen, known) + Seq::empty() =~= rules_issues(a, seen, known));
    } else {
        lemma_rules_issues_append(a, b.drop_last(), seen, known);
        assert((a + b).drop_last() =~= a + b.drop_last());
        assert((a + b).last() == b.last());
        assert(rule_ids(a + b.drop_last()) =~= rule_ids(a) + rule_ids(b.drop_last()));
        assert(seen + rule_ids(a + b.drop_last()) =~= seen + rule_ids(a) + rule_ids(
            b.drop_last(),
        ));
        assert(rules_issues(a + b, seen, known) =~= rules_issues(a, seen, known) + rules_issues(
            b,
            seen + rule_ids(a),
            known,
        ));
    }
}

fn check_evidence(evidence: &Vec<Evidence>, seen: &mut Vec<u128>, issues: &mut Vec<ValidationIssue>)
    ensures
        final(seen)@ == old(seen)@ + evidence_ids(evidence@),
        final(issues)@ == old(issues)@ + evidences_issues(evidence@, old(seen)@),
{
    let mut i: usize = 0;
    while i < evidence.len()
        invariant
            i <= evidence@.len(),
            seen@ == old(seen)@ + evidence_ids(evidence@.take(i as int)),
            issues@ == old(issues)@ + evidences_issues(evidence@.take(i as int), old(seen)@),
        decreases evidence@.len() - i,
    {
        let e = &evidence[i];
        let ghost seen_before = seen@;
        let ghost issues_before = issues@;
        record_id(e.id, seen, issues);
        match e.region {
            Some(r) => {
                if !valid_region(r) {
                    issues.push(ValidationIssue::InvalidRegion { evidence_id: e.id });
                }
            },
            None => {},
        }
        let ghost t = evidence@.take(i + 1);
        assert(t.drop_last() =~= evidence@.take(i as int));
        assert(evidence_ids(t) =~= evidence_ids(evidence@.take(i as int)).push(e.id));
        assert(issues@ =~= issues_before + evidence_issues(*e, seen_before));
        i = i + 1;
    }
    assert(evidence@.take(evidence@.len() as int) =~= evidence@);
}

fn check_uncertainties(
    us: &Vec<Uncertainty>,
    known: &Vec<u128>,
    seen: &mut Vec<u128>,
    issues: &mut Vec<ValidationIssue>,
)
    ensures
        final(issues)@ == old(issues)@ + uncertainties_issues(us@, old(seen)@, known@),
{
    let mut i: usize = 0;
    while i < us.len()
        invariant
            i <= us@.len(),
            seen@ == old(seen)@ + uncertainty_ids(us@.take(i as int)),
            issues@ == old(issues)@ + uncertainties_issues(us@.take(i as int), old(seen)@, known@),
        decreases us@.len() - i,
    {
        let u = &us[i];
        let ghost seen_before = seen@;
        let ghost issues_before = issues@;
        record_id(u.id, seen, issues);
        if is_blank_str(u.statement.as_str()) {
            issues.push(ValidationIssue::BlankUncertaintyStatement { uncertainty_id: u.id });
        }
        record_missing_evidence(u.id, &u.evidence_ids, known, issues);
        let ghost t = us@.take(i + 1);
        assert(t.drop_last() =~= us@.take(i as int));
        assert(uncertainty_ids(t) =~= uncertainty_ids(us@.take(i as int)).push(u.id));
        assert(issues@ =~= issues_before + uncertainty_issues(*u, seen_before, known@));
        i = i + 1;
    }
    assert(us@.take(us@.len() as int) =~= us@);
}

proof fn lemma_all_rules_issues(spec: DesignSpec, k: Seq<u128>)
    ensures
        ({
            let e = Seq::<u128>::empty();
            let p1 = e + rule_ids(spec.intent@);
            let p2 = p1 + rule_ids(spec.tokens@);
            let p3 = p2 + rule_ids(spec.layout@);
            let p4 = p3 + rule_ids(spec.components@);
            let p5 = p4 + rule_ids(spec.assets@);
            let p6 = p5 + rule_ids(spec.motion@);
            let p7 = p6 + rule_ids(spec.constraints@);
            &&& rule_ids(all_rules(spec)) == p7
            &&& rules_issues(all_rules(spec), e, k) == rules_issues(spec.intent@, e, k)
                + rules_issues(spec.tokens@, p1, k) + rules_issues(spec.layout@, p2, k)
                + rules_issues(spec.components@, p3, k) + rules_issues(spec.assets@, p4, k)
                + rules_issues(spec.motion@, p5, k) + rules_issues(spec.constraints@, p6, k)
        }),
{
    let e: Seq<u128> = Seq::empty();
    let s1 = spec.intent@;
    let s2 = s1 + spec.tokens@;
    let s3 = s2 + spec.layout@;
    let s4 = s3 + spec.components@;
    let s5 = s4 + spec.assets@;
    let s6 = s5 + spec.motion@;
    let s7 = s6 + spec.constraints@;
    assert(e + rule_ids(s1) =~= rule_ids(s1));
    lemma_rules_issues_append(s1, spec.tokens@, e, k);
    lemma_rules_issues_append(s2, spec.layout@, e, k);
    lemma_rules_issues_append(s3, spec.components@, e, k);
    lemma_rules_issues_append(s4, spec.assets@, e, k);
    lemma_rules_issues_append(s5, spec.motion@, e, k);
    lemma_rules_issues_append(s6, spec.constraints@, e, k);
    assert(rule_ids(s2) =~= rule_ids(s1) + rule_ids(spec.tokens@));
    assert(rule_ids(s3) =~= rule_ids(s2) + rule_ids(spec.layout@));
    assert(rule_ids(s4) =~= rule_ids(s3) + rule_ids(spec.components@));
    assert(rule_ids(s5) =~= rule_ids(s4) + rule_ids(spec.assets@));
    assert(rule_ids(s6) =~= rule_ids(s5) + rule_ids(spec.motion@));
    assert(rule_ids(s7) =~= rule_ids(s6) + rule_ids(spec.constraints@));
    assert(e + rule_ids(s2) =~= rule_ids(s2));
    assert(e + rule_ids(s3) =~= rule_ids(s3));
    assert(e + rule_ids(s4) =~= rule_ids(s4));
    assert(e + rule_ids(s5) =~= rule_ids(s5));
    assert(e + rule_ids(s6) =~= rule_ids(s6));
    assert(s7 == all_rules(spec));
}

/// Every issue of a specification, in reporting order.
#[verifier::rlimit(50)]
pub fn collect_issues(spec: &DesignSpec) -> (issues: Vec<ValidationIssue>)
    ensures
        issues@ == validation_issues(*spec),
{
    let mut issues: Vec<ValidationIssue> = Vec::new();
    if !has_supported_schema_major(spec.metadata.schema_version.as_str()) {
        issues.push(
            ValidationIssue::UnsupportedSchemaVersion {
                schema_version: spec.metadata.schema_version.clone(),
            },
        );
    }
    assert(issues@ =~= schema_issues(*spec));
    let mut known: Vec<u128> = Vec::new();
    let mut i: usize = 0;
    while i < spec.evidence.len()
        invariant
            i <= spec.evidence@.len(),
            known@ == evidence_ids(spec.evidence@.take(i as int)),
        decreases spec.evidence@.len() - i,
    {
        known.push(spec.evidence[i].id);
        i = i + 1;
        assert(known@ =~= evidence_ids(spec.evidence@.take(i as int)));
    }
    assert(spec.evidence@.take(spec.evidence@.len() as int) =~= spec.evidence@);
    let mut seen: Vec<u128> = Vec::new();
    check_rules(&spec.intent, &known, &mut seen, &mut issues);
    check_rules(&spec.tokens, &known, &mut seen, &mut issues);
    check_rules(&spec.layout, &known, &mut seen, &mut issues);
    check_rules(&spec.components, &known, &mut seen, &mut issues);
    check_rules(&spec.assets, &known, &mut seen, &mut issues);
    check_rules(&spec.motion, &known, &mut seen, &mut issues);
    check_rules(&spec.constraints, &known, &mut seen, &mut issues);
    proof {
        lemma_all_rules_issues(*spec, known@);
    }
    let ghost after_rules = issues@;
    assert(after_rules =~= schema_issues(*spec) + rules_issues(all_rules(*spec), Seq::empty(), known@));
    check_evidence(&spec.evidence, &mut seen, &mut issues);
    let ghost after_evidence = issues@;
    check_uncertainties(&spec.uncertainties, &known, &mut seen, &mut issues);
    assert(issues@ =~= after_evidence + uncertainties_issues(spec.uncertainties@, rule_ids(all_rules(*spec)) + known@, known@));
    issues
}

impl DesignSpec {
    /// Validates the specification: `Ok` exactly when no issue is found,
    /// otherwise every issue, in reporting order.
    pub fn validate(&self) -> (r: Result<(), ValidationError>)
        ensures
            r is Ok <==> validation_issues(*self).len() == 0,
            r matches Err(e) ==> e.issues@ == validation_issues(*self),
    {
        let issues = collect_issues(self);
        if issues.len() == 0 {
            Ok(())
        } else {
            Err(ValidationError { issues })
        }
    }
}

} // verus!
