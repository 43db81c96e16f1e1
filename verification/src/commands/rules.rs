//! Inputs of the rule commands, and the manual edit of a rule.

use vstd::prelude::*;
use crate::analysis::refine::RefineScope;
use crate::commands::parse_uuid;
use crate::ids::parsed_id;
use crate::model::{all_rules, DesignSpec, Rule, RuleSource, RuleStatus};
use crate::validation::{validation_failure_text, validation_issues};

verus! {

pub struct ProjectIdInput {
    pub project_id: String,
}

pub struct UpdateRuleInput {
    pub project_id: String,
    pub rule_id: String,
    pub statement: Option<String>,
    pub status: Option<RuleStatus>,
}

pub struct RefineRulesInput {
    pub project_id: String,
    pub provider_id: String,
    pub instruction: String,
    /// Restricts the instruction to one rule; absent means all rules.
    pub rule_id: Option<String>,
}

/// The scope of a refinement: the named rule, or all rules.
pub fn refine_scope_of(rule_id: Option<&str>) -> (r: Result<RefineScope, String>)
    ensures
        match rule_id {
            None => r == Ok::<RefineScope, String>(RefineScope::AllRules),
            Some(text) => match parsed_id(text@) {
                Some(id) => r == Ok::<RefineScope, String>(RefineScope::Rule(id)),
                None => r matches Err(m) && m@ == crate::commands::invalid_uuid_message("ruleId"@),
            },
        },
{
    match rule_id {
        None => Ok(RefineScope::AllRules),
        Some(text) => {
            let id = parse_uuid(text, "ruleId")?;
            Ok(RefineScope::Rule(id))
        },
    }
}

/// A rule after a manual edit. A new statement makes the rule user-authored:
/// its source becomes `User` and, unless a status is given too, its status
/// becomes `Edited`. A given status is taken as it is.
pub open spec fn edited_rule(r: Rule, statement: Option<String>, status: Option<RuleStatus>) -> Rule {
    Rule {
        statement: match statement {
            Some(s) => s,
            None => r.statement,
        },
        status: match status {
            Some(t) => t,
            None => if statement is Some {
                RuleStatus::Edited
            } else {
                r.status
            },
        },
        source: if statement is Some {
            RuleSource::User
        } else {
            r.source
        },
        ..r
    }
}

/// Position `k` holds the first rule with identifier `id`.
pub open spec fn is_first_rule(rs: Seq<Rule>, id: u128, k: int) -> bool {
    &&& 0 <= k < rs.len()
    &&& rs[k].id == id
    &&& forall|j: int| 0 <= j < k ==> rs[j].id != id
}

pub open spec fn no_rule_with(rs: Seq<Rule>, id: u128) -> bool {
    forall|j: int| 0 <= j < rs.len() ==> rs[j].id != id
}

/// The specification's parts other than the rules are kept, and so is the
/// size of each section.
pub open spec fn same_frame(q: DesignSpec, p: DesignSpec) -> bool {
    &&& q.metadata == p.metadata
    &&& q.evidence == p.evidence
    &&& q.uncertainties == p.uncertainties
    &&& q.intent@.len() == p.intent@.len()
    &&& q.tokens@.len() == p.tokens@.len()
    &&& q.layout@.len() == p.layout@.len()
    &&& q.components@.len() == p.components@.len()
    &&& q.assets@.len() == p.assets@.len()
    &&& q.motion@.len() == p.motion@.len()
    &&& q.constraints@.len() == p.constraints@.len()
}

/// Edits the first rule of a section with the identifier, if there is one.
fn edit_in_section(
    rules: &mut Vec<Rule>,
    rule_id: u128,
    statement: &mut Option<String>,
    status: Option<RuleStatus>,
) -> (found: bool)
    ensures
        found ==> exists|k: int|
            is_first_rule(old(rules)@, rule_id, k) && final(rules)@ == old(rules)@.update(
                k,
                edited_rule(old(rules)@[k], *old(statement), status),
            ),
        !found ==> no_rule_with(old(rules)@, rule_id) && *final(rules) == *old(rules)
            && *final(statement) == *old(statement),
{
    let mut i: usize = 0;
    while i < rules.len()
        invariant
            i <= rules@.len(),
            *rules == *old(rules),
            *statement == *old(statement),
            forall|j: int| 0 <= j < i ==> rules@[j].id != rule_id,
        decreases rules@.len() - i,
    {
        if rules[i].id == rule_id {
            let ghost before = rules@;
            let mut r = rules.remove(i);
            match statement.take() {
                Some(s) => {
                    r.statement = s;
                    r.source = RuleSource::User;
                    r.status = RuleStatus::Edited;
                },
                None => {},
            }
            match status {
                Some(t) => {
                    r.status = t;
                },
                None => {},
            }
            rules.insert(i, r);
            assert(rules@ =~= before.update(i as int, edited_rule(before[i as int], *old(statement), status)));
            assert(is_first_rule(before, rule_id, i as int));
            return true;
        }
        i = i + 1;
    }
    false
}

proof fn lemma_found_in(
    pre: Seq<Rule>,
    s: Seq<Rule>,
    post: Seq<Rule>,
    s2: Seq<Rule>,
    id: u128,
    k: int,
    statement: Option<String>,
    status: Option<RuleStatus>,
)
    requires
        no_rule_with(pre, id),
        is_first_rule(s, id, k),
        s2 == s.update(k, edited_rule(s[k], statement, status)),
    ensures
        is_first_rule(pre + s + post, id, pre.len() + k),
        pre + s2 + post == (pre + s + post).update(
            pre.len() + k,
            edited_rule((pre + s + post)[pre.len() + k], statement, status),
        ),
        forall|k2: int| is_first_rule(pre + s + post, id, k2) ==> k2 == pre.len() + k,
{
    let all = pre + s + post;
    assert(all[pre.len() + k] == s[k]);
    assert(pre + s2 + post =~= all.update(pre.len() + k, edited_rule(s[k], statement, status)));
    assert forall|j: int| 0 <= j < pre.len() + k implies all[j].id != id by {
        if j < pre.len() {
            assert(all[j] == pre[j]);
        } else {
            assert(all[j] == s[j - pre.len()]);
        }
    }
    assert forall|k2: int| is_first_rule(all, id, k2) implies k2 == pre.len() + k by {
        if k2 < pre.len() + k {
            assert(all[k2].id != id);
        }
        if k2 > pre.len() + k {
            assert(all[pre.len() + k].id == id);
        }
    }
}

proof fn lemma_none_in(a: Seq<Rule>, b: Seq<Rule>, id: u128)
    requires
        no_rule_with(a, id),
        no_rule_with(b, id),
    ensures
        no_rule_with(a + b, id),
{
    assert forall|j: int| 0 <= j < (a + b).len() implies (a + b)[j].id != id by {
        if j < a.len() {
            assert((a + b)[j] == a[j]);
        } else {
            assert((a + b)[j] == b[j - a.len()]);
        }
    }
}

/// Edits the first rule, in section order, with the identifier, as
/// `edited_rule` says: a new statement marks it user-authored (source `User`,
/// status `Edited` unless a status is given). Reports whether a rule was
/// found; nothing changes otherwise.
pub fn update_rule_in_spec(
    spec: &mut DesignSpec,
    rule_id: u128,
    statement: Option<String>,
    status: Option<RuleStatus>,
) -> (found: bool)
    ensures
        same_frame(*final(spec), *old(spec)),
        forall|k: int|
            is_first_rule(all_rules(*old(spec)), rule_id, k) ==> found && all_rules(*final(spec))
                == all_rules(*old(spec)).update(
                k,
                edited_rule(all_rules(*old(spec))[k], statement, status),
            ),
        no_rule_with(all_rules(*old(spec)), rule_id) ==> !found && *final(spec) == *old(spec),
{
    let ghost p = *spec;
    let ghost st = statement;
    let ghost e = Seq::<Rule>::empty();
    let ghost s0 = p.intent@;
    let ghost s1 = p.tokens@;
    let ghost s2 = p.layout@;
    let ghost s3 = p.components@;
    let ghost s4 = p.assets@;
    let ghost s5 = p.motion@;
    let ghost s6 = p.constraints@;
    let ghost all = all_rules(p);
    let mut statement = statement;
    if edit_in_section(&mut spec.intent, rule_id, &mut statement, status) {
        proof {
            let k = choose|k: int| is_first_rule(s0, rule_id, k) && spec.intent@ == s0.update(k, edited_rule(s0[k], st, status));
            let post = s1 + s2 + s3 + s4 + s5 + s6;
            assert(all =~= e + s0 + post);
            assert(all_rules(*spec) =~= e + spec.intent@ + post);
            lemma_found_in(e, s0, post, spec.intent@, rule_id, k, st, status);
        }
        return true;
    }
    if edit_in_section(&mut spec.tokens, rule_id, &mut statement, status) {
        proof {
            let k = choose|k: int| is_first_rule(s1, rule_id, k) && spec.tokens@ == s1.update(k, edited_rule(s1[k], st, status));
            let pre = s0;
            let post = s2 + s3 + s4 + s5 + s6;
            assert(all =~= pre + s1 + post);
            assert(all_rules(*spec) =~= pre + spec.tokens@ + post);
            lemma_found_in(pre, s1, post, spec.tokens@, rule_id, k, st, status);
        }
        return true;
    }
    if edit_in_section(&mut spec.layout, rule_id, &mut statement, status) {
        proof {
            let k = choose|k: int| is_first_rule(s2, rule_id, k) && spec.layout@ == s2.update(k, edited_rule(s2[k], st, status));
            let pre = s0 + s1;
            let post = s3 + s4 + s5 + s6;
            lemma_none_in(s0, s1, rule_id);
            assert(all =~= pre + s2 + post);
            assert(all_rules(*spec) =~= pre + spec.layout@ + post);
            lemma_found_in(pre, s2, post, spec.layout@, rule_id, k, st, status);
        }
        return true;
    }
    if edit_in_section(&mut spec.components, rule_id, &mut statement, status) {
        proof {
            let k = choose|k: int| is_first_rule(s3, rule_id, k) && spec.components@ == s3.update(k, edited_rule(s3[k], st, status));
            let pre = s0 + s1 + s2;
            let post = s4 + s5 + s6;
            lemma_none_in(s0, s1, rule_id);
            lemma_none_in(s0 + s1, s2, rule_id);
            assert(all =~= pre + s3 + post);
            assert(all_rules(*spec) =~= pre + spec.components@ + post);
            lemma_found_in(pre, s3, post, spec.components@, rule_id, k, st, status);
        }
        return true;
    }
    if edit_in_section(&mut spec.assets, rule_id, &mut statement, status) {
        proof {
            let k = choose|k: int| is_first_rule(s4, rule_id, k) && spec.assets@ == s4.update(k, edited_rule(s4[k], st, status));
            let pre = s0 + s1 + s2 + s3;
            let post = s5 + s6;
            lemma_none_in(s0, s1, rule_id);
            lemma_none_in(s0 + s1, s2, rule_id);
            lemma_none_in(s0 + s1 + s2, s3, rule_id);
            assert(all =~= pre + s4 + post);
            assert(all_rules(*spec) =~= pre + spec.assets@ + post);
            lemma_found_in(pre, s4, post, spec.assets@, rule_id, k, st, status);
        }
        return true;
    }
    if edit_in_section(&mut spec.motion, rule_id, &mut statement, status) {
        proof {
            let k = choose|k: int| is_first_rule(s5, rule_id, k) && spec.motion@ == s5.update(k, edited_rule(s5[k], st, status));
            let pre = s0 + s1 + s2 + s3 + s4;
            let post = s6;
            lemma_none_in(s0, s1, rule_id);
            lemma_none_in(s0 + s1, s2, rule_id);
            lemma_none_in(s0 + s1 + s2, s3, rule_id);
            lemma_none_in(s0 + s1 + s2 + s3, s4, rule_id);
            assert(all =~= pre + s5 + post);
            assert(all_rules(*spec) =~= pre + spec.motion@ + post);
            lemma_found_in(pre, s5, post, spec.motion@, rule_id, k, st, status);
        }
        return true;
    }
    if edit_in_section(&mut spec.constraints, rule_id, &mut statement, status) {
        proof {
            let k = choose|k: int| is_first_rule(s6, rule_id, k) && spec.constraints@ == s6.update(k, edited_rule(s6[k], st, status));
            let pre = s0 + s1 + s2 + s3 + s4 + s5;
            lemma_none_in(s0, s1, rule_id);
            lemma_none_in(s0 + s1, s2, rule_id);
            lemma_none_in(s0 + s1 + s2, s3, rule_id);
            lemma_none_in(s0 + s1 + s2 + s3, s4, rule_id);
            lemma_none_in(s0 + s1 + s2 + s3 + s4, s5, rule_id);
            assert(all =~= pre + s6 + e);
            assert(all_rules(*spec) =~= pre + spec.constraints@ + e);
            lemma_found_in(pre, s6, e, spec.constraints@, rule_id, k, st, status);
        }
        return true;
    }
    proof {
        lemma_none_in(s0, s1, rule_id);
        lemma_none_in(s0 + s1, s2, rule_id);
        lemma_none_in(s0 + s1 + s2, s3, rule_id);
        lemma_none_in(s0 + s1 + s2 + s3, s4, rule_id);
        lemma_none_in(s0 + s1 + s2 + s3 + s4, s5, rule_id);
        lemma_none_in(s0 + s1 + s2 + s3 + s4 + s5, s6, rule_id);
    }
    false
}

/// `q` is `spec` with the first rule carrying `rule_id` edited as
/// `edited_rule` says, and nothing else changed.
pub open spec fn rule_edited(
    q: DesignSpec,
    spec: DesignSpec,
    rule_id: u128,
    statement: Option<String>,
    status: Option<RuleStatus>,
) -> bool {
    &&& same_frame(q, spec)
    &&& exists|k: int|
        is_first_rule(all_rules(spec), rule_id, k) && #[trigger] all_rules(q) == all_rules(spec).update(
            k,
            edited_rule(all_rules(spec)[k], statement, status),
        )
}

/// A manual edit of a draft: a rule that is not there is refused with
/// `rule was not found`; an edited draft that does not validate is refused
/// with the validation failure's text; otherwise the edited draft, which
/// validates.
pub fn edit_rule(
    spec: DesignSpec,
    rule_id: u128,
    statement: Option<String>,
    status: Option<RuleStatus>,
) -> (r: Result<DesignSpec, String>)
    ensures
        no_rule_with(all_rules(spec), rule_id) ==> (r matches Err(m) && m@ == "rule was not found"@),
        !no_rule_with(all_rules(spec), rule_id) ==> (exists|q: DesignSpec|
            rule_edited(q, spec, rule_id, statement, status)),
        !no_rule_with(all_rules(spec), rule_id) ==> match r {
            Ok(q) => rule_edited(q, spec, rule_id, statement, status) && validation_issues(q).len()
                == 0,
            Err(m) => forall|q: DesignSpec|
                rule_edited(q, spec, rule_id, statement, status) ==> validation_issues(q).len() > 0
                    && m@ == validation_failure_text(validation_issues(q).len()),
        },
{
    let ghost original = spec;
    let mut spec = spec;
    let found = update_rule_in_spec(&mut spec, rule_id, statement, status);
    if !found {
        proof {
            let all = all_rules(original);
            if !no_rule_with(all, rule_id) {
                let j = choose|j: int| 0 <= j < all.len() && all[j].id == rule_id;
                lemma_first_rule_exists(all, rule_id, j);
            }
        }
        return Err("rule was not found".to_owned());
    }
    proof {
        let all = all_rules(original);
        if no_rule_with(all, rule_id) {
        } else {
            let j = choose|j: int| 0 <= j < all.len() && all[j].id == rule_id;
            lemma_first_rule_exists(all, rule_id, j);
            let k = choose|k: int| is_first_rule(all, rule_id, k);
            assert(all_rules(spec) == all.update(k, edited_rule(all[k], statement, status)));
            assert(rule_edited(spec, original, rule_id, statement, status));
            assert forall|q: DesignSpec| rule_edited(q, original, rule_id, statement, status) implies validation_issues(q)
                == validation_issues(spec) by {
                let k2 = choose|k2: int|
                    is_first_rule(all, rule_id, k2) && #[trigger] all_rules(q) == all.update(
                        k2,
                        edited_rule(all[k2], statement, status),
                    );
                if k2 < k {
                    assert(all[k2].id == rule_id);
                }
                if k < k2 {
                    assert(all[k].id == rule_id);
                }
                assert(all_rules(q) == all_rules(spec));
            }
        }
    }
    match spec.validate() {
        Ok(()) => Ok(spec),
        Err(e) => Err(e.message()),
    }
}

/// Where some rule carries the identifier, a first one does.
proof fn lemma_first_rule_exists(rs: Seq<Rule>, id: u128, j: int)
    requires
        0 <= j < rs.len(),
        rs[j].id == id,
    ensures
        exists|k: int| is_first_rule(rs, id, k),
    decreases j,
{
    if forall|i: int| 0 <= i < j ==> rs[i].id != id {
        assert(is_first_rule(rs, id, j));
    } else {
        let i = choose|i: int| 0 <= i < j && rs[i].id == id;
        lemma_first_rule_exists(rs, id, i);
    }
}

} // verus!
