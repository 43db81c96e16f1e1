//! Inputs of the export commands, and where an export is written.

use vstd::prelude::*;
use crate::ids::{hyphenated, id_to_string};
use crate::markdown::{compile_markdown, excluded_term_issues, markdown_text};
use crate::model::{all_rules, exportable, DesignSpec, Rule};
use crate::validation::{validation_failure_text, validation_issues, ValidationIssue};
use crate::storage::paths::{join_path, path_joined, project_dir_of};
use crate::text::push_str;

verus! {

pub struct ProjectIdInput {
    pub project_id: String,
}

pub struct ExportDesignMarkdownInput {
    pub project_id: String,
    pub destination_path: Option<String>,
}

/// Some rule of the specification is accepted or edited, so an export has
/// something to show.
pub open spec fn has_confirmed_rule(spec: DesignSpec) -> bool {
    exists|i: int| 0 <= i < all_rules(spec).len() && exportable(#[trigger] all_rules(spec)[i])
}

pub open spec fn section_has_confirmed(rules: Seq<Rule>) -> bool {
    exists|i: int| 0 <= i < rules.len() && exportable(#[trigger] rules[i])
}

fn any_confirmed(rules: &Vec<Rule>) -> (r: bool)
    ensures
        r == section_has_confirmed(rules@),
{
    let mut i: usize = 0;
    while i < rules.len()
        invariant
            i <= rules@.len(),
            forall|j: int| 0 <= j < i ==> !exportable(#[trigger] rules@[j]),
        decreases rules@.len() - i,
    {
        if rules[i].is_exportable() {
            return true;
        }
        i = i + 1;
    }
    false
}

proof fn lemma_confirmed_concat(a: Seq<Rule>, b: Seq<Rule>)
    ensures
        section_has_confirmed(a + b) == (section_has_confirmed(a) || section_has_confirmed(b)),
{
    if section_has_confirmed(a) {
        let i = choose|i: int| 0 <= i < a.len() && exportable(#[trigger] a[i]);
        assert((a + b)[i] == a[i]);
    }
    if section_has_confirmed(b) {
        let i = choose|i: int| 0 <= i < b.len() && exportable(#[trigger] b[i]);
        assert((a + b)[a.len() + i] == b[i]);
    }
    if section_has_confirmed(a + b) {
        let i = choose|i: int| 0 <= i < (a + b).len() && exportable(#[trigger] (a + b)[i]);
        if i < a.len() {
            assert((a + b)[i] == a[i]);
        } else {
            assert((a + b)[i] == b[i - a.len()]);
        }
    }
}

/// The refusal of an export with nothing to show.
pub open spec fn nothing_to_export_message() -> Seq<char> {
    "export requires at least one accepted or edited rule"@
}

/// An export needs at least one accepted or edited rule; a specification
/// without one is refused before anything is written.
pub fn check_exportable(spec: &DesignSpec) -> (r: Result<(), String>)
    ensures
        r is Ok <==> has_confirmed_rule(*spec),
        r matches Err(m) ==> m@ == nothing_to_export_message(),
{
    proof {
        let s0 = spec.intent@;
        let s1 = spec.tokens@;
        let s2 = spec.layout@;
        let s3 = spec.components@;
        let s4 = spec.assets@;
        let s5 = spec.motion@;
        let s6 = spec.constraints@;
        lemma_confirmed_concat(s0, s1);
        lemma_confirmed_concat(s0 + s1, s2);
        lemma_confirmed_concat(s0 + s1 + s2, s3);
        lemma_confirmed_concat(s0 + s1 + s2 + s3, s4);
        lemma_confirmed_concat(s0 + s1 + s2 + s3 + s4, s5);
        lemma_confirmed_concat(s0 + s1 + s2 + s3 + s4 + s5, s6);
        assert(all_rules(*spec) == s0 + s1 + s2 + s3 + s4 + s5 + s6);
    }
    if any_confirmed(&spec.intent) || any_confirmed(&spec.tokens) || any_confirmed(&spec.layout)
        || any_confirmed(&spec.components) || any_confirmed(&spec.assets) || any_confirmed(
        &spec.motion,
    ) || any_confirmed(&spec.constraints) {
        Ok(())
    } else {
        Err("export requires at least one accepted or edited rule".to_owned())
    }
}

/// Where an export is recorded below its project's directory:
/// `exports/<timestamp>-DESIGN.md`, for the moment the export was made.
pub open spec fn export_relative_path(timestamp: Seq<char>) -> Seq<char> {
    "exports/"@ + timestamp + "-DESIGN.md"@
}

/// The recorded path of an export made at `timestamp` (the clock is read by
/// the caller).
pub fn relative_export_path(timestamp: &str) -> (s: String)
    ensures
        s@ == export_relative_path(timestamp@),
{
    let mut s = "exports/".to_owned();
    push_str(&mut s, timestamp);
    push_str(&mut s, "-DESIGN.md");
    s
}

/// The file an export is written to: the chosen destination, else its place
/// in the project's directory.
pub fn export_destination(
    app_data_dir: &str,
    project_id: u128,
    timestamp: &str,
    destination_path: Option<String>,
) -> (p: String)
    ensures
        match destination_path {
            Some(d) => p == d,
            None => p@ == path_joined(
                project_dir_of(app_data_dir@, hyphenated(project_id)),
                export_relative_path(timestamp@),
            ),
        },
{
    match destination_path {
        Some(d) => d,
        None => {
            let projects = join_path(app_data_dir, "projects");
            let project = join_path(projects.as_str(), id_to_string(project_id).as_str());
            join_path(project.as_str(), relative_export_path(timestamp).as_str())
        },
    }
}

/// What an export writes: the compiled Markdown, recorded under
/// `relative_path` below the project's directory.
pub struct ExportPlan {
    pub relative_path: String,
    pub markdown: String,
}

/// The issues that stop a specification from compiling: its validation
/// issues, else its excluded-term issues.
pub open spec fn compile_issues(spec: DesignSpec) -> Seq<ValidationIssue> {
    if validation_issues(spec).len() > 0 {
        validation_issues(spec)
    } else {
        excluded_term_issues(spec)
    }
}

/// Plans the export of a draft made at `timestamp`: a draft without an
/// accepted or edited rule is refused; a draft that does not compile is
/// refused with the validation failure's text; otherwise the export holds
/// the compiled Markdown under `exports/<timestamp>-DESIGN.md`.
pub fn plan_export(spec: &DesignSpec, timestamp: &str) -> (r: Result<ExportPlan, String>)
    ensures
        !has_confirmed_rule(*spec) ==> (r matches Err(m) && m@ == nothing_to_export_message()),
        has_confirmed_rule(*spec) && compile_issues(*spec).len() > 0 ==> (r matches Err(m) && m@
            == validation_failure_text(compile_issues(*spec).len())),
        has_confirmed_rule(*spec) && compile_issues(*spec).len() == 0 ==> (r matches Ok(p)
            && p.markdown@ == markdown_text(*spec) && p.relative_path@ == export_relative_path(
            timestamp@,
        )),
{
    check_exportable(spec)?;
    let markdown = match compile_markdown(spec) {
        Ok(m) => m,
        Err(e) => {
            return Err(e.message());
        },
    };
    Ok(ExportPlan { relative_path: relative_export_path(timestamp), markdown })
}

} // verus!
