use design_extractor::markdown::compile_markdown;
use design_extractor::model::{DesignSpec, Rule, RuleKind, RuleStatus};
use design_extractor::validation::ValidationIssue;
use serde_json::Value;

const ACCEPTED_DESIGN: &str = "# Design intent

- **design intent** (pattern, confidence 0.91): Prefer calm, utility-first surfaces with a clear task hierarchy.

# Visual principles

- **visual principles** (recommendation, confidence 0.88): Use spacing and contrast to separate dense content groups before adding decorative frames.

# Design tokens

- **color** (pattern, confidence 0.94): Use the primary action color only for interactive emphasis. Value: `{\"hex\":\"#2563EB\",\"role\":\"primary_action\"}`
- **spacing** (pattern, confidence 0.90): Use an 8 px spacing rhythm for adjacent controls. Value: `{\"base_px\":8}`

# Typography

- **typography** (pattern, confidence 0.86): Use a compact type scale with generous line-height for dense data. Value: `{\"line_height\":1.5,\"role\":\"body\",\"size_px\":16}`

# Layout and responsive rules

- **layout** (recommendation, confidence 0.82): Place primary actions in the upper-right of desktop layouts.

# Component conventions

- **cards** (recommendation, confidence 0.91): Use compact card headers with the label before the value.
- **cards** (pattern, confidence 0.84): Use soft containers for grouped metrics without heavy borders.

# Interaction and states

- **states** (recommendation, confidence 0.83): Show state changes through subtle color and shadow shifts.

# Image and icon direction

- **icons** (pattern, confidence 0.80): Prefer simple line icons with rounded stroke endings.

# Do / Don't

- **do** (recommendation, confidence 0.93): Keep primary actions visually distinct from secondary actions.
- **don't** (recommendation, confidence 0.89): Do not use ornamental backgrounds that compete with task content.

# AI implementation checklist

- [ ] Keep primary actions visually distinct from secondary actions.
- [ ] Do not use ornamental backgrounds that compete with task content.
";

fn accepted(category: &str, statement: &str, kind: RuleKind, confidence: f32) -> Rule {
    let mut rule = Rule::new(category, statement, kind, confidence.to_bits());
    rule.status = RuleStatus::Accepted;
    rule
}

fn with_value(mut rule: Rule, value: &str) -> Rule {
    rule.value = Some(value.to_owned());
    rule
}

/// The accepted specification the golden export above is compiled from.
fn accepted_spec() -> DesignSpec {
    let mut spec = DesignSpec::empty("0b5e7a8c-6f0e-4d5b-9c1a-2e3f4a5b6c7d");
    spec.metadata.excluded_terms = vec!["OriginalBrand".to_owned()];
    let mut rejected = Rule::new(
        "design intent",
        "OriginalBrand rejected rule that must not be exported.",
        RuleKind::Observation,
        0.4f32.to_bits(),
    );
    rejected.status = RuleStatus::Rejected;
    spec.intent = vec![
        accepted(
            "design intent",
            "Prefer calm, utility-first surfaces with a clear task hierarchy.",
            RuleKind::Pattern,
            0.91,
        ),
        rejected,
        accepted(
            "visual principles",
            "Use spacing and contrast to separate dense content groups before adding decorative frames.",
            RuleKind::Recommendation,
            0.88,
        ),
    ];
    spec.tokens = vec![
        with_value(
            accepted(
                "color",
                "Use the primary action color only for interactive emphasis.",
                RuleKind::Pattern,
                0.94,
            ),
            "{\"hex\":\"#2563EB\",\"role\":\"primary_action\"}",
        ),
        with_value(
            accepted(
                "typography",
                "Use a compact type scale with generous line-height for dense data.",
                RuleKind::Pattern,
                0.86,
            ),
            "{\"line_height\":1.5,\"role\":\"body\",\"size_px\":16}",
        ),
        with_value(
            accepted(
                "spacing",
                "Use an 8 px spacing rhythm for adjacent controls.",
                RuleKind::Pattern,
                0.90,
            ),
            "{\"base_px\":8}",
        ),
    ];
    spec.layout = vec![accepted(
        "layout",
        "Place primary actions in the upper-right of desktop layouts.",
        RuleKind::Recommendation,
        0.82,
    )];
    spec.components = vec![
        accepted(
            "cards",
            "Use soft containers for grouped metrics without heavy borders.",
            RuleKind::Pattern,
            0.84,
        ),
        accepted(
            "cards",
            "Use compact card headers with the label before the value.",
            RuleKind::Recommendation,
            0.91,
        ),
    ];
    spec.assets = vec![accepted(
        "icons",
        "Prefer simple line icons with rounded stroke endings.",
        RuleKind::Pattern,
        0.80,
    )];
    spec.motion = vec![accepted(
        "states",
        "Show state changes through subtle color and shadow shifts.",
        RuleKind::Recommendation,
        0.83,
    )];
    spec.constraints = vec![
        accepted(
            "do",
            "Keep primary actions visually distinct from secondary actions.",
            RuleKind::Recommendation,
            0.93,
        ),
        accepted(
            "don't",
            "Do not use ornamental backgrounds that compete with task content.",
            RuleKind::Recommendation,
            0.89,
        ),
    ];
    spec
}

fn object(entries: &[(&str, &str)]) -> Value {
    let mut map = serde_json::Map::new();
    for (key, value) in entries {
        map.insert((*key).to_owned(), Value::String((*value).to_owned()));
    }
    Value::Object(map)
}

fn has_excluded_term(issues: &[ValidationIssue], expected: &str) -> bool {
    issues.iter().any(|issue| {
        matches!(
            issue,
            ValidationIssue::ExcludedTermInRule { term, .. } if term == expected
        )
    })
}

fn count_top_level_headings(markdown: &str) -> usize {
    markdown.lines().filter(|line| line.starts_with("# ")).count()
}

#[test]
fn compiles_only_confirmed_rules_in_fixed_section_order() {
    let spec = accepted_spec();

    let output = compile_markdown(&spec).unwrap();

    assert_eq!(output, ACCEPTED_DESIGN);
    assert!(!output.contains("OriginalBrand"));
    assert!(!output.contains("rejected rule"));
}

#[test]
fn rejects_exportable_statements_containing_excluded_terms() {
    let mut spec = accepted_spec();
    spec.intent[0].statement = "OriginalBrand inspired dashboards are not allowed.".to_owned();

    let error = compile_markdown(&spec).unwrap_err();

    assert!(has_excluded_term(&error.issues, "OriginalBrand"));
}

#[test]
fn rejects_exportable_categories_containing_excluded_terms() {
    let mut spec = accepted_spec();
    spec.tokens[0].category = "OriginalBrand colors".to_owned();

    let error = compile_markdown(&spec).unwrap_err();

    assert!(has_excluded_term(&error.issues, "OriginalBrand"));
}

#[test]
fn rejects_exportable_values_containing_excluded_terms() {
    let mut spec = accepted_spec();
    let value = object(&[("brand", "OriginalBrand"), ("role", "primary_action")]);
    spec.tokens[0].value = Some(serde_json::to_string(&value).unwrap());

    let error = compile_markdown(&spec).unwrap_err();

    assert!(has_excluded_term(&error.issues, "OriginalBrand"));
}

#[test]
fn rejects_statement_excluded_terms_after_prose_whitespace_normalization() {
    let mut spec = accepted_spec();
    spec.metadata.excluded_terms = vec!["Original Brand".to_owned()];
    spec.intent[0].statement =
        "Do not copy Original\n\t   Brand visual motifs into the export.".to_owned();

    let error = compile_markdown(&spec).unwrap_err();

    assert!(has_excluded_term(&error.issues, "Original Brand"));
}

#[test]
fn rejects_category_excluded_terms_after_prose_whitespace_normalization() {
    let mut spec = accepted_spec();
    spec.metadata.excluded_terms = vec!["Original Brand".to_owned()];
    spec.tokens[0].category = "Original\n   Brand colors".to_owned();

    let error = compile_markdown(&spec).unwrap_err();

    assert!(has_excluded_term(&error.issues, "Original Brand"));
}

#[test]
fn sanitizes_statement_newlines_that_would_create_extra_headings() {
    let mut spec = accepted_spec();
    spec.intent[0].statement =
        "Keep the visual hierarchy stable.\n# Extra section\nMore unsafe text.".to_owned();

    let output = compile_markdown(&spec).unwrap();

    assert_eq!(count_top_level_headings(&output), 10);
    assert!(!output.contains("\n# Extra section"));
    assert!(output.contains("Keep the visual hierarchy stable. # Extra section More unsafe text."));
}

#[test]
fn sanitizes_checklist_newlines_that_would_create_extra_items() {
    let mut spec = accepted_spec();
    spec.constraints[0].statement =
        "Keep primary actions clear.\n- [ ] Injected checklist item\n# Extra section".to_owned();

    let output = compile_markdown(&spec).unwrap();
    let checklist = output
        .split_once("# AI implementation checklist\n\n")
        .map(|(_, checklist)| checklist)
        .unwrap();

    assert_eq!(count_top_level_headings(&output), 10);
    assert_eq!(checklist.matches("\n- [ ] ").count(), 1);
    assert!(!output.contains("\n- [ ] Injected checklist item"));
    assert!(!output.contains("\n# Extra section"));
    assert!(checklist.contains(
        "- [ ] Keep primary actions clear. - \\[ \\] Injected checklist item # Extra section"
    ));
}

#[test]
fn preserves_serialized_token_values_inside_safe_code_spans() {
    let mut spec = accepted_spec();
    let value = object(&[
        ("role", "literal_token"),
        ("sample", "Use `inline` and ```fence``` markers"),
        ("spacing", "keep  two   spaces"),
        ("line", "first\nsecond"),
    ]);
    let serialized = serde_json::to_string(&value).unwrap();
    spec.tokens[0].value = Some(serialized.clone());

    let output = compile_markdown(&spec).unwrap();

    assert!(serialized.contains('`'));
    assert!(serialized.contains("  "));
    assert!(serialized.contains("\\n"));
    assert!(output.contains(&format!("Value: ````{serialized}````")));
    assert!(!output.contains("Use 'inline'"));
    assert!(!output.contains("keep two spaces"));
}

#[test]
fn compiling_twice_gives_the_same_text() {
    let spec = accepted_spec();

    assert_eq!(compile_markdown(&spec).unwrap(), compile_markdown(&spec).unwrap());
}

#[test]
fn invalid_specifications_report_their_validation_issues() {
    let mut spec = accepted_spec();
    spec.layout[0].confidence = 1.5f32.to_bits();

    let error = compile_markdown(&spec).unwrap_err();

    assert_eq!(error.issues, spec.validate().unwrap_err().issues);
}

#[test]
fn a_specification_without_confirmed_rules_keeps_every_heading() {
    let spec = DesignSpec::empty("project");

    let output = compile_markdown(&spec).unwrap();

    assert_eq!(count_top_level_headings(&output), 10);
    assert!(!output.contains("- "));
}
