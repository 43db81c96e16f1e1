use design_extractor::analysis::refine::RefineScope;
use design_extractor::commands::analysis::{
    analysis_preview, analysis_project, estimate_encoded_bytes, parse_selection, preview_from_sizes,
    AnalysisSelectionInput,
};
use design_extractor::commands::exports::{check_exportable, export_destination, plan_export, relative_export_path};
use design_extractor::commands::providers::{model_list_key, secret_action, ModelListKey, SecretAction};
use design_extractor::commands::rules::{edit_rule, refine_scope_of, update_rule_in_spec};
use design_extractor::commands::screenshots::imported_page_name;
use design_extractor::commands::{command_error, parse_uuid};
use design_extractor::model::{DesignSpec, Platform, Rule, RuleKind, RuleSource, RuleStatus};
use design_extractor::providers::config::{ProviderConfig, ProviderKind};

#[test]
fn identifiers_are_parsed_with_labelled_errors() {
    assert_eq!(parse_uuid("00000000-0000-0000-0000-00000000002a", "projectId"), Ok(42));
    assert_eq!(parse_uuid("nope", "projectId"), Err("projectId is not a valid UUID".to_owned()));
    assert_eq!(command_error("boom"), "boom");
}

#[test]
fn selections_report_the_first_bad_field() {
    let mut input = AnalysisSelectionInput {
        project_id: "00000000-0000-0000-0000-000000000001".to_owned(),
        provider_id: "00000000-0000-0000-0000-000000000002".to_owned(),
        screenshot_ids: vec!["00000000-0000-0000-0000-000000000003".to_owned()],
    };
    assert_eq!(parse_selection(&input), Ok((1, 2, vec![3])));
    input.screenshot_ids.push("bad".to_owned());
    assert_eq!(parse_selection(&input), Err("screenshotId is not a valid UUID".to_owned()));
    input.provider_id = "bad".to_owned();
    assert_eq!(parse_selection(&input), Err("providerId is not a valid UUID".to_owned()));
}

#[test]
fn previews_estimate_base64_sizes() {
    assert_eq!(estimate_encoded_bytes(&vec![]), 0);
    assert_eq!(estimate_encoded_bytes(&vec![1, 3, 4, 0]), 4 + 4 + 8);
    assert_eq!(estimate_encoded_bytes(&vec![u64::MAX / 2, u64::MAX / 2]), u64::MAX);
    let preview = analysis_preview("Local".to_owned(), "vision".to_owned(), &vec![1, 2], 16);
    assert_eq!(preview.image_count, 2);
    assert_eq!(preview.image_ids[1], "00000000-0000-0000-0000-000000000002");
}

#[test]
fn analysis_projects_need_a_known_platform() {
    let project = analysis_project(9, "mobile").unwrap();
    assert_eq!(project.platform, Platform::Mobile);
    assert_eq!(project.target_product_type, "local product");
    assert_eq!(analysis_project(9, "tv").unwrap_err().message(), "repository operation failed: invalid platform: tv");
}

#[test]
fn rule_edits_change_the_first_matching_rule_only() {
    let mut spec = DesignSpec::empty("project");
    let mut a = Rule::new("color", "Old.", RuleKind::Pattern, 0.5f32.to_bits());
    a.id = 5;
    let mut b = a.clone();
    b.statement = "Other.".to_owned();
    spec.tokens.push(a);
    spec.constraints.push(b);

    assert!(update_rule_in_spec(&mut spec, 5, Some("New.".to_owned()), Some(RuleStatus::Accepted)));
    assert_eq!(spec.tokens[0].statement, "New.");
    assert_eq!(spec.tokens[0].status, RuleStatus::Accepted);
    assert_eq!(spec.constraints[0].statement, "Other.");

    assert_eq!(spec.tokens[0].source, RuleSource::User);

    assert!(update_rule_in_spec(&mut spec, 5, None, Some(RuleStatus::Rejected)));
    assert_eq!(spec.tokens[0].statement, "New.");
    assert_eq!(spec.tokens[0].status, RuleStatus::Rejected);

    let before = spec.clone();
    assert!(!update_rule_in_spec(&mut spec, 6, Some("x".to_owned()), None));
    assert_eq!(spec, before);
}

#[test]
fn editing_a_statement_marks_the_rule_user_authored() {
    let mut spec = DesignSpec::empty("project");
    let mut rule = Rule::new("color", "Model wording.", RuleKind::Pattern, 0.5f32.to_bits());
    rule.id = 9;
    spec.intent.push(rule);
    assert_eq!(spec.intent[0].status, RuleStatus::Pending);
    assert_eq!(spec.intent[0].source, RuleSource::Model);

    assert!(update_rule_in_spec(&mut spec, 9, Some("User wording.".to_owned()), None));
    assert_eq!(spec.intent[0].statement, "User wording.");
    assert_eq!(spec.intent[0].status, RuleStatus::Edited);
    assert_eq!(spec.intent[0].source, RuleSource::User);

    assert!(update_rule_in_spec(&mut spec, 9, None, Some(RuleStatus::Accepted)));
    assert_eq!(spec.intent[0].status, RuleStatus::Accepted);
    assert_eq!(spec.intent[0].source, RuleSource::User);
}

fn stored(credential_ref: &str) -> ProviderConfig {
    ProviderConfig {
        id: 1,
        name: "p".to_owned(),
        kind: ProviderKind::Gemini,
        base_url: "https://example.com".to_owned(),
        model: "m".to_owned(),
        credential_ref: credential_ref.to_owned(),
    }
}

#[test]
fn saving_a_provider_decides_what_happens_to_its_secret() {
    assert_eq!(secret_action(None, Some("k".to_owned())), Ok(SecretAction::Create { secret: "k".to_owned() }));
    assert_eq!(secret_action(None, None), Err("apiKey is required for a new provider".to_owned()));
    let existing = stored("keyring://s/provider:x");
    assert_eq!(
        secret_action(Some(&existing), Some("k".to_owned())),
        Ok(SecretAction::Replace { credential_ref: "keyring://s/provider:x".to_owned(), secret: "k".to_owned() })
    );
    assert_eq!(
        secret_action(Some(&existing), None),
        Ok(SecretAction::Keep { credential_ref: "keyring://s/provider:x".to_owned() })
    );
}

#[test]
fn model_listing_prefers_a_typed_key() {
    assert_eq!(model_list_key(Some("key".to_owned()), None), Ok(ModelListKey::Typed("key".to_owned())));
    assert_eq!(
        model_list_key(Some("  ".to_owned()), Some("00000000-0000-0000-0000-000000000007")),
        Ok(ModelListKey::Stored(7))
    );
    assert_eq!(model_list_key(None, None), Err("apiKey or providerId is required".to_owned()));
    assert_eq!(model_list_key(None, Some("x")), Err("providerId is not a valid UUID".to_owned()));
}

#[test]
fn refinement_scopes_and_export_paths() {
    assert_eq!(refine_scope_of(None), Ok(RefineScope::AllRules));
    assert_eq!(refine_scope_of(Some("00000000-0000-0000-0000-000000000003")), Ok(RefineScope::Rule(3)));
    assert_eq!(refine_scope_of(Some("?")), Err("ruleId is not a valid UUID".to_owned()));
    let ts = "20260623T101500.123456789Z";
    assert_eq!(relative_export_path(ts), "exports/20260623T101500.123456789Z-DESIGN.md");
    assert_eq!(
        export_destination("/d", 2, ts, None),
        "/d/projects/00000000-0000-0000-0000-000000000002/exports/20260623T101500.123456789Z-DESIGN.md"
    );
    assert_eq!(export_destination("/d", 2, ts, Some("/tmp/x.md".to_owned())), "/tmp/x.md");
}

#[test]
fn imported_pages_are_named_after_their_files() {
    assert_eq!(imported_page_name("/shots/Checkout flow.png"), "Checkout flow");
    assert_eq!(imported_page_name("/"), "Screenshot");
}

#[test]
fn exports_need_an_accepted_or_edited_rule() {
    let mut spec = DesignSpec::empty("project");
    assert_eq!(check_exportable(&spec), Err("export requires at least one accepted or edited rule".to_owned()));

    let mut pending = Rule::new("color", "Pending.", RuleKind::Pattern, 0.5f32.to_bits());
    pending.id = 1;
    let mut rejected = pending.clone();
    rejected.id = 2;
    rejected.status = RuleStatus::Rejected;
    spec.tokens.push(pending);
    spec.layout.push(rejected);
    assert!(check_exportable(&spec).is_err());

    let mut edited = Rule::new("grid", "Edited.", RuleKind::Pattern, 0.5f32.to_bits());
    edited.id = 3;
    edited.status = RuleStatus::Edited;
    spec.constraints.push(edited);
    assert_eq!(check_exportable(&spec), Ok(()));
}

#[test]
fn previews_carry_the_selection_and_the_estimate() {
    let preview = preview_from_sizes("P".to_owned(), "m".to_owned(), &vec![1, 2], &vec![4, 3]).unwrap();
    assert_eq!(preview.provider_name, "P");
    assert_eq!(preview.model, "m");
    assert_eq!(
        preview.image_ids,
        vec!["00000000-0000-0000-0000-000000000001", "00000000-0000-0000-0000-000000000002"]
    );
    assert_eq!(preview.image_count, 2);
    assert_eq!(preview.estimated_encoded_bytes, 8 + 4);
    assert!(preview_from_sizes("P".to_owned(), "m".to_owned(), &vec![1], &vec![u64::MAX]).is_none());
}

fn confirmed_spec() -> DesignSpec {
    let mut spec = DesignSpec::empty("project");
    let mut rule = Rule::new("grid", "Use an eight point grid.", RuleKind::Pattern, 0.5f32.to_bits());
    rule.id = 3;
    rule.status = RuleStatus::Accepted;
    spec.layout.push(rule);
    spec
}

#[test]
fn exports_are_planned_from_the_compiled_draft() {
    let plan = plan_export(&confirmed_spec(), "20260623T101500.000000000Z").unwrap();
    assert_eq!(plan.relative_path, "exports/20260623T101500.000000000Z-DESIGN.md");
    assert_eq!(plan.markdown, design_extractor::markdown::compile_markdown(&confirmed_spec()).unwrap());
    assert!(plan.markdown.contains("Use an eight point grid."));

    assert_eq!(
        plan_export(&DesignSpec::empty("project"), "t").err(),
        Some("export requires at least one accepted or edited rule".to_owned())
    );
    let mut invalid = confirmed_spec();
    invalid.metadata.schema_version = "2.0".to_owned();
    assert_eq!(
        plan_export(&invalid, "t").err(),
        Some("design specification validation failed with 1 issue(s)".to_owned())
    );
}

#[test]
fn rule_edits_are_validated_before_they_are_kept() {
    let edited = edit_rule(confirmed_spec(), 3, Some("Use a four point grid.".to_owned()), None).unwrap();
    assert_eq!(edited.layout[0].statement, "Use a four point grid.");
    assert_eq!(edited.layout[0].status, RuleStatus::Edited);
    assert_eq!(edited.layout[0].source, RuleSource::User);

    assert_eq!(edit_rule(confirmed_spec(), 4, None, None).err(), Some("rule was not found".to_owned()));
    assert_eq!(
        edit_rule(confirmed_spec(), 3, Some("   ".to_owned()), None).err(),
        Some("design specification validation failed with 1 issue(s)".to_owned())
    );
}
