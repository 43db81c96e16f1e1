use design_extractor::analysis::orchestrator::{extract_json, AnalysisError};
use design_extractor::analysis::refine::{
    apply_refinement, prepare_refinement, refine_prompt, ParsedPatches, PatchedRule, RefineOutcome, RefineScope,
};
use design_extractor::model::{DesignSpec, Evidence, Platform, Rule, RuleKind, RuleScope, RuleSource, RuleStatus};

const SCREENSHOT_ID: u128 = 0x02020202_0202_0202_0202_020202020202;
const EVIDENCE_ID: u128 = 0x03030303_0303_0303_0303_030303030303;
const COLOR_RULE_ID: u128 = 0x04040404_0404_0404_0404_040404040404;
const LAYOUT_RULE_ID: u128 = 0x05050505_0505_0505_0505_050505050505;

fn id_text(id: u128) -> String {
    uuid::Uuid::from_u128(id).to_string()
}

fn spec() -> DesignSpec {
    let mut spec = DesignSpec::empty("01010101-0101-0101-0101-010101010101");
    spec.metadata.platform = Platform::Web;
    spec.metadata.source_screenshot_ids = vec![SCREENSHOT_ID];
    spec.evidence = vec![Evidence {
        id: EVIDENCE_ID,
        screenshot_id: SCREENSHOT_ID,
        region: None,
        description: "Visible primary button and card layout".to_owned(),
    }];
    spec.tokens = vec![rule(COLOR_RULE_ID, "Color", "Primary actions use a vivid blue accent.")];
    spec.layout = vec![rule(LAYOUT_RULE_ID, "Spacing", "Pages use a 20px gutter.")];
    spec
}

fn rule(id: u128, category: &str, statement: &str) -> Rule {
    Rule {
        id,
        category: category.to_owned(),
        statement: statement.to_owned(),
        kind: RuleKind::Pattern,
        scope: RuleScope::Global,
        value: None,
        evidence_ids: vec![EVIDENCE_ID],
        confidence: 0.8f32.to_bits(),
        status: RuleStatus::Pending,
        source: RuleSource::Model,
    }
}

fn patches(list: &[(u128, &str)]) -> ParsedPatches {
    ParsedPatches::Patches(list.iter().map(|(id, s)| PatchedRule { id: *id, statement: (*s).to_owned() }).collect())
}

fn refine(answer: ParsedPatches, instruction: &str, scope: RefineScope) -> Result<RefineOutcome, AnalysisError> {
    let (_, ids) = prepare_refinement(&spec(), instruction, scope, "vision-model")?;
    apply_refinement(spec(), &ids, answer)
}

#[test]
fn applies_patches_as_edited_rules() {
    let (request, ids) =
        prepare_refinement(&spec(), "Rewrite color rules as ranges.", RefineScope::AllRules, "vision-model")
            .unwrap();
    let outcome =
        apply_refinement(spec(), &ids, patches(&[(COLOR_RULE_ID, "Primary actions use a muted blue range.")]))
            .unwrap();

    assert_eq!(outcome.affected_rule_ids, vec![COLOR_RULE_ID]);
    let rule = &outcome.spec.tokens[0];
    assert_eq!(rule.statement, "Primary actions use a muted blue range.");
    assert_eq!(rule.status, RuleStatus::Edited);
    assert_eq!(rule.source, RuleSource::Model);
    assert_eq!(outcome.spec.layout[0].status, RuleStatus::Pending);

    assert!(request.images.is_empty());
    assert!(request.json_schema.is_none());
    assert!(request.prompt.contains("Rewrite color rules as ranges."));
    assert!(request.prompt.contains(&id_text(COLOR_RULE_ID)));
    assert!(request.prompt.contains("Do not copy or emit brand names"));
}

#[test]
fn the_rules_are_sent_as_compact_json_with_sorted_keys() {
    let (request, ids) =
        prepare_refinement(&spec(), "Edit.", RefineScope::AllRules, "vision-model").unwrap();

    let rules_json = format!(
        r#"[{{"category":"Color","id":"{}","statement":"Primary actions use a vivid blue accent."}},{{"category":"Spacing","id":"{}","statement":"Pages use a 20px gutter."}}]"#,
        id_text(COLOR_RULE_ID),
        id_text(LAYOUT_RULE_ID)
    );
    assert_eq!(request.prompt, refine_prompt("Edit.", &rules_json));
    assert_eq!(ids, vec![COLOR_RULE_ID, LAYOUT_RULE_ID]);
    assert_eq!(request.model, "vision-model");
}

#[test]
fn scope_limits_the_rules_sent_to_the_provider() {
    let (request, ids) = prepare_refinement(
        &spec(),
        "Loosen the gutter rule.",
        RefineScope::Rule(LAYOUT_RULE_ID),
        "vision-model",
    )
    .unwrap();

    assert!(request.prompt.contains(&id_text(LAYOUT_RULE_ID)));
    assert!(!request.prompt.contains(&id_text(COLOR_RULE_ID)));
    assert_eq!(ids, vec![LAYOUT_RULE_ID]);
}

#[test]
fn rejects_patches_for_unknown_rule_ids() {
    let unknown = 0x0F0F0F0F_0F0F_0F0F_0F0F_0F0F0F0F0F0F;
    let error = refine(patches(&[(unknown, "Invented rule.")]), "Change things.", RefineScope::AllRules).unwrap_err();

    assert_eq!(error, AnalysisError::InvalidSpec);
}

#[test]
fn rejects_out_of_scope_patches() {
    let error = refine(
        patches(&[(COLOR_RULE_ID, "Out of scope edit.")]),
        "Only touch the layout rule.",
        RefineScope::Rule(LAYOUT_RULE_ID),
    )
    .unwrap_err();

    assert_eq!(error, AnalysisError::InvalidSpec);
}

#[test]
fn rejects_empty_change_sets_and_empty_statements() {
    let error = refine(patches(&[]), "Do nothing.", RefineScope::AllRules).unwrap_err();
    assert!(matches!(error, AnalysisError::Refine(_)));

    let error = refine(patches(&[(COLOR_RULE_ID, "  ")]), "Blank it.", RefineScope::AllRules).unwrap_err();
    assert_eq!(error, AnalysisError::InvalidSpec);
}

#[test]
fn rejects_empty_instruction_and_unknown_scope_without_network() {
    let error = prepare_refinement(&spec(), "   ", RefineScope::AllRules, "m").err();
    assert_eq!(error, Some(AnalysisError::Refine("instruction must not be empty".to_owned())));

    let missing = 0x0E0E0E0E_0E0E_0E0E_0E0E_0E0E0E0E0E0E;
    let error = prepare_refinement(&spec(), "Edit.", RefineScope::Rule(missing), "m").err();
    assert_eq!(error, Some(AnalysisError::Refine("no rules match the requested scope".to_owned())));
}

#[test]
fn strips_markdown_fences_from_the_response() {
    let array = format!("[{{\"id\":\"{}\",\"statement\":\"Fenced edit.\"}}]", id_text(COLOR_RULE_ID));
    let body = format!("```json\n{array}\n```");
    assert_eq!(extract_json(&body), Some(array));

    let outcome = refine(patches(&[(COLOR_RULE_ID, "Fenced edit.")]), "Edit.", RefineScope::AllRules).unwrap();

    assert_eq!(outcome.spec.tokens[0].statement, "Fenced edit.");
}

#[test]
fn malformed_answers_are_told_apart() {
    assert_eq!(refine(ParsedPatches::NotJson, "Edit.", RefineScope::AllRules).unwrap_err(), AnalysisError::InvalidJson);
    assert_eq!(refine(ParsedPatches::WrongShape, "Edit.", RefineScope::AllRules).unwrap_err(), AnalysisError::InvalidSpec);
    assert_eq!(
        refine(patches(&[(COLOR_RULE_ID, "a"), (COLOR_RULE_ID, "b")]), "Edit.", RefineScope::AllRules).unwrap_err(),
        AnalysisError::InvalidSpec
    );
}

#[test]
fn new_statements_are_trimmed() {
    let outcome = refine(patches(&[(LAYOUT_RULE_ID, "  Tighter gutter.  ")]), "Edit.", RefineScope::AllRules).unwrap();

    assert_eq!(outcome.spec.layout[0].statement, "Tighter gutter.");
    assert_eq!(outcome.spec.layout[0].category, "Spacing");
    assert_eq!(outcome.spec.tokens[0].statement, "Primary actions use a vivid blue accent.");
}
