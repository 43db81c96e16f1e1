use design_extractor::analysis::orchestrator::{
    decide_after_response, extract_json, first_request, prepare_response, AnalysisDecision,
    AnalysisError, AnalysisEvent, AnalysisPhase, AnalysisProject, AnalysisScreenshot, ParsedResponse,
};
use design_extractor::analysis::prompt::FIXED_ANALYSIS_INSTRUCTIONS;
use design_extractor::analysis::repair::repair_prompt;
use design_extractor::model::{DesignSpec, Evidence, Platform, Rule, RuleKind, RuleStatus};
use design_extractor::providers::error::ProviderError;

const PROJECT: u128 = 0x0101_0101_0101_0101_0101_0101_0101_0101;
const SHOT: u128 = 0x0202_0202_0202_0202_0202_0202_0202_0202;
const OTHER_SHOT: u128 = 0x0909_0909_0909_0909_0909_0909_0909_0909;
const PROVIDER: u128 = 0x0303_0303_0303_0303_0303_0303_0303_0303;
const EVIDENCE: u128 = 0x0404_0404_0404_0404_0404_0404_0404_0404;

fn project() -> AnalysisProject {
    AnalysisProject { id: PROJECT, platform: Platform::Web, target_product_type: "local product".to_owned() }
}

fn screenshot() -> AnalysisScreenshot {
    AnalysisScreenshot {
        id: SHOT,
        page_name: "Dashboard".to_owned(),
        scene: "overview".to_owned(),
        media_type: "image/png".to_owned(),
        bytes: vec![1, 2, 3, 4],
    }
}

fn model_spec(screenshot_id: u128) -> DesignSpec {
    let mut spec = DesignSpec::empty("ignored");
    spec.evidence.push(Evidence {
        id: EVIDENCE,
        screenshot_id,
        region: None,
        description: "Primary button".to_owned(),
    });
    let mut rule = Rule::new("color", "Use a blue accent for primary actions.", RuleKind::Pattern, 0.42f32.to_bits());
    rule.evidence_ids.push(EVIDENCE);
    rule.status = RuleStatus::Accepted;
    spec.tokens.push(rule);
    spec
}

#[test]
fn json_is_taken_from_fenced_or_bare_output() {
    assert_eq!(extract_json("  {\"a\":1}\n").as_deref(), Some("{\"a\":1}"));
    assert_eq!(extract_json("```json\n{\"a\":1}\n```").as_deref(), Some("{\"a\":1}"));
    assert_eq!(extract_json("```\n{\"a\":\"```\"}\n```\n").as_deref(), Some("{\"a\":\"```\"}"));
    assert_eq!(extract_json("```json {\"a\":1}```"), None);
    assert_eq!(extract_json("```json\n{\"a\":1}"), None);
}

#[test]
fn a_valid_response_is_prepared_with_provenance_and_pending_rules() {
    let prepared = prepare_response(
        ParsedResponse::Spec(model_spec(SHOT)),
        &project(),
        PROVIDER,
        "vision-model",
        &vec![SHOT],
    )
    .unwrap();

    assert_eq!(prepared.metadata.project_id, uuid::Uuid::from_u128(PROJECT).to_string());
    assert_eq!(prepared.metadata.platform, Platform::Web);
    assert_eq!(prepared.metadata.provider_id, Some(uuid::Uuid::from_u128(PROVIDER).to_string()));
    assert_eq!(prepared.metadata.model.as_deref(), Some("vision-model"));
    assert_eq!(prepared.metadata.source_screenshot_ids, vec![SHOT]);
    assert_eq!(prepared.tokens[0].status, RuleStatus::Pending);
    assert_eq!(prepared.tokens[0].statement, "Use a blue accent for primary actions.");
}

#[test]
fn unparsable_invalid_and_foreign_evidence_responses_are_refused() {
    assert_eq!(
        prepare_response(ParsedResponse::NotJson, &project(), PROVIDER, "m", &vec![SHOT]).unwrap_err(),
        AnalysisError::InvalidJson
    );
    assert_eq!(
        prepare_response(ParsedResponse::Spec(model_spec(OTHER_SHOT)), &project(), PROVIDER, "m", &vec![SHOT])
            .unwrap_err(),
        AnalysisError::InvalidSpec
    );
    assert_eq!(
        prepare_response(ParsedResponse::WrongShape, &project(), PROVIDER, "m", &vec![SHOT]).unwrap_err(),
        AnalysisError::InvalidSpec
    );
    let mut missing = model_spec(SHOT);
    missing.tokens[0].evidence_ids.push(0x77);
    assert_eq!(
        prepare_response(ParsedResponse::Spec(missing), &project(), PROVIDER, "m", &vec![SHOT]).unwrap_err(),
        AnalysisError::InvalidSpec
    );
}

#[test]
fn the_first_request_carries_the_prompt_and_every_image() {
    let request = first_request(&project(), &vec![screenshot()], Some("{\"type\":\"object\"}"), "vision-model");

    assert_eq!(request.model, "vision-model");
    assert!(request.json_schema.is_none());
    assert_eq!(request.images.len(), 1);
    assert_eq!(request.images[0].bytes, vec![1, 2, 3, 4]);
    assert!(request.prompt.starts_with(FIXED_ANALYSIS_INSTRUCTIONS));
    assert!(request.prompt.contains(
        "- project_id: 01010101-0101-0101-0101-010101010101\n- platform: Web\n- target_product_type: local product\n- screenshots:\n  - id: 02020202-0202-0202-0202-020202020202; page_name: Dashboard; scene: overview\n"
    ));
    assert!(request.prompt.ends_with("\nThe supplied schema:\n{\"type\":\"object\"}\n"));
}

#[test]
fn an_invalid_first_response_leads_to_exactly_one_repair() {
    let request = first_request(&project(), &vec![screenshot()], None, "vision-model");
    let invalid = "not json with secret text";

    let decision = decide_after_response(
        AnalysisPhase::FirstAttempt,
        AnalysisEvent::Replied { body: invalid.to_owned(), prepared: Err(AnalysisError::InvalidJson) },
        &request,
        None,
    );
    let repair = match decision {
        AnalysisDecision::Retry { request } => request,
        _ => panic!("expected a repair request"),
    };
    assert_eq!(repair.model, "vision-model");
    assert_eq!(repair.images.len(), 1);
    assert!(!repair.prompt.contains(invalid));
    assert!(repair.prompt.contains("Validation error: model response was not valid JSON"));
    assert!(repair.prompt.contains("Previous response byte length: 25"));
    assert_eq!(repair.prompt, repair_prompt(invalid, "model response was not valid JSON", None));

    let second = decide_after_response(
        AnalysisPhase::RepairAttempt,
        AnalysisEvent::Replied { body: invalid.to_owned(), prepared: Err(AnalysisError::InvalidSpec) },
        &repair,
        None,
    );
    assert!(matches!(second, AnalysisDecision::Fail { error: AnalysisError::InvalidSpec }));
}

#[test]
fn valid_responses_are_persisted_and_failures_end_the_analysis() {
    let request = first_request(&project(), &vec![screenshot()], None, "m");
    let spec = prepare_response(ParsedResponse::Spec(model_spec(SHOT)), &project(), PROVIDER, "m", &vec![SHOT]).unwrap();

    let first = decide_after_response(
        AnalysisPhase::FirstAttempt,
        AnalysisEvent::Replied { body: "{}".to_owned(), prepared: Ok(spec.clone()) },
        &request,
        None,
    );
    assert!(matches!(first, AnalysisDecision::Persist { repair_attempted: false, .. }));

    let repaired = decide_after_response(
        AnalysisPhase::RepairAttempt,
        AnalysisEvent::Replied { body: "{}".to_owned(), prepared: Ok(spec) },
        &request,
        None,
    );
    assert!(matches!(repaired, AnalysisDecision::Persist { repair_attempted: true, .. }));

    let failed = decide_after_response(
        AnalysisPhase::FirstAttempt,
        AnalysisEvent::ProviderFailed(ProviderError::RateLimited),
        &request,
        None,
    );
    assert!(matches!(
        failed,
        AnalysisDecision::Fail { error: AnalysisError::Provider(ProviderError::RateLimited) }
    ));
}

#[test]
fn analysis_errors_read_as_their_messages() {
    assert_eq!(AnalysisError::InvalidJson.message(), "model response was not valid JSON");
    assert_eq!(AnalysisError::InvalidSpec.message(), "model response failed schema validation");
    assert_eq!(AnalysisError::Refine("x".to_owned()).message(), "refinement failed: x");
    assert_eq!(
        AnalysisError::Repository("gone".to_owned()).message(),
        "repository operation failed: gone"
    );
    assert_eq!(AnalysisError::Provider(ProviderError::Timeout).message(), "provider operation failed");
}
