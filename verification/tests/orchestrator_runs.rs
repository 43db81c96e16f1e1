//! Whole analysis runs, driven through the decision function the way the
//! application's orchestrator drives it: each reply is prepared, the decision
//! says whether to persist, to send the single repair request, or to fail.

use design_extractor::analysis::orchestrator::{
    decide_after_response, first_request, prepare_response, AnalysisDecision, AnalysisError,
    AnalysisEvent, AnalysisPhase, AnalysisProject, AnalysisScreenshot, ParsedResponse,
};
use design_extractor::model::{DesignSpec, Evidence, Platform, Rule, RuleKind, RuleScope, RuleSource, RuleStatus};
use design_extractor::providers::client::{AnalysisImage, AnalysisRequest};
use design_extractor::providers::error::ProviderError;

const PROJECT_ID: u128 = 0xaaaaaaaa_aaaa_aaaa_aaaa_aaaaaaaaaaaa;
const PROVIDER_ID: u128 = 0xbbbbbbbb_bbbb_bbbb_bbbb_bbbbbbbbbbbb;
const SCREENSHOT_ID: u128 = 0xcccccccc_cccc_cccc_cccc_cccccccccccc;
const EVIDENCE_ID: u128 = 0xdddddddd_dddd_dddd_dddd_dddddddddddd;
const RULE_ID: u128 = 0xeeeeeeee_eeee_eeee_eeee_eeeeeeeeeeee;

/// A reply of the provider: the text and how it parsed, or a failure.
type Reply = Result<(String, ParsedResponse), ProviderError>;

struct Run {
    requests: Vec<AnalysisRequest>,
    persisted: Vec<DesignSpec>,
    outcome: Result<(DesignSpec, bool), AnalysisError>,
}

fn project() -> AnalysisProject {
    AnalysisProject { id: PROJECT_ID, platform: Platform::Web, target_product_type: "SaaS dashboard".to_owned() }
}

fn screenshots() -> Vec<AnalysisScreenshot> {
    vec![AnalysisScreenshot {
        id: SCREENSHOT_ID,
        page_name: "Home".to_owned(),
        scene: "Logged-in dashboard".to_owned(),
        media_type: "image/png".to_owned(),
        bytes: vec![1, 2, 3],
    }]
}

fn copy_of(request: &AnalysisRequest) -> AnalysisRequest {
    AnalysisRequest {
        model: request.model.clone(),
        prompt: request.prompt.clone(),
        json_schema: None,
        images: request
            .images
            .iter()
            .map(|image| AnalysisImage { media_type: image.media_type.clone(), bytes: image.bytes.clone() })
            .collect(),
    }
}

fn run(replies: Vec<Reply>) -> Run {
    let project = project();
    let ids = vec![SCREENSHOT_ID];
    let mut replies = replies.into_iter();
    let mut requests = Vec::new();
    let mut persisted = Vec::new();
    let mut phase = AnalysisPhase::FirstAttempt;
    let mut request = first_request(&project, &screenshots(), None, "vision-model");
    loop {
        requests.push(copy_of(&request));
        let event = match replies.next().expect("the provider was asked once too often") {
            Err(error) => AnalysisEvent::ProviderFailed(error),
            Ok((body, parsed)) => AnalysisEvent::Replied {
                body,
                prepared: prepare_response(parsed, &project, PROVIDER_ID, "vision-model", &ids),
            },
        };
        match decide_after_response(phase, event, &request, None) {
            AnalysisDecision::Persist { spec, repair_attempted } => {
                persisted.push(spec.clone());
                return Run { requests, persisted, outcome: Ok((spec, repair_attempted)) };
            }
            AnalysisDecision::Retry { request: next } => {
                request = next;
                phase = AnalysisPhase::RepairAttempt;
            }
            AnalysisDecision::Fail { error } => return Run { requests, persisted, outcome: Err(error) },
        }
    }
}

fn valid_spec() -> DesignSpec {
    let mut spec = DesignSpec::empty("aaaaaaaa-aaaa-aaaa-aaaa-aaaaaaaaaaaa");
    spec.metadata.platform = Platform::Web;
    spec.metadata.source_screenshot_ids = vec![SCREENSHOT_ID];
    spec.evidence = vec![Evidence {
        id: EVIDENCE_ID,
        screenshot_id: SCREENSHOT_ID,
        region: None,
        description: "Visible primary button and card layout".to_owned(),
    }];
    spec.tokens = vec![Rule {
        id: RULE_ID,
        category: "Color".to_owned(),
        statement: "Primary actions use a vivid blue accent.".to_owned(),
        kind: RuleKind::Pattern,
        scope: RuleScope::Global,
        value: None,
        evidence_ids: vec![EVIDENCE_ID],
        confidence: 0.42f32.to_bits(),
        status: RuleStatus::Accepted,
        source: RuleSource::Model,
    }];
    spec
}

fn valid_reply() -> Reply {
    Ok(("{\"metadata\":{}}".to_owned(), ParsedResponse::Spec(valid_spec())))
}

fn not_json(body: &str) -> Reply {
    Ok((body.to_owned(), ParsedResponse::NotJson))
}

#[test]
fn valid_first_response_creates_one_persisted_spec_version_with_provenance() {
    let run = run(vec![valid_reply()]);

    let (spec, repair_attempted) = run.outcome.unwrap();
    assert!(!repair_attempted);
    assert_eq!(run.persisted.len(), 1);
    assert_eq!(spec.metadata.provider_id.as_deref(), Some("bbbbbbbb-bbbb-bbbb-bbbb-bbbbbbbbbbbb"));
    assert_eq!(spec.metadata.model.as_deref(), Some("vision-model"));
    assert_eq!(spec.metadata.project_id, "aaaaaaaa-aaaa-aaaa-aaaa-aaaaaaaaaaaa");
    assert_eq!(spec.metadata.source_screenshot_ids, vec![SCREENSHOT_ID]);

    let prompt = &run.requests[0].prompt;
    assert!(prompt.contains("Analyze only visible design evidence."));
    assert!(prompt.contains("Do not copy or emit brand names"));
    assert!(prompt.contains("Return only JSON matching the supplied schema."));
    assert!(prompt.contains("SaaS dashboard"));
    assert!(prompt.contains("cccccccc-cccc-cccc-cccc-cccccccccccc"));
    assert!(prompt.contains("Home"));
    assert!(prompt.contains("Logged-in dashboard"));
    assert!(!prompt.contains("D:\\"));
    assert!(!prompt.contains("/tmp/"));
}

#[test]
fn invalid_json_triggers_exactly_one_repair_request_and_persists_repaired_spec() {
    let run = run(vec![not_json("not json"), valid_reply()]);

    let (_, repair_attempted) = run.outcome.unwrap();
    assert!(repair_attempted);
    assert_eq!(run.requests.len(), 2);
    assert!(run.requests[1].prompt.contains("Repair"));
    assert_eq!(run.persisted.len(), 1);
}

#[test]
fn repair_request_restates_privacy_rules_without_echoing_invalid_output() {
    let run = run(vec![not_json("BrandName customer@example.com D:\\secret\\shot.png"), valid_reply()]);

    assert!(run.outcome.unwrap().1);
    let repair_prompt = &run.requests[1].prompt;
    assert!(repair_prompt.contains("Do not copy or emit brand names"));
    assert!(repair_prompt.contains("customer data"));
    assert!(repair_prompt.contains("Return only JSON matching the supplied schema."));
    assert!(!repair_prompt.contains("BrandName"));
    assert!(!repair_prompt.contains("customer@example.com"));
    assert!(!repair_prompt.contains("D:\\secret"));
}

#[test]
fn invalid_repaired_output_creates_no_formal_version() {
    let run = run(vec![not_json("not json"), not_json("{")]);

    assert_eq!(run.outcome.unwrap_err(), AnalysisError::InvalidJson);
    assert!(run.persisted.is_empty());
}

#[test]
fn valid_json_with_invalid_design_spec_shape_is_invalid_spec_not_invalid_json() {
    let shape = || Ok(("{\"metadata\":[]}".to_owned(), ParsedResponse::WrongShape));
    let run = run(vec![shape(), shape()]);

    assert_eq!(run.outcome.unwrap_err(), AnalysisError::InvalidSpec);
    assert!(run.persisted.is_empty());
}

#[test]
fn missing_evidence_ids_fail_validation_and_do_not_persist() {
    let missing = || {
        let mut spec = valid_spec();
        spec.tokens[0].evidence_ids = vec![0x11111111_1111_1111_1111_111111111111];
        Ok(("{}".to_owned(), ParsedResponse::Spec(spec)))
    };
    let run = run(vec![missing(), missing()]);

    assert_eq!(run.outcome.unwrap_err(), AnalysisError::InvalidSpec);
    assert_eq!(run.requests.len(), 2);
    assert!(run.persisted.is_empty());
}

#[test]
fn evidence_from_unselected_screenshot_fails_validation_and_does_not_persist() {
    let foreign = || {
        let mut spec = valid_spec();
        spec.evidence[0].screenshot_id = 0x22222222_2222_2222_2222_222222222222;
        Ok(("{}".to_owned(), ParsedResponse::Spec(spec)))
    };
    let run = run(vec![foreign(), foreign()]);

    assert_eq!(run.outcome.unwrap_err(), AnalysisError::InvalidSpec);
    assert!(run.persisted.is_empty());
}

#[test]
fn low_confidence_model_findings_remain_pending_for_user_adjustment() {
    let run = run(vec![valid_reply()]);

    let (spec, _) = run.outcome.unwrap();
    assert_eq!(f32::from_bits(spec.tokens[0].confidence), 0.42);
    assert_eq!(spec.tokens[0].status, RuleStatus::Pending);
}

#[test]
fn conflicting_model_findings_remain_pending_for_user_adjustment() {
    let mut spec = valid_spec();
    let mut conflicting = spec.tokens[0].clone();
    conflicting.id = 0x99999999_9999_9999_9999_999999999999;
    conflicting.statement = "Primary actions use a muted gray treatment.".to_owned();
    conflicting.confidence = 0.91f32.to_bits();
    conflicting.status = RuleStatus::Accepted;
    spec.tokens.push(conflicting);
    let run = run(vec![Ok(("{}".to_owned(), ParsedResponse::Spec(spec)))]);

    let (spec, _) = run.outcome.unwrap();
    assert_eq!(spec.tokens.len(), 2);
    assert!(spec.tokens.iter().all(|rule| rule.status == RuleStatus::Pending));
}

#[test]
fn provider_failure_creates_no_version_and_preserves_project_state() {
    let run = run(vec![Err(ProviderError::RateLimited)]);

    assert_eq!(run.outcome.unwrap_err(), AnalysisError::Provider(ProviderError::RateLimited));
    assert!(run.persisted.is_empty());
    assert_eq!(run.requests.len(), 1);
}
