use design_extractor::model::{DesignSpec, Evidence, EvidenceRegion, Rule, RuleKind, RuleStatus, Uncertainty};
use design_extractor::validation::ValidationIssue;

fn fresh_id() -> u128 {
    uuid::Uuid::new_v4().as_u128()
}

#[test]
fn empty_spec_uses_schema_version_one() {
    let spec = DesignSpec::empty("project-1");

    assert_eq!(spec.metadata.schema_version, "1.0");
}

#[test]
fn confidence_must_be_between_zero_and_one() {
    let mut spec = DesignSpec::empty("project-1");
    spec.intent.push(Rule::new(
        "color",
        "Use the accent color only for interactive emphasis.",
        RuleKind::Pattern,
        1.2f32.to_bits(),
    ));

    assert!(spec.validate().is_err());
}

#[test]
fn rejected_rules_are_not_exportable() {
    let mut rule = Rule::new(
        "layout",
        "Use a compact information density.",
        RuleKind::Recommendation,
        0.8f32.to_bits(),
    );
    rule.status = RuleStatus::Rejected;

    assert!(!rule.is_exportable());
}

#[test]
fn blank_rule_statements_are_rejected() {
    let mut spec = DesignSpec::empty("project-1");
    spec.intent.push(Rule::new("color", " \n\t", RuleKind::Observation, 0.7f32.to_bits()));

    let error = spec.validate().unwrap_err();

    assert!(error
        .issues
        .iter()
        .any(|issue| matches!(issue, ValidationIssue::BlankRuleStatement { .. })));
}

#[test]
fn blank_uncertainty_statements_are_rejected() {
    let mut spec = DesignSpec::empty("project-1");
    spec.uncertainties.push(Uncertainty {
        id: fresh_id(),
        statement: "   ".to_owned(),
        evidence_ids: Vec::new(),
    });

    let error = spec.validate().unwrap_err();

    assert!(error
        .issues
        .iter()
        .any(|issue| matches!(issue, ValidationIssue::BlankUncertaintyStatement { .. })));
}

#[test]
fn duplicate_ids_across_entity_types_are_rejected() {
    let duplicate_id = fresh_id();
    let mut rule = Rule::new("color", "Prefer blue.", RuleKind::Observation, 0.7f32.to_bits());
    rule.id = duplicate_id;
    let mut spec = DesignSpec::empty("project-1");
    spec.intent.push(rule);
    spec.evidence.push(Evidence {
        id: duplicate_id,
        screenshot_id: fresh_id(),
        region: None,
        description: "Blue control".to_owned(),
    });

    let error = spec.validate().unwrap_err();

    assert!(error
        .issues
        .iter()
        .any(|issue| matches!(issue, ValidationIssue::DuplicateId { id } if *id == duplicate_id)));
}

#[test]
fn missing_evidence_references_are_rejected() {
    let missing_id = fresh_id();
    let mut rule = Rule::new("color", "Prefer blue.", RuleKind::Pattern, 0.7f32.to_bits());
    rule.evidence_ids.push(missing_id);
    let mut spec = DesignSpec::empty("project-1");
    spec.intent.push(rule);

    let error = spec.validate().unwrap_err();

    assert!(error.issues.iter().any(|issue| {
        matches!(
            issue,
            ValidationIssue::MissingEvidence { evidence_id, .. } if *evidence_id == missing_id
        )
    }));
}

#[test]
fn unsupported_schema_major_is_rejected() {
    let mut spec = DesignSpec::empty("project-1");
    spec.metadata.schema_version = "2.0".to_owned();

    let error = spec.validate().unwrap_err();

    assert!(error
        .issues
        .iter()
        .any(|issue| matches!(issue, ValidationIssue::UnsupportedSchemaVersion { .. })));
}

#[test]
fn invalid_evidence_regions_are_rejected() {
    let evidence_id = fresh_id();
    let mut spec = DesignSpec::empty("project-1");
    spec.evidence.push(Evidence {
        id: evidence_id,
        screenshot_id: fresh_id(),
        region: Some(EvidenceRegion {
            x: 0.8f32.to_bits(),
            y: 0.0f32.to_bits(),
            width: 0.3f32.to_bits(),
            height: f32::INFINITY.to_bits(),
        }),
        description: "Invalid crop".to_owned(),
    });

    let error = spec.validate().unwrap_err();

    assert!(error.issues.iter().any(
        |issue| matches!(issue, ValidationIssue::InvalidRegion { evidence_id: id } if *id == evidence_id)
    ));
}

#[test]
fn nan_confidence_is_rejected() {
    let mut spec = DesignSpec::empty("project-1");
    spec.intent.push(Rule::new(
        "color",
        "Prefer blue.",
        RuleKind::Observation,
        f32::NAN.to_bits(),
    ));

    let error = spec.validate().unwrap_err();

    assert!(error
        .issues
        .iter()
        .any(|issue| matches!(issue, ValidationIssue::InvalidConfidence { .. })));
}

#[test]
fn schema_major_accepts_minor_versions_and_leading_zeros() {
    let mut spec = DesignSpec::empty("project-1");
    for version in ["1", "1.2", "01.0", "+1.5", "1.x"] {
        spec.metadata.schema_version = version.to_owned();
        assert!(spec.validate().is_ok(), "{version}");
    }
    for version in ["", "2", "10.1", "-1.0", " 1.0", "1 .0"] {
        spec.metadata.schema_version = version.to_owned();
        assert!(spec.validate().is_err(), "{version}");
    }
}

#[test]
fn regions_at_the_edges_are_valid_and_past_them_invalid() {
    let mut spec = DesignSpec::empty("project-1");
    spec.evidence.push(Evidence {
        id: 1,
        screenshot_id: 2,
        region: Some(EvidenceRegion {
            x: 0.25f32.to_bits(),
            y: 0.0f32.to_bits(),
            width: 0.75f32.to_bits(),
            height: 1.0f32.to_bits(),
        }),
        description: "Full height".to_owned(),
    });
    assert!(spec.validate().is_ok());

    spec.evidence[0].region = Some(EvidenceRegion {
        x: 0.5f32.to_bits(),
        y: 0.0f32.to_bits(),
        width: 0.6f32.to_bits(),
        height: 0.5f32.to_bits(),
    });
    assert!(spec.validate().is_err());

    spec.evidence[0].region = Some(EvidenceRegion {
        x: (-0.0f32).to_bits(),
        y: 0.0f32.to_bits(),
        width: 0.5f32.to_bits(),
        height: 0.5f32.to_bits(),
    });
    assert!(spec.validate().is_ok());
}

#[test]
fn every_issue_is_reported_in_order() {
    let mut spec = DesignSpec::empty("project-1");
    spec.metadata.schema_version = "3.0".to_owned();
    let mut rule = Rule::new("color", "  ", RuleKind::Pattern, 2.0f32.to_bits());
    rule.id = 7;
    rule.evidence_ids = vec![8];
    spec.intent.push(rule);
    spec.uncertainties.push(Uncertainty { id: 7, statement: "Unsure".to_owned(), evidence_ids: vec![] });

    let issues = spec.validate().unwrap_err().issues;

    assert_eq!(
        issues,
        vec![
            ValidationIssue::UnsupportedSchemaVersion { schema_version: "3.0".to_owned() },
            ValidationIssue::BlankRuleStatement { rule_id: 7 },
            ValidationIssue::InvalidConfidence { rule_id: 7, confidence: 2.0f32.to_bits() },
            ValidationIssue::MissingEvidence { owner_id: 7, evidence_id: 8 },
            ValidationIssue::DuplicateId { id: 7 },
        ]
    );
}
