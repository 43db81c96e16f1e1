//! The provider-neutral design specification model.
//!
//! Identifiers are 128-bit UUID values, single-precision numbers are kept as
//! their IEEE-754 bit patterns (see `binary32`), and a rule's semantic value
//! is kept as its compact JSON text.

use vstd::prelude::*;
use crate::ids::new_random_id;

verus! {

#[derive(Debug, Clone, Copy, PartialEq, Eq, Structural)]
pub enum RuleKind {
    Observation,
    Pattern,
    Recommendation,
}

#[derive(Debug, Clone, Copy, PartialEq, Eq, Structural)]
pub enum RuleStatus {
    Pending,
    Accepted,
    Edited,
    Rejected,
}

#[derive(Debug, Clone, Copy, PartialEq, Eq, Structural)]
pub enum RuleScope {
    Global,
    Platform,
    PageType,
    Component,
}

#[derive(Debug, Clone, Copy, PartialEq, Eq, Structural)]
pub enum RuleSource {
    Model,
    User,
}

#[derive(Debug, Clone, Copy, PartialEq, Eq, Structural)]
pub enum Platform {
    Web,
    Desktop,
    Mobile,
    CrossPlatform,
}

/// Where in a screenshot a piece of evidence lies, as fractions of the
/// screenshot's width and height (binary32 bit patterns).
#[derive(Debug, Clone, Copy, PartialEq, Eq, Structural)]
pub struct EvidenceRegion {
    pub x: u32,
    pub y: u32,
    pub width: u32,
    pub height: u32,
}

#[derive(Debug, Clone, PartialEq)]
pub struct Evidence {
    pub id: u128,
    pub screenshot_id: u128,
    pub region: Option<EvidenceRegion>,
    pub description: String,
}

#[derive(Debug, Clone, PartialEq)]
pub struct Uncertainty {
    pub id: u128,
    pub statement: String,
    pub evidence_ids: Vec<u128>,
}

/// One design rule. `confidence` is the binary32 bit pattern of a number that
/// a valid specification keeps in `[0, 1]`; `value`, when present, is the
/// compact JSON text of the rule's semantic value.
#[derive(Debug, Clone, PartialEq)]
pub struct Rule {
    pub id: u128,
    pub category: String,
    pub statement: String,
    pub kind: RuleKind,
    pub scope: RuleScope,
    pub value: Option<String>,
    pub evidence_ids: Vec<u128>,
    pub confidence: u32,
    pub status: RuleStatus,
    pub source: RuleSource,
}

/// Provenance and policy of a specification. `created_at` is an RFC 3339
/// timestamp.
#[derive(Debug, Clone, PartialEq)]
pub struct Metadata {
    pub schema_version: String,
    pub project_id: String,
    pub platform: Platform,
    pub provider_id: Option<String>,
    pub model: Option<String>,
    pub source_screenshot_ids: Vec<u128>,
    pub excluded_terms: Vec<String>,
    pub created_at: String,
}

#[derive(Debug, Clone, PartialEq)]
pub struct DesignSpec {
    pub metadata: Metadata,
    pub intent: Vec<Rule>,
    pub tokens: Vec<Rule>,
    pub layout: Vec<Rule>,
    pub components: Vec<Rule>,
    pub assets: Vec<Rule>,
    pub motion: Vec<Rule>,
    pub constraints: Vec<Rule>,
    pub evidence: Vec<Evidence>,
    pub uncertainties: Vec<Uncertainty>,
}

/// Every rule of a specification, section by section in the fixed order
/// intent, tokens, layout, components, assets, motion, constraints.
pub open spec fn all_rules(spec: DesignSpec) -> Seq<Rule> {
    spec.intent@ + spec.tokens@ + spec.layout@ + spec.components@ + spec.assets@ + spec.motion@
        + spec.constraints@
}

/// A rule appears in exported Markdown exactly when it was accepted or edited.
pub open spec fn exportable(rule: Rule) -> bool {
    rule.status == RuleStatus::Accepted || rule.status == RuleStatus::Edited
}

/// The current time as an RFC 3339 timestamp (`chrono::Utc::now`). Nothing is
/// promised of its value.
#[verifier::external_body]
pub(crate) fn now_rfc3339() -> String {
    chrono::Utc::now().to_rfc3339()
}

impl Rule {
    /// A pending, model-sourced, global rule with a fresh random identifier,
    /// no value and no evidence.
    pub fn new(category: &str, statement: &str, kind: RuleKind, confidence: u32) -> (r: Rule)
        ensures
            r.category@ == category@,
            r.statement@ == statement@,
            r.kind == kind,
            r.scope == RuleScope::Global,
            r.value.is_none(),
            r.evidence_ids@.len() == 0,
            r.confidence == confidence,
            r.status == RuleStatus::Pending,
            r.source == RuleSource::Model,
    {
        Rule {
            id: new_random_id(),
            category: category.to_owned(),
            statement: statement.to_owned(),
            kind,
            scope: RuleScope::Global,
            value: None,
            evidence_ids: Vec::new(),
            confidence,
            status: RuleStatus::Pending,
            source: RuleSource::Model,
        }
    }

    /// Whether the rule belongs in exported Markdown.
    pub fn is_exportable(&self) -> (r: bool)
        ensures
            r == exportable(*self),
    {
        match self.status {
            RuleStatus::Accepted | RuleStatus::Edited => true,
            _ => false,
        }
    }
}

impl DesignSpec {
    /// An empty specification for a project: schema version `1.0`, a
    /// cross-platform target, no provenance, no rules, evidence or
    /// uncertainties, created now.
    pub fn empty(project_id: &str) -> (spec: DesignSpec)
        ensures
            spec.metadata.schema_version@ == seq!['1', '.', '0'],
            spec.metadata.project_id@ == project_id@,
            spec.metadata.platform == Platform::CrossPlatform,
            spec.metadata.provider_id.is_none(),
            spec.metadata.model.is_none(),
            spec.metadata.source_screenshot_ids@.len() == 0,
            spec.metadata.excluded_terms@.len() == 0,
            all_rules(spec).len() == 0,
            spec.intent@.len() == 0,
            spec.tokens@.len() == 0,
            spec.layout@.len() == 0,
            spec.components@.len() == 0,
            spec.assets@.len() == 0,
            spec.motion@.len() == 0,
            spec.constraints@.len() == 0,
            spec.evidence@.len() == 0,
            spec.uncertainties@.len() == 0,
    {
        let version = "1.0";
        proof {
            reveal_strlit("1.0");
        }
        DesignSpec {
            metadata: Metadata {
                schema_version: version.to_owned(),
                project_id: project_id.to_owned(),
                platform: Platform::CrossPlatform,
                provider_id: None,
                model: None,
                source_screenshot_ids: Vec::new(),
                excluded_terms: Vec::new(),
                created_at: now_rfc3339(),
            },
            intent: Vec::new(),
            tokens: Vec::new(),
            layout: Vec::new(),
            components: Vec::new(),
            assets: Vec::new(),
            motion: Vec::new(),
            constraints: Vec::new(),
            evidence: Vec::new(),
            uncertainties: Vec::new(),
        }
    }
}

} // verus!
