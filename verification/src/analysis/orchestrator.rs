//! Analysis decisions: the first request, preparation of a parsed model
//! response, and what to do after each response (persist, repair once, or
//! fail).
//!
//! The surrounding driver performs the provider calls, parses JSON text into
//! a `DesignSpec`, and persists; every decision it acts on is made here.

use vstd::prelude::*;
use crate::analysis::prompt::{analysis_prompt_text, build_analysis_prompt};
use crate::analysis::repair::{repair_prompt, repair_prompt_text};
use crate::ids::{hyphenated, id_to_string};
use crate::model::{all_rules, now_rfc3339, DesignSpec, Metadata, Platform, Rule, RuleStatus};
use crate::providers::client::{AnalysisImage, AnalysisRequest};
use crate::providers::error::ProviderError;
use crate::text::{chars_of, occurs_at, push_str, string_of, trim, trim_chars};
use crate::validation::validation_issues;
use vstd::string::StringSliceAdditionalSpecFns;

verus! {

#[derive(Debug, Clone, PartialEq, Eq)]
pub struct AnalysisProject {
    pub id: u128,
    pub platform: Platform,
    pub target_product_type: String,
}

#[derive(Debug, Clone, PartialEq, Eq)]
pub struct AnalysisScreenshot {
    pub id: u128,
    pub page_name: String,
    pub scene: String,
    pub media_type: String,
    pub bytes: Vec<u8>,
}

/// A persisted, validated specification version.
#[derive(Debug, Clone)]
pub struct StoredSpecVersion {
    pub id: u128,
    pub spec: DesignSpec,
    pub provider_id: u128,
    pub model: String,
}

#[derive(Debug, Clone)]
pub struct AnalysisOutcome {
    pub version_id: u128,
    pub spec: DesignSpec,
    pub repair_attempted: bool,
}

#[derive(Debug, Clone, PartialEq)]
pub enum AnalysisError {
    Repository(String),
    Provider(ProviderError),
    InvalidJson,
    InvalidSpec,
    Refine(String),
}

/// The human-readable text of an analysis error.
pub open spec fn analysis_error_message(e: AnalysisError) -> Seq<char> {
    match e {
        AnalysisError::Repository(m) => "repository operation failed: "@ + m@,
        AnalysisError::Provider(_) => "provider operation failed"@,
        AnalysisError::InvalidJson => "model response was not valid JSON"@,
        AnalysisError::InvalidSpec => "model response failed schema validation"@,
        AnalysisError::Refine(m) => "refinement failed: "@ + m@,
    }
}

impl AnalysisError {
    pub fn message(&self) -> (s: String)
        ensures
            s@ == analysis_error_message(*self),
    {
        let mut s = String::new();
        match self {
            AnalysisError::Repository(m) => {
                push_str(&mut s, "repository operation failed: ");
                push_str(&mut s, m.as_str());
            },
            AnalysisError::Provider(_) => push_str(&mut s, "provider operation failed"),
            AnalysisError::InvalidJson => push_str(&mut s, "model response was not valid JSON"),
            AnalysisError::InvalidSpec => push_str(&mut s, "model response failed schema validation"),
            AnalysisError::Refine(m) => {
                push_str(&mut s, "refinement failed: ");
                push_str(&mut s, m.as_str());
            },
        }
        assert(s@ =~= analysis_error_message(*self));
        s
    }
}

// ----- JSON text in a model response -----

pub open spec fn starts_with(s: Seq<char>, p: Seq<char>) -> bool {
    p.len() <= s.len() && s.take(p.len() as int) == p
}

/// Position of the first `c` at or after `i`.
pub open spec fn first_index_from(s: Seq<char>, c: char, i: int) -> Option<int>
    decreases s.len() - i,
{
    if i < 0 || i >= s.len() {
        None
    } else if s[i] == c {
        Some(i)
    } else {
        first_index_from(s, c, i + 1)
    }
}

/// Position of the last occurrence of `needle` that starts at or before `end`.
pub open spec fn last_occurrence_upto(s: Seq<char>, needle: Seq<char>, end: int) -> Option<int>
    decreases end + 1,
{
    if end < 0 {
        None
    } else if occurs_at(s, needle, end) {
        Some(end)
    } else {
        last_occurrence_upto(s, needle, end - 1)
    }
}

/// `str::rfind`.
pub open spec fn last_occurrence(s: Seq<char>, needle: Seq<char>) -> Option<int> {
    last_occurrence_upto(s, needle, s.len() - needle.len())
}

/// The JSON text of a model response: the trimmed body, or, when the body is
/// a Markdown code fence, the trimmed text between the line that opens the
/// fence and the last closing fence.
pub open spec fn json_text(body: Seq<char>) -> Option<Seq<char>> {
    let t = trim(body);
    if !starts_with(t, "```"@) {
        Some(t)
    } else {
        match first_index_from(t, '\n', 0) {
            None => None,
            Some(nl) => {
                let after = t.skip(nl + 1);
                match last_occurrence(after, "```"@) {
                    None => None,
                    Some(close) => Some(trim(after.take(close))),
                }
            },
        }
    }
}

fn first_index(s: &Vec<char>, c: char) -> (r: Option<usize>)
    ensures
        match r {
            Some(i) => i < s.len() && first_index_from(s@, c, 0) == Some(i as int),
            None => first_index_from(s@, c, 0) is None,
        },
{
    let mut i: usize = 0;
    while i < s.len()
        invariant
            i <= s@.len(),
            first_index_from(s@, c, 0) == first_index_from(s@, c, i as int),
        decreases s@.len() - i,
    {
        if s[i] == c {
            return Some(i);
        }
        i = i + 1;
    }
    None
}

fn fence_at(s: &Vec<char>, i: usize) -> (r: bool)
    requires
        i + 3 <= s.len(),
    ensures
        r == occurs_at(s@, "```"@, i as int),
{
    proof {
        reveal_strlit("```");
    }
    let r = s[i] == '`' && s[i + 1] == '`' && s[i + 2] == '`';
    assert(r ==> s@.subrange(i as int, i + 3) =~= "```"@);
    assert(!r ==> s@.subrange(i as int, i + 3) != "```"@) by {
        if !r {
            if s@[i as int] != '`' {
                assert(s@.subrange(i as int, i + 3)[0] != "```"@[0]);
            } else if s@[i + 1] != '`' {
                assert(s@.subrange(i as int, i + 3)[1] != "```"@[1]);
            } else {
                assert(s@.subrange(i as int, i + 3)[2] != "```"@[2]);
            }
        }
    }
    r
}

fn last_fence(s: &Vec<char>) -> (r: Option<usize>)
    ensures
        match r {
            Some(i) => i + 3 <= s.len() && last_occurrence(s@, "```"@) == Some(i as int),
            None => last_occurrence(s@, "```"@) is None,
        },
{
    proof {
        reveal_strlit("```");
    }
    if s.len() < 3 {
        assert(last_occurrence_upto(s@, "```"@, s@.len() - 3) is None);
        return None;
    }
    let mut end: usize = s.len() - 3;
    loop
        invariant
            end + 3 <= s.len(),
            last_occurrence(s@, "```"@) == last_occurrence_upto(s@, "```"@, end as int),
        decreases end,
    {
        if fence_at(s, end) {
            return Some(end);
        }
        if end == 0 {
            assert(last_occurrence_upto(s@, "```"@, -1) is None);
            return None;
        }
        end = end - 1;
    }
}

/// Extracts the JSON text of a model response.
pub fn extract_json(body: &str) -> (r: Option<String>)
    ensures
        match r {
            Some(s) => json_text(body@) == Some(s@),
            None => json_text(body@) is None,
        },
{
    proof {
        reveal_strlit("```");
    }
    let t = trim_chars(&chars_of(body));
    if !(t.len() >= 3 && fence_at(&t, 0)) {
        assert(starts_with(t@, "```"@) ==> occurs_at(t@, "```"@, 0));
        return Some(string_of(&t));
    }
    assert(t@.take(3) =~= t@.subrange(0, 3));
    let nl = match first_index(&t, '\n') {
        Some(i) => i,
        None => {
            return None;
        },
    };
    let mut after: Vec<char> = Vec::new();
    let mut k: usize = nl + 1;
    while k < t.len()
        invariant
            nl < k <= t@.len(),
            after@ == t@.subrange(nl + 1, k as int),
        decreases t@.len() - k,
    {
        after.push(t[k]);
        k = k + 1;
        assert(after@ =~= t@.subrange(nl + 1, k as int));
    }
    assert(after@ =~= t@.skip(nl + 1));
    let close = match last_fence(&after) {
        Some(c) => c,
        None => {
            return None;
        },
    };
    let mut inner: Vec<char> = Vec::new();
    let mut j: usize = 0;
    while j < close
        invariant
            j <= close,
            close + 3 <= after@.len(),
            inner@ == after@.take(j as int),
        decreases close - j,
    {
        inner.push(after[j]);
        j = j + 1;
        assert(inner@ =~= after@.take(j as int));
    }
    let trimmed = trim_chars(&inner);
    Some(string_of(&trimmed))
}

// ----- preparing a parsed response -----

/// The rules with every status reset to pending.
pub open spec fn all_pending(rs: Seq<Rule>) -> Seq<Rule> {
    rs.map_values(|r: Rule| Rule { status: RuleStatus::Pending, ..r })
}

/// Every piece of evidence comes from a selected screenshot.
pub open spec fn evidence_selected(spec: DesignSpec, screenshot_ids: Seq<u128>) -> bool {
    forall|i: int|
        0 <= i < spec.evidence@.len() ==> screenshot_ids.contains(
            #[trigger] spec.evidence@[i].screenshot_id,
        )
}

/// `q` is the parsed specification `p` with the analysis provenance attached
/// (project, platform, provider, model, selected screenshots) and every rule
/// pending review; the creation time is the time of preparation.
pub open spec fn prepared_from(
    q: DesignSpec,
    p: DesignSpec,
    project: AnalysisProject,
    provider_id: u128,
    model: Seq<char>,
    screenshot_ids: Seq<u128>,
) -> bool {
    &&& q.metadata.schema_version == p.metadata.schema_version
    &&& q.metadata.project_id@ == hyphenated(project.id)
    &&& q.metadata.platform == project.platform
    &&& (q.metadata.provider_id matches Some(id) && id@ == hyphenated(provider_id))
    &&& (q.metadata.model matches Some(m) && m@ == model)
    &&& q.metadata.source_screenshot_ids@ == screenshot_ids
    &&& q.metadata.excluded_terms == p.metadata.excluded_terms
    &&& q.intent@ == all_pending(p.intent@)
    &&& q.tokens@ == all_pending(p.tokens@)
    &&& q.layout@ == all_pending(p.layout@)
    &&& q.components@ == all_pending(p.components@)
    &&& q.assets@ == all_pending(p.assets@)
    &&& q.motion@ == all_pending(p.motion@)
    &&& q.constraints@ == all_pending(p.constraints@)
    &&& q.evidence == p.evidence
    &&& q.uncertainties == p.uncertainties
}

fn set_all_pending(rules: Vec<Rule>) -> (out: Vec<Rule>)
    ensures
        out@ == all_pending(rules@),
{
    let ghost original = rules@;
    let mut src = rules;
    let mut out: Vec<Rule> = Vec::new();
    while src.len() > 0
        invariant
            out@.len() + src@.len() == original.len(),
            out@ == all_pending(original.take(out@.len() as int)),
            src@ == original.skip(out@.len() as int),
        decreases src@.len(),
    {
        let ghost k: int = out@.len() as int;
        let mut r = src.remove(0);
        r.status = RuleStatus::Pending;
        out.push(r);
        assert(src@ =~= original.skip(k + 1));
        assert(out@ =~= all_pending(original.take(k + 1)));
    }
    assert(original.take(original.len() as int) =~= original);
    out
}

fn copy_ids(ids: &Vec<u128>) -> (out: Vec<u128>)
    ensures
        out@ == ids@,
{
    let mut out: Vec<u128> = Vec::new();
    let mut i: usize = 0;
    while i < ids.len()
        invariant
            i <= ids@.len(),
            out@ == ids@.take(i as int),
        decreases ids@.len() - i,
    {
        out.push(ids[i]);
        i = i + 1;
        assert(out@ =~= ids@.take(i as int));
    }
    assert(ids@.take(ids@.len() as int) =~= ids@);
    out
}

fn all_evidence_selected(spec: &DesignSpec, screenshot_ids: &Vec<u128>) -> (r: bool)
    ensures
        r == evidence_selected(*spec, screenshot_ids@),
{
    let mut i: usize = 0;
    while i < spec.evidence.len()
        invariant
            i <= spec.evidence@.len(),
            forall|j: int|
                0 <= j < i ==> screenshot_ids@.contains(#[trigger] spec.evidence@[j].screenshot_id),
        decreases spec.evidence@.len() - i,
    {
        if !crate::validation::id_in(screenshot_ids, spec.evidence[i].screenshot_id) {
            return false;
        }
        i = i + 1;
    }
    true
}

/// What parsing a model response's JSON text as a specification gave.
pub enum ParsedResponse {
    /// The response held no JSON text, or the text is not JSON.
    NotJson,
    /// The text is JSON but not shaped like a specification.
    WrongShape,
    Spec(DesignSpec),
}

/// Prepares a parsed model response for persistence: `InvalidJson` when the
/// response held no JSON, `InvalidSpec` when it is not shaped like a
/// specification, when the specification fails validation or when it cites
/// evidence from a screenshot that was not selected; otherwise the
/// specification with provenance attached and every rule pending review.
pub fn prepare_response(
    parsed: ParsedResponse,
    project: &AnalysisProject,
    provider_id: u128,
    model: &str,
    screenshot_ids: &Vec<u128>,
) -> (r: Result<DesignSpec, AnalysisError>)
    ensures
        parsed is NotJson ==> r == Err::<DesignSpec, AnalysisError>(AnalysisError::InvalidJson),
        parsed is WrongShape ==> r == Err::<DesignSpec, AnalysisError>(AnalysisError::InvalidSpec),
        parsed matches ParsedResponse::Spec(p) ==> {
            if validation_issues(p).len() == 0 && evidence_selected(p, screenshot_ids@) {
                r matches Ok(q) && prepared_from(q, p, *project, provider_id, model@, screenshot_ids@)
            } else {
                r == Err::<DesignSpec, AnalysisError>(AnalysisError::InvalidSpec)
            }
        },
{
    let p = match parsed {
        ParsedResponse::Spec(p) => p,
        ParsedResponse::NotJson => {
            return Err(AnalysisError::InvalidJson);
        },
        ParsedResponse::WrongShape => {
            return Err(AnalysisError::InvalidSpec);
        },
    };
    match p.validate() {
        Err(_) => {
            return Err(AnalysisError::InvalidSpec);
        },
        Ok(()) => {},
    }
    if !all_evidence_selected(&p, screenshot_ids) {
        return Err(AnalysisError::InvalidSpec);
    }
    let ghost original = p;
    let DesignSpec {
        metadata,
        intent,
        tokens,
        layout,
        components,
        assets,
        motion,
        constraints,
        evidence,
        uncertainties,
    } = p;
    let Metadata { schema_version, excluded_terms, .. } = metadata;
    let q = DesignSpec {
        metadata: Metadata {
            schema_version,
            project_id: id_to_string(project.id),
            platform: project.platform,
            provider_id: Some(id_to_string(provider_id)),
            model: Some(model.to_owned()),
            source_screenshot_ids: copy_ids(screenshot_ids),
            excluded_terms,
            created_at: now_rfc3339(),
        },
        intent: set_all_pending(intent),
        tokens: set_all_pending(tokens),
        layout: set_all_pending(layout),
        components: set_all_pending(components),
        assets: set_all_pending(assets),
        motion: set_all_pending(motion),
        constraints: set_all_pending(constraints),
        evidence,
        uncertainties,
    };
    Ok(q)
}

// ----- requests and decisions -----

/// `imgs` carries the media type and bytes of each screenshot, in order.
pub open spec fn images_of(imgs: Seq<AnalysisImage>, shots: Seq<AnalysisScreenshot>) -> bool {
    &&& imgs.len() == shots.len()
    &&& forall|i: int|
        0 <= i < imgs.len() ==> (#[trigger] imgs[i]).media_type@ == shots[i].media_type@
            && imgs[i].bytes@ == shots[i].bytes@
}

/// `a` carries the same images as `b`.
pub open spec fn same_images(a: Seq<AnalysisImage>, b: Seq<AnalysisImage>) -> bool {
    &&& a.len() == b.len()
    &&& forall|i: int|
        0 <= i < a.len() ==> (#[trigger] a[i]).media_type@ == b[i].media_type@ && a[i].bytes@
            == b[i].bytes@
}

fn copy_bytes(b: &Vec<u8>) -> (out: Vec<u8>)
    ensures
        out@ == b@,
{
    let mut out: Vec<u8> = Vec::new();
    let mut i: usize = 0;
    while i < b.len()
        invariant
            i <= b@.len(),
            out@ == b@.take(i as int),
        decreases b@.len() - i,
    {
        out.push(b[i]);
        i = i + 1;
        assert(out@ =~= b@.take(i as int));
    }
    assert(b@.take(b@.len() as int) =~= b@);
    out
}

fn screenshot_images(shots: &Vec<AnalysisScreenshot>) -> (imgs: Vec<AnalysisImage>)
    ensures
        images_of(imgs@, shots@),
{
    let mut imgs: Vec<AnalysisImage> = Vec::new();
    let mut i: usize = 0;
    while i < shots.len()
        invariant
            i <= shots@.len(),
            imgs@.len() == i,
            forall|j: int|
                0 <= j < i ==> (#[trigger] imgs@[j]).media_type@ == shots@[j].media_type@
                    && imgs@[j].bytes@ == shots@[j].bytes@,
        decreases shots@.len() - i,
    {
        let s = &shots[i];
        imgs.push(AnalysisImage { media_type: s.media_type.clone(), bytes: copy_bytes(&s.bytes) });
        i = i + 1;
    }
    imgs
}

fn copy_images(src: &Vec<AnalysisImage>) -> (imgs: Vec<AnalysisImage>)
    ensures
        same_images(imgs@, src@),
{
    let mut imgs: Vec<AnalysisImage> = Vec::new();
    let mut i: usize = 0;
    while i < src.len()
        invariant
            i <= src@.len(),
            imgs@.len() == i,
            forall|j: int|
                0 <= j < i ==> (#[trigger] imgs@[j]).media_type@ == src@[j].media_type@
                    && imgs@[j].bytes@ == src@[j].bytes@,
        decreases src@.len() - i,
    {
        let s = &src[i];
        imgs.push(AnalysisImage { media_type: s.media_type.clone(), bytes: copy_bytes(&s.bytes) });
        i = i + 1;
    }
    imgs
}

pub open spec fn opt_view(s: Option<&str>) -> Option<Seq<char>> {
    match s {
        Some(t) => Some(t@),
        None => None,
    }
}

/// The first analysis request: the analysis prompt (which carries the
/// schema), every selected screenshot's image, and no structured-output
/// constraint, since providers are asked for plain JSON.
pub fn first_request(
    project: &AnalysisProject,
    screenshots: &Vec<AnalysisScreenshot>,
    schema: Option<&str>,
    model: &str,
) -> (r: AnalysisRequest)
    ensures
        r.model@ == model@,
        r.prompt@ == analysis_prompt_text(
            project.id,
            project.platform,
            project.target_product_type@,
            screenshots@,
            opt_view(schema),
        ),
        r.json_schema is None,
        images_of(r.images@, screenshots@),
{
    let prompt = build_analysis_prompt(
        project.id,
        project.platform,
        project.target_product_type.as_str(),
        screenshots,
        schema,
    );
    AnalysisRequest {
        model: model.to_owned(),
        prompt,
        json_schema: None,
        images: screenshot_images(screenshots),
    }
}

/// Which request a response answers.
#[derive(Debug, Clone, Copy, PartialEq, Eq, Structural)]
pub enum AnalysisPhase {
    FirstAttempt,
    RepairAttempt,
}

/// What happened to a request.
pub enum AnalysisEvent {
    /// The provider call failed.
    ProviderFailed(ProviderError),
    /// The provider replied with `body`, which prepared as `prepared`.
    Replied { body: String, prepared: Result<DesignSpec, AnalysisError> },
}

/// What to do next.
pub enum AnalysisDecision {
    /// Persist this validated specification as a new version.
    Persist { spec: DesignSpec, repair_attempted: bool },
    /// Send this repair request.
    Retry { request: AnalysisRequest },
    /// Give up with this error; nothing is persisted.
    Fail { error: AnalysisError },
}

/// `d` is what follows `event` in `phase`: a provider failure fails the
/// analysis; a prepared specification is persisted; the first invalid
/// response leads to exactly one repair request, which restates the
/// instructions and the error (of the invalid output, only its byte length)
/// and carries the same images and model; an invalid repaired response fails
/// the analysis.
pub open spec fn decision_for(
    phase: AnalysisPhase,
    event: AnalysisEvent,
    request: AnalysisRequest,
    schema: Option<Seq<char>>,
    d: AnalysisDecision,
) -> bool {
    match event {
        AnalysisEvent::ProviderFailed(e) => d == AnalysisDecision::Fail {
            error: AnalysisError::Provider(e),
        },
        AnalysisEvent::Replied { body, prepared } => match prepared {
            Ok(spec) => d == AnalysisDecision::Persist {
                spec,
                repair_attempted: phase == AnalysisPhase::RepairAttempt,
            },
            Err(e) => if phase == AnalysisPhase::FirstAttempt {
                d matches AnalysisDecision::Retry { request: next } && next.model@ == request.model@
                    && next.prompt@ == repair_prompt_text(
                    (vstd::utf8::encode_utf8(body@).len() as usize) as nat,
                    analysis_error_message(e),
                    schema,
                ) && next.json_schema is None && same_images(next.images@, request.images@)
            } else {
                d == AnalysisDecision::Fail { error: e }
            },
        },
    }
}

/// Decides what follows a response (see `decision_for`).
pub fn decide_after_response(
    phase: AnalysisPhase,
    event: AnalysisEvent,
    request: &AnalysisRequest,
    schema: Option<&str>,
) -> (d: AnalysisDecision)
    ensures
        decision_for(phase, event, *request, opt_view(schema), d),
{
    match event {
        AnalysisEvent::ProviderFailed(e) => AnalysisDecision::Fail { error: AnalysisError::Provider(e) },
        AnalysisEvent::Replied { body, prepared } => match prepared {
            Ok(spec) => AnalysisDecision::Persist {
                spec,
                repair_attempted: match phase {
                    AnalysisPhase::FirstAttempt => false,
                    AnalysisPhase::RepairAttempt => true,
                },
            },
            Err(e) => match phase {
                AnalysisPhase::FirstAttempt => {
                    let message = e.message();
                    let prompt = repair_prompt(body.as_str(), message.as_str(), schema);
                    AnalysisDecision::Retry {
                        request: AnalysisRequest {
                            model: request.model.clone(),
                            prompt,
                            json_schema: None,
                            images: copy_images(&request.images),
                        },
                    }
                },
                AnalysisPhase::RepairAttempt => AnalysisDecision::Fail { error: e },
            },
        },
    }
}

// ----- laws -----

/// An analysis asks for at most one repair: after the repair attempt, no
/// response leads to another request.
pub proof fn law_at_most_one_repair(
    event: AnalysisEvent,
    request: AnalysisRequest,
    schema: Option<Seq<char>>,
    d: AnalysisDecision,
)
    requires
        decision_for(AnalysisPhase::RepairAttempt, event, request, schema, d),
    ensures
        !(d is Retry),
        d matches AnalysisDecision::Persist { repair_attempted, .. } ==> repair_attempted,
{
}

/// The repair request never repeats the invalid output: two invalid outputs
/// of the same byte length, refused for the same reason, lead to the same
/// repair prompt.
pub proof fn law_repair_prompt_ignores_output_text(
    body1: String,
    body2: String,
    error: AnalysisError,
    request: AnalysisRequest,
    schema: Option<Seq<char>>,
    d1: AnalysisDecision,
    d2: AnalysisDecision,
)
    requires
        vstd::utf8::encode_utf8(body1@).len() == vstd::utf8::encode_utf8(body2@).len(),
        decision_for(
            AnalysisPhase::FirstAttempt,
            AnalysisEvent::Replied { body: body1, prepared: Err(error) },
            request,
            schema,
            d1,
        ),
        decision_for(
            AnalysisPhase::FirstAttempt,
            AnalysisEvent::Replied { body: body2, prepared: Err(error) },
            request,
            schema,
            d2,
        ),
    ensures
        d1 matches AnalysisDecision::Retry { request: r1 } && d2 matches AnalysisDecision::Retry {
            request: r2,
        } && r1.prompt@ == r2.prompt@,
{
}

/// Every rule of a specification prepared from a model response awaits
/// review.
pub proof fn law_prepared_rules_pending(
    q: DesignSpec,
    p: DesignSpec,
    project: AnalysisProject,
    provider_id: u128,
    model: Seq<char>,
    screenshot_ids: Seq<u128>,
)
    requires
        prepared_from(q, p, project, provider_id, model, screenshot_ids),
    ensures
        forall|i: int|
            0 <= i < all_rules(q).len() ==> (#[trigger] all_rules(q)[i]).status
                == RuleStatus::Pending,
{
    let a = all_rules(q);
    assert forall|i: int| 0 <= i < a.len() implies (#[trigger] a[i]).status == RuleStatus::Pending by {
        let n0 = q.intent@.len();
        let n1 = n0 + q.tokens@.len();
        let n2 = n1 + q.layout@.len();
        let n3 = n2 + q.components@.len();
        let n4 = n3 + q.assets@.len();
        let n5 = n4 + q.motion@.len();
        if i < n0 {
            assert(a[i] == q.intent@[i]);
        } else if i < n1 {
            assert(a[i] == q.tokens@[i - n0]);
        } else if i < n2 {
            assert(a[i] == q.layout@[i - n1]);
        } else if i < n3 {
            assert(a[i] == q.components@[i - n2]);
        } else if i < n4 {
            assert(a[i] == q.assets@[i - n3]);
        } else if i < n5 {
            assert(a[i] == q.motion@[i - n4]);
        } else {
            assert(a[i] == q.constraints@[i - n5]);
        }
    }
}

} // verus!
