//! Inputs of the analysis commands, the preview of what an analysis sends,
//! and the analysis project as the application loads it.

use vstd::prelude::*;
use crate::analysis::orchestrator::{AnalysisError, AnalysisProject};
use crate::commands::parse_uuid;
use crate::ids::{hyphenated, id_to_string, parsed_id};
use crate::storage::projects::{platform_from_str, platform_name};
use crate::text::push_str;

verus! {

pub struct AnalysisSelectionInput {
    pub project_id: String,
    pub provider_id: String,
    pub screenshot_ids: Vec<String>,
}

/// What an analysis would send: to which provider and model, which images,
/// and about how many bytes the encoded images take.
pub struct AnalysisPreview {
    pub provider_name: String,
    pub model: String,
    pub image_ids: Vec<String>,
    pub image_count: usize,
    pub estimated_encoded_bytes: u64,
}

/// The identifiers of an analysis selection: project, provider and
/// screenshots, in order.
pub open spec fn selection_ids(input: AnalysisSelectionInput) -> Option<(u128, u128, Seq<u128>)> {
    match (parsed_id(input.project_id@), parsed_id(input.provider_id@)) {
        (Some(project), Some(provider)) => if forall|i: int|
            0 <= i < input.screenshot_ids@.len() ==> #[trigger] parsed_id(
                input.screenshot_ids@[i]@,
            ) is Some {
            Some(
                (
                    project,
                    provider,
                    Seq::new(
                        input.screenshot_ids@.len(),
                        |i: int| parsed_id(input.screenshot_ids@[i]@)->Some_0,
                    ),
                ),
            )
        } else {
            None
        },
        _ => None,
    }
}

/// Parses an analysis selection; the first field that is not a UUID is
/// reported (`projectId`, then `providerId`, then each `screenshotId`).
pub fn parse_selection(input: &AnalysisSelectionInput) -> (r: Result<(u128, u128, Vec<u128>), String>)
    ensures
        match selection_ids(*input) {
            Some((project, provider, shots)) => r matches Ok((p, q, s)) && p == project && q
                == provider && s@ == shots,
            None => r is Err,
        },
        r matches Err(m) ==> {
            ||| parsed_id(input.project_id@) is None && m@ == crate::commands::invalid_uuid_message(
                "projectId"@,
            )
            ||| parsed_id(input.project_id@) is Some && parsed_id(input.provider_id@) is None && m@
                == crate::commands::invalid_uuid_message("providerId"@)
            ||| parsed_id(input.project_id@) is Some && parsed_id(input.provider_id@) is Some && m@
                == crate::commands::invalid_uuid_message("screenshotId"@)
        },
{
    let project = parse_uuid(input.project_id.as_str(), "projectId")?;
    let provider = parse_uuid(input.provider_id.as_str(), "providerId")?;
    let mut shots: Vec<u128> = Vec::new();
    let mut i: usize = 0;
    while i < input.screenshot_ids.len()
        invariant
            i <= input.screenshot_ids@.len(),
            parsed_id(input.project_id@) == Some(project),
            parsed_id(input.provider_id@) == Some(provider),
            shots@.len() == i,
            forall|j: int|
                0 <= j < i ==> parsed_id(input.screenshot_ids@[j]@) == Some(#[trigger] shots@[j]),
        decreases input.screenshot_ids@.len() - i,
    {
        let id = match parse_uuid(input.screenshot_ids[i].as_str(), "screenshotId") {
            Ok(id) => id,
            Err(m) => {
                assert(parsed_id(input.screenshot_ids@[i as int]@) is None);
                assert(selection_ids(*input) is None);
                return Err(m);
            },
        };
        shots.push(id);
        i = i + 1;
    }
    assert(shots@ =~= Seq::new(
        input.screenshot_ids@.len(),
        |i: int| parsed_id(input.screenshot_ids@[i]@)->Some_0,
    ));
    assert forall|i: int| 0 <= i < input.screenshot_ids@.len() implies #[trigger] parsed_id(
        input.screenshot_ids@[i]@,
    ) is Some by {
        assert(parsed_id(input.screenshot_ids@[i]@) == Some(shots@[i]));
    }
    Ok((project, provider, shots))
}

/// The size of bytes once base64-encoded: four characters per started
/// group of three bytes.
pub open spec fn encoded_size(byte_len: u64) -> int {
    (byte_len as int + 2) / 3 * 4
}

/// The saturating sum of the encoded sizes of files of the given lengths.
pub open spec fn estimated_total(lengths: Seq<u64>) -> int
    decreases lengths.len(),
{
    if lengths.len() == 0 {
        0
    } else {
        let rest = estimated_total(lengths.drop_last());
        let sum = rest + encoded_size(lengths.last());
        if sum > u64::MAX {
            u64::MAX as int
        } else {
            sum
        }
    }
}

/// The encoded size of every file fits in 64 bits (files below about
/// 13.8 exabytes).
pub open spec fn sizes_representable(lengths: Seq<u64>) -> bool {
    forall|i: int| 0 <= i < lengths.len() ==> encoded_size(#[trigger] lengths[i]) <= u64::MAX
}

/// Whether the encoded size of every file fits in 64 bits, that is,
/// whether `estimate_encoded_bytes` may be called on these lengths.
pub fn sizes_representable_check(lengths: &Vec<u64>) -> (r: bool)
    ensures
        r == sizes_representable(lengths@),
{
    let mut i: usize = 0;
    while i < lengths.len()
        invariant
            i <= lengths@.len(),
            forall|j: int| 0 <= j < i ==> encoded_size(#[trigger] lengths@[j]) <= u64::MAX,
        decreases lengths@.len() - i,
    {
        let n = lengths[i];
        let groups = n / 3 + if n % 3 == 0 {
            0
        } else {
            1
        };
        assert(groups == (n as int + 2) / 3);
        if groups > u64::MAX / 4 {
            assert(encoded_size(lengths@[i as int]) > u64::MAX);
            return false;
        }
        i = i + 1;
    }
    true
}

/// Estimates how many bytes the selected images take once encoded.
pub fn estimate_encoded_bytes(lengths: &Vec<u64>) -> (total: u64)
    requires
        sizes_representable(lengths@),
    ensures
        total == estimated_total(lengths@),
{
    let mut total: u64 = 0;
    let mut i: usize = 0;
    while i < lengths.len()
        invariant
            i <= lengths@.len(),
            sizes_representable(lengths@),
            total == estimated_total(lengths@.take(i as int)),
        decreases lengths@.len() - i,
    {
        let n = lengths[i];
        assert(lengths@.take(i + 1).drop_last() =~= lengths@.take(i as int));
        assert(encoded_size(lengths@[i as int]) <= u64::MAX);
        let groups = n / 3 + if n % 3 == 0 {
            0
        } else {
            1
        };
        assert(groups == (n as int + 2) / 3);
        let encoded = groups * 4;
        total = total.saturating_add(encoded);
        i = i + 1;
    }
    assert(lengths@.take(lengths@.len() as int) =~= lengths@);
    total
}

/// The preview of an analysis.
pub fn analysis_preview(
    provider_name: String,
    model: String,
    screenshot_ids: &Vec<u128>,
    estimated_encoded_bytes: u64,
) -> (p: AnalysisPreview)
    ensures
        p.provider_name == provider_name,
        p.model == model,
        p.image_ids@.len() == screenshot_ids@.len(),
        forall|i: int|
            0 <= i < screenshot_ids@.len() ==> (#[trigger] p.image_ids@[i])@ == hyphenated(
                screenshot_ids@[i],
            ),
        p.image_count == screenshot_ids@.len(),
        p.estimated_encoded_bytes == estimated_encoded_bytes,
{
    let mut image_ids: Vec<String> = Vec::new();
    let mut i: usize = 0;
    while i < screenshot_ids.len()
        invariant
            i <= screenshot_ids@.len(),
            image_ids@.len() == i,
            forall|j: int|
                0 <= j < i ==> (#[trigger] image_ids@[j])@ == hyphenated(screenshot_ids@[j]),
        decreases screenshot_ids@.len() - i,
    {
        image_ids.push(id_to_string(screenshot_ids[i]));
        i = i + 1;
    }
    AnalysisPreview {
        provider_name,
        model,
        image_ids,
        image_count: screenshot_ids.len(),
        estimated_encoded_bytes,
    }
}

/// The preview of an analysis of the given screenshots, whose stored files
/// have the given byte lengths: the provider's name and model, the
/// screenshot identifiers in order, their number, and the saturating sum of
/// their base64 sizes. `None` when an encoded size does not fit in 64 bits,
/// where the estimate overflows.
pub fn preview_from_sizes(
    provider_name: String,
    model: String,
    screenshot_ids: &Vec<u128>,
    lengths: &Vec<u64>,
) -> (p: Option<AnalysisPreview>)
    ensures
        !sizes_representable(lengths@) ==> p is None,
        sizes_representable(lengths@) ==> (p matches Some(v) && v.provider_name == provider_name
            && v.model == model && v.image_ids@.len() == screenshot_ids@.len() && (forall|i: int|
            0 <= i < screenshot_ids@.len() ==> (#[trigger] v.image_ids@[i])@ == hyphenated(
                screenshot_ids@[i],
            )) && v.image_count == screenshot_ids@.len() && v.estimated_encoded_bytes
            == estimated_total(lengths@)),
{
    if !sizes_representable_check(lengths) {
        return None;
    }
    let estimated = estimate_encoded_bytes(lengths);
    Some(analysis_preview(provider_name, model, screenshot_ids, estimated))
}

/// The error an analysis reports for a failed repository operation: the
/// failure's `Display` text.
pub fn repository_error<E: std::fmt::Display>(error: E) -> (e: AnalysisError)
    ensures
        e matches AnalysisError::Repository(m) && vstd::string::to_string_from_display_ensures::<E>(
            &error,
            m,
        ),
{
    AnalysisError::Repository(error.to_string())
}

/// The project an analysis works on, from its stored platform name.
pub fn analysis_project(id: u128, stored_platform: &str) -> (r: Result<AnalysisProject, AnalysisError>)
    ensures
        match r {
            Ok(p) => p.id == id && platform_name(p.platform) == stored_platform@
                && p.target_product_type@ == "local product"@,
            Err(e) => (forall|p: crate::model::Platform| platform_name(p) != stored_platform@)
                && (e matches AnalysisError::Repository(m) && m@ == "invalid platform: "@
                + stored_platform@),
        },
{
    match platform_from_str(stored_platform) {
        Some(platform) => Ok(
            AnalysisProject { id, platform, target_product_type: "local product".to_owned() },
        ),
        None => {
            let mut m = "invalid platform: ".to_owned();
            push_str(&mut m, stored_platform);
            Err(AnalysisError::Repository(m))
        },
    }
}

} // verus!
