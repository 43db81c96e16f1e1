//! Which screenshots are accepted and how they are named and ordered, and
//! how a draft specification follows the removal of a screenshot.

use vstd::prelude::*;
use crate::ids::{hyphenated, id_to_string};
use crate::model::{exportable, DesignSpec, Evidence, Rule, RuleStatus};
use crate::storage::error::StorageError;
use crate::text::{push_char, push_str};

verus! {

/// A stored screenshot. `relative_path` is below the project's directory;
/// `created_at` is an RFC 3339 timestamp.
#[derive(Debug, Clone, PartialEq, Eq)]
pub struct Screenshot {
    pub id: u128,
    pub project_id: u128,
    pub relative_path: String,
    pub sha256: String,
    pub media_type: String,
    pub width: u32,
    pub height: u32,
    pub page_name: String,
    pub scene: String,
    pub sort_order: i64,
    pub created_at: String,
}

/// The largest accepted source file, in bytes (25 MiB).
pub const MAX_SOURCE_BYTES: u64 = 26214400;

/// The largest accepted width or height, in pixels.
pub const MAX_DIMENSION: u32 = 16384;

/// The most pixels an accepted image may have.
pub const MAX_DECODED_PIXELS: u64 = 16777216;

/// The accepted image formats.
#[derive(Debug, Clone, Copy, PartialEq, Eq, Structural)]
pub enum ImageKind {
    Png,
    Jpeg,
    WebP,
}

/// The format `image::guess_format` recognizes in the bytes, when it is an
/// accepted one.
pub uninterp spec fn sniffed_kind(bytes: Seq<u8>) -> Option<ImageKind>;

/// The dimensions the format's decoder reads from the header, if it can.
pub uninterp spec fn header_dimensions(bytes: Seq<u8>, kind: ImageKind) -> Option<(u32, u32)>;

/// The dimensions of the fully decoded image, if it decodes.
pub uninterp spec fn decoded_dimensions(bytes: Seq<u8>, kind: ImageKind) -> Option<(u32, u32)>;

/// `image::guess_format`, restricted to the accepted formats: the kind named
/// `sniffed_kind` of the bytes.
#[verifier::external_body]
fn guess_kind(bytes: &[u8]) -> (r: Option<ImageKind>)
    ensures
        r == sniffed_kind(bytes@),
{
    match image::guess_format(bytes) {
        Ok(image::ImageFormat::Png) => Some(ImageKind::Png),
        Ok(image::ImageFormat::Jpeg) => Some(ImageKind::Jpeg),
        Ok(image::ImageFormat::WebP) => Some(ImageKind::WebP),
        _ => None,
    }
}

/// `image::ImageReader::with_format(..).into_dimensions()`: the dimensions
/// named `header_dimensions`.
#[verifier::external_body]
fn read_header_dimensions(bytes: &[u8], kind: ImageKind) -> (r: Option<(u32, u32)>)
    ensures
        r == header_dimensions(bytes@, kind),
{
    let format = match kind {
        ImageKind::Png => image::ImageFormat::Png,
        ImageKind::Jpeg => image::ImageFormat::Jpeg,
        ImageKind::WebP => image::ImageFormat::WebP,
    };
    image::ImageReader::with_format(std::io::Cursor::new(bytes), format).into_dimensions().ok()
}

/// `image::ImageReader::with_format(..).decode()`: the decoded image's
/// width and height, named `decoded_dimensions`.
#[verifier::external_body]
fn decode_dimensions(bytes: &[u8], kind: ImageKind) -> (r: Option<(u32, u32)>)
    ensures
        r == decoded_dimensions(bytes@, kind),
{
    let format = match kind {
        ImageKind::Png => image::ImageFormat::Png,
        ImageKind::Jpeg => image::ImageFormat::Jpeg,
        ImageKind::WebP => image::ImageFormat::WebP,
    };
    image::ImageReader::with_format(std::io::Cursor::new(bytes), format).decode().ok().map(
        |img| (img.width(), img.height()),
    )
}

/// What an accepted screenshot is stored as.
#[derive(Debug, Clone, Copy, PartialEq, Eq, Structural)]
pub struct ImageMetadata {
    pub kind: ImageKind,
    pub width: u32,
    pub height: u32,
}

pub open spec fn extension_of(kind: ImageKind) -> Seq<char> {
    match kind {
        ImageKind::Png => "png"@,
        ImageKind::Jpeg => "jpg"@,
        ImageKind::WebP => "webp"@,
    }
}

pub open spec fn media_type_of(kind: ImageKind) -> Seq<char> {
    match kind {
        ImageKind::Png => "image/png"@,
        ImageKind::Jpeg => "image/jpeg"@,
        ImageKind::WebP => "image/webp"@,
    }
}

pub fn extension(kind: ImageKind) -> (s: &'static str)
    ensures
        s@ == extension_of(kind),
{
    match kind {
        ImageKind::Png => "png",
        ImageKind::Jpeg => "jpg",
        ImageKind::WebP => "webp",
    }
}

pub fn media_type(kind: ImageKind) -> (s: &'static str)
    ensures
        s@ == media_type_of(kind),
{
    match kind {
        ImageKind::Png => "image/png",
        ImageKind::Jpeg => "image/jpeg",
        ImageKind::WebP => "image/webp",
    }
}

/// The dimensions are within the limits: neither side above
/// `MAX_DIMENSION` and no more than `MAX_DECODED_PIXELS` pixels.
pub open spec fn dimensions_allowed(width: u32, height: u32) -> bool {
    width <= MAX_DIMENSION && height <= MAX_DIMENSION && width * height <= MAX_DECODED_PIXELS
}

/// What becomes of an image's bytes: an accepted format is required, its
/// header must be readable, its dimensions within the limits, and the image
/// must decode; the decoded dimensions are kept.
pub open spec fn image_verdict(bytes: Seq<u8>) -> Result<ImageMetadata, StorageError> {
    match sniffed_kind(bytes) {
        None => Err(StorageError::UnsupportedMediaType),
        Some(kind) => match header_dimensions(bytes, kind) {
            None => Err(StorageError::CorruptImage),
            Some((w, h)) => if !dimensions_allowed(w, h) {
                Err(StorageError::ImageTooLarge { width: w, height: h, max: MAX_DIMENSION })
            } else {
                match decoded_dimensions(bytes, kind) {
                    None => Err(StorageError::CorruptImage),
                    Some((dw, dh)) => Ok(ImageMetadata { kind, width: dw, height: dh }),
                }
            },
        },
    }
}

/// Checks a screenshot's bytes and reads what is stored of it.
pub fn detect_image_metadata(bytes: &[u8]) -> (r: Result<ImageMetadata, StorageError>)
    ensures
        r == image_verdict(bytes@),
{
    let kind = match guess_kind(bytes) {
        Some(k) => k,
        None => {
            return Err(StorageError::UnsupportedMediaType);
        },
    };
    let (width, height) = match read_header_dimensions(bytes, kind) {
        Some(d) => d,
        None => {
            return Err(StorageError::CorruptImage);
        },
    };
    if width > MAX_DIMENSION || height > MAX_DIMENSION {
        return Err(StorageError::ImageTooLarge { width, height, max: MAX_DIMENSION });
    }
    assert((width as u64) * (height as u64) <= 16384 * 16384) by (nonlinear_arith)
        requires
            width <= 16384,
            height <= 16384,
    ;
    if (width as u64) * (height as u64) > MAX_DECODED_PIXELS {
        return Err(StorageError::ImageTooLarge { width, height, max: MAX_DIMENSION });
    }
    match decode_dimensions(bytes, kind) {
        None => Err(StorageError::CorruptImage),
        Some((w, h)) => Ok(ImageMetadata { kind, width: w, height: h }),
    }
}

/// A source file larger than `MAX_SOURCE_BYTES` is refused before it is read.
pub fn check_source_size(size: u64) -> (r: Result<(), StorageError>)
    ensures
        size <= MAX_SOURCE_BYTES ==> r is Ok,
        size > MAX_SOURCE_BYTES ==> r == Err::<(), StorageError>(
            StorageError::FileTooLarge { size, max: MAX_SOURCE_BYTES },
        ),
{
    if size > MAX_SOURCE_BYTES {
        Err(StorageError::FileTooLarge { size, max: MAX_SOURCE_BYTES })
    } else {
        Ok(())
    }
}

/// The SHA-256 digest of bytes (`sha2::Sha256::digest`).
pub uninterp spec fn sha256_of(bytes: Seq<u8>) -> Seq<u8>;

/// `sha2::Sha256::digest`: the 32-byte digest named `sha256_of`.
#[verifier::external_body]
fn sha256_digest(bytes: &[u8]) -> (d: Vec<u8>)
    ensures
        d@ == sha256_of(bytes@),
        d@.len() == 32,
{
    <sha2::Sha256 as sha2::Digest>::digest(bytes).to_vec()
}

/// Lower-case hexadecimal digit of `d < 16`.
pub open spec fn hex_digit(d: int) -> char {
    crate::ids::hex_char(d)
}

/// Two lower-case hexadecimal digits per byte, most significant first.
pub open spec fn hex_lower(bytes: Seq<u8>) -> Seq<char>
    decreases bytes.len(),
{
    if bytes.len() == 0 {
        Seq::empty()
    } else {
        hex_lower(bytes.drop_last()) + seq![
            hex_digit(bytes.last() as int / 16),
            hex_digit(bytes.last() as int % 16),
        ]
    }
}

fn hex_char_of(d: u8) -> (c: char)
    requires
        d < 16,
    ensures
        c == hex_digit(d as int),
{
    if d < 10 {
        (d + 48) as char
    } else {
        (d - 10 + 97) as char
    }
}

/// The lower-case hexadecimal SHA-256 digest of bytes, by which duplicate
/// screenshots are recognized.
pub fn hex_sha256(bytes: &[u8]) -> (s: String)
    ensures
        s@ == hex_lower(sha256_of(bytes@)),
        s@.len() == 64,
{
    let digest = sha256_digest(bytes);
    let mut s = String::new();
    let mut i: usize = 0;
    while i < digest.len()
        invariant
            i <= digest@.len(),
            digest@.len() == 32,
            s@ == hex_lower(digest@.take(i as int)),
            s@.len() == 2 * i,
        decreases digest@.len() - i,
    {
        let b = digest[i];
        assert(digest@.take(i + 1).drop_last() =~= digest@.take(i as int));
        push_char(&mut s, hex_char_of(b / 16));
        push_char(&mut s, hex_char_of(b % 16));
        i = i + 1;
        assert(s@ =~= hex_lower(digest@.take(i as int)));
    }
    assert(digest@.take(32) =~= digest@);
    s
}

/// Where a screenshot is stored below its project's directory:
/// `screenshots/<id>.<extension>`.
pub open spec fn screenshot_relative_path(id: u128, kind: ImageKind) -> Seq<char> {
    "screenshots/"@ + hyphenated(id) + "."@ + extension_of(kind)
}

pub fn relative_screenshot_path(id: u128, kind: ImageKind) -> (s: String)
    ensures
        s@ == screenshot_relative_path(id, kind),
{
    let mut s = "screenshots/".to_owned();
    push_str(&mut s, id_to_string(id).as_str());
    push_str(&mut s, ".");
    push_str(&mut s, extension(kind));
    s
}

/// The name of the temporary file a screenshot is first written to, in the
/// project's `screenshots` directory: `.<id>.tmp`.
pub fn temporary_file_name(id: u128) -> (s: String)
    ensures
        s@ == "."@ + hyphenated(id) + ".tmp"@,
{
    let mut s = ".".to_owned();
    push_str(&mut s, id_to_string(id).as_str());
    push_str(&mut s, ".tmp");
    s
}

/// Whether an import whose image passed its checks may be stored: the
/// project must exist (`ProjectNotFound` otherwise), and then no screenshot
/// of it may have the same content (`DuplicateScreenshot` naming the one
/// there otherwise). `duplicate_of` is looked up only for an existing
/// project; it is not read when the project is missing.
pub fn import_admission(project_id: u128, project_exists: bool, duplicate_of: Option<u128>) -> (r:
    Result<(), StorageError>)
    ensures
        !project_exists ==> r == Err::<(), StorageError>(StorageError::ProjectNotFound(project_id)),
        project_exists ==> match duplicate_of {
            Some(d) => r == Err::<(), StorageError>(StorageError::DuplicateScreenshot(d)),
            None => r is Ok,
        },
{
    if !project_exists {
        return Err(StorageError::ProjectNotFound(project_id));
    }
    match duplicate_of {
        Some(d) => Err(StorageError::DuplicateScreenshot(d)),
        None => Ok(()),
    }
}

/// The error of a failed screenshot insert: a uniqueness conflict with a
/// screenshot of the same content is reported as that duplicate; any other
/// failure as the database's, with its text.
pub fn insert_failure(constraint_violation: bool, duplicate_of: Option<u128>, message: String) -> (e:
    StorageError)
    ensures
        constraint_violation && duplicate_of is Some ==> e == StorageError::DuplicateScreenshot(
            duplicate_of->Some_0,
        ),
        !(constraint_violation && duplicate_of is Some) ==> e == (StorageError::Sqlite { message }),
{
    if constraint_violation {
        if let Some(d) = duplicate_of {
            return StorageError::DuplicateScreenshot(d);
        }
    }
    StorageError::Sqlite { message }
}

/// The sort position of a new screenshot: after the last one of its
/// project, or first.
pub fn next_sort_order(max_sort_order: Option<i64>) -> (n: i64)
    requires
        max_sort_order != Some(i64::MAX),
    ensures
        match max_sort_order {
            Some(m) => n == m + 1,
            None => n == 0,
        },
{
    match max_sort_order {
        Some(m) => m + 1,
        None => 0,
    }
}

// ----- removing a screenshot -----

/// The identifiers of the evidence taken from a screenshot, in order.
pub open spec fn stale_evidence(es: Seq<Evidence>, screenshot_id: u128) -> Seq<u128>
    decreases es.len(),
{
    if es.len() == 0 {
        Seq::empty()
    } else if es.last().screenshot_id == screenshot_id {
        stale_evidence(es.drop_last(), screenshot_id).push(es.last().id)
    } else {
        stale_evidence(es.drop_last(), screenshot_id)
    }
}

/// The rule cites one of the given pieces of evidence.
pub open spec fn cites_any(r: Rule, ids: Seq<u128>) -> bool {
    exists|i: int| 0 <= i < r.evidence_ids@.len() && ids.contains(#[trigger] r.evidence_ids@[i])
}

/// A rule after its evidence went stale: an accepted or edited rule that
/// cites stale evidence goes back to review; any other rule is kept.
pub open spec fn after_removal(r: Rule, stale: Seq<u128>) -> Rule {
    if cites_any(r, stale) && exportable(r) {
        Rule { status: RuleStatus::Pending, ..r }
    } else {
        r
    }
}

pub open spec fn section_after_removal(rs: Seq<Rule>, stale: Seq<u128>) -> Seq<Rule> {
    rs.map_values(|r: Rule| after_removal(r, stale))
}

/// `q` is `p` with every section's rules after the removal; metadata,
/// evidence and uncertainties are kept.
pub open spec fn draft_after_removal(q: DesignSpec, p: DesignSpec, stale: Seq<u128>) -> bool {
    &&& q.metadata == p.metadata
    &&& q.intent@ == section_after_removal(p.intent@, stale)
    &&& q.tokens@ == section_after_removal(p.tokens@, stale)
    &&& q.layout@ == section_after_removal(p.layout@, stale)
    &&& q.components@ == section_after_removal(p.components@, stale)
    &&& q.assets@ == section_after_removal(p.assets@, stale)
    &&& q.motion@ == section_after_removal(p.motion@, stale)
    &&& q.constraints@ == section_after_removal(p.constraints@, stale)
    &&& q.evidence == p.evidence
    &&& q.uncertainties == p.uncertainties
}

fn collect_stale(evidence: &Vec<Evidence>, screenshot_id: u128) -> (ids: Vec<u128>)
    ensures
        ids@ == stale_evidence(evidence@, screenshot_id),
{
    let mut ids: Vec<u128> = Vec::new();
    let mut i: usize = 0;
    while i < evidence.len()
        invariant
            i <= evidence@.len(),
            ids@ == stale_evidence(evidence@.take(i as int), screenshot_id),
        decreases evidence@.len() - i,
    {
        assert(evidence@.take(i + 1).drop_last() =~= evidence@.take(i as int));
        if evidence[i].screenshot_id == screenshot_id {
            ids.push(evidence[i].id);
        }
        i = i + 1;
    }
    assert(evidence@.take(evidence@.len() as int) =~= evidence@);
    ids
}

fn rule_cites_any(r: &Rule, ids: &Vec<u128>) -> (b: bool)
    ensures
        b == cites_any(*r, ids@),
{
    let mut i: usize = 0;
    while i < r.evidence_ids.len()
        invariant
            i <= r.evidence_ids@.len(),
            forall|j: int| 0 <= j < i ==> !ids@.contains(#[trigger] r.evidence_ids@[j]),
        decreases r.evidence_ids@.len() - i,
    {
        if crate::validation::id_in(ids, r.evidence_ids[i]) {
            return true;
        }
        i = i + 1;
    }
    false
}

fn revert_section(rules: Vec<Rule>, stale: &Vec<u128>) -> (out: Vec<Rule>)
    ensures
        out@ == section_after_removal(rules@, stale@),
{
    let ghost original = rules@;
    let mut src = rules;
    let mut out: Vec<Rule> = Vec::new();
    while src.len() > 0
        invariant
            out@.len() + src@.len() == original.len(),
            out@ == section_after_removal(original.take(out@.len() as int), stale@),
            src@ == original.skip(out@.len() as int),
        decreases src@.len(),
    {
        let ghost k: int = out@.len() as int;
        let mut r = src.remove(0);
        assert(r == original[k]);
        if rule_cites_any(&r, stale) && r.is_exportable() {
            r.status = RuleStatus::Pending;
        }
        out.push(r);
        assert(src@ =~= original.skip(k + 1));
        assert(out@ =~= section_after_removal(original.take(k + 1), stale@));
    }
    assert(original.take(original.len() as int) =~= original);
    out
}

/// How a draft follows the removal of a screenshot: when no evidence came
/// from it, the draft is left as it is (`None`); otherwise every accepted or
/// edited rule that cites such evidence goes back to review.
pub fn mark_dependent_rules_pending(spec: DesignSpec, screenshot_id: u128) -> (r: Option<DesignSpec>)
    ensures
        ({
            let stale = stale_evidence(spec.evidence@, screenshot_id);
            if stale.len() == 0 {
                r is None
            } else {
                r matches Some(q) && draft_after_removal(q, spec, stale)
            }
        }),
{
    let stale = collect_stale(&spec.evidence, screenshot_id);
    if stale.len() == 0 {
        return None;
    }
    let DesignSpec {
        metadata,
        intent,
        tokens,
        layout,
        components,
        assets,
        motion,
        constraints,
        evidence,
        uncertainties,
    } = spec;
    Some(
        DesignSpec {
            metadata,
            intent: revert_section(intent, &stale),
            tokens: revert_section(tokens, &stale),
            layout: revert_section(layout, &stale),
            components: revert_section(components, &stale),
            assets: revert_section(assets, &stale),
            motion: revert_section(motion, &stale),
            constraints: revert_section(constraints, &stale),
            evidence,
            uncertainties,
        },
    )
}

/// After a screenshot is removed, no rule that would be exported relies on
/// evidence taken from it.
pub proof fn law_no_exported_rule_cites_removed_evidence(rs: Seq<Rule>, stale: Seq<u128>)
    ensures
        forall|i: int|
            0 <= i < rs.len() ==> !(exportable(#[trigger] section_after_removal(rs, stale)[i])
                && cites_any(section_after_removal(rs, stale)[i], stale)),
{
    assert forall|i: int| 0 <= i < rs.len() implies !(exportable(
        #[trigger] section_after_removal(rs, stale)[i],
    ) && cites_any(section_after_removal(rs, stale)[i], stale)) by {
        let r = rs[i];
        let q = section_after_removal(rs, stale)[i];
        assert(q == after_removal(r, stale));
        if cites_any(r, stale) && exportable(r) {
            assert(q.status == RuleStatus::Pending);
        } else if cites_any(q, stale) {
            assert(q == r);
        }
    }
}

} // verus!
