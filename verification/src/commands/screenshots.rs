//! Inputs of the screenshot commands, and the page name an imported file
//! gets.

use vstd::prelude::*;

verus! {

pub struct ProjectIdInput {
    pub project_id: String,
}

pub struct ImportScreenshotsInput {
    pub project_id: String,
    pub paths: Vec<String>,
}

pub struct UpdateScreenshotMetadataInput {
    pub project_id: String,
    pub screenshot_id: String,
    pub page_name: String,
    pub scene: String,
    pub sort_order: i64,
}

pub struct RemoveScreenshotInput {
    pub project_id: String,
    pub screenshot_id: String,
}

/// The file stem `std::path::Path::file_stem` finds in a path, if it has
/// one that is text. Components are split by the path syntax of the platform
/// the library is built for; within one build the stem depends on the text
/// alone.
pub uninterp spec fn file_stem_of(path: Seq<char>) -> Option<Seq<char>>;

/// `Path::new(path).file_stem()` as text: the stem named `file_stem_of`.
#[verifier::external_body]
pub(crate) fn file_stem(path: &str) -> (r: Option<String>)
    ensures
        match r {
            Some(s) => file_stem_of(path@) == Some(s@),
            None => file_stem_of(path@) is None,
        },
{
    std::path::Path::new(path).file_stem().and_then(|stem| stem.to_str()).map(|s| s.to_owned())
}

/// The page name of an imported screenshot: its file's stem, or
/// `Screenshot` when the path has none.
pub fn imported_page_name(path: &str) -> (name: String)
    ensures
        name@ == match file_stem_of(path@) {
            Some(s) => s,
            None => "Screenshot"@,
        },
{
    match file_stem(path) {
        Some(s) => s,
        None => "Screenshot".to_owned(),
    }
}

} // verus!
