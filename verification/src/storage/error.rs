//! Storage errors.

use vstd::prelude::*;
use crate::ids::{hyphenated, id_to_string};
use crate::text::push_str;

verus! {

/// What went wrong in storage. Failures of the file system, the database,
/// a background task or JSON handling carry the underlying error's text.
#[derive(Debug, Clone, PartialEq, Eq)]
pub enum StorageError {
    Io { message: String },
    Sqlite { message: String },
    Join { message: String },
    ProjectNotFound(u128),
    InvalidPlatform(String),
    UnsupportedMediaType,
    CorruptImage,
    FileTooLarge { size: u64, max: u64 },
    ImageTooLarge { width: u32, height: u32, max: u32 },
    DuplicateScreenshot(u128),
    ScreenshotNotFound(u128),
    UnsafeScreenshotPath(String),
    Json { message: String },
    CleanupRequired { path: String, message: String },
}

/// The human-readable text of a storage error; it never repeats the
/// underlying error's text.
pub open spec fn storage_error_message(e: StorageError) -> Seq<char> {
    match e {
        StorageError::Io { .. } => "storage I/O failed"@,
        StorageError::Sqlite { .. } => "SQLite operation failed"@,
        StorageError::Join { .. } => "background storage task failed"@,
        StorageError::ProjectNotFound(id) => "project "@ + hyphenated(id) + " was not found"@,
        StorageError::InvalidPlatform(p) => "stored platform value is not recognized: "@ + p@,
        StorageError::UnsupportedMediaType => "screenshot media type is not supported"@,
        StorageError::CorruptImage => "screenshot image data is corrupt or unreadable"@,
        StorageError::FileTooLarge { .. } => "screenshot source file exceeds the maximum size"@,
        StorageError::ImageTooLarge { .. } => "screenshot dimensions exceed the maximum size"@,
        StorageError::DuplicateScreenshot(id) => "screenshot duplicates existing screenshot "@
            + hyphenated(id),
        StorageError::ScreenshotNotFound(id) => "screenshot "@ + hyphenated(id)
            + " was not found"@,
        StorageError::UnsafeScreenshotPath(p) => "stored screenshot path is unsafe: "@ + p@,
        StorageError::Json { .. } => "stored design spec JSON is invalid"@,
        StorageError::CleanupRequired { path, .. } => "project cleanup is required at "@ + path@,
    }
}

impl StorageError {
    pub fn message(&self) -> (s: String)
        ensures
            s@ == storage_error_message(*self),
    {
        let mut s = String::new();
        match self {
            StorageError::Io { .. } => push_str(&mut s, "storage I/O failed"),
            StorageError::Sqlite { .. } => push_str(&mut s, "SQLite operation failed"),
            StorageError::Join { .. } => push_str(&mut s, "background storage task failed"),
            StorageError::ProjectNotFound(id) => {
                push_str(&mut s, "project ");
                push_str(&mut s, id_to_string(*id).as_str());
                push_str(&mut s, " was not found");
            },
            StorageError::InvalidPlatform(p) => {
                push_str(&mut s, "stored platform value is not recognized: ");
                push_str(&mut s, p.as_str());
            },
            StorageError::UnsupportedMediaType => push_str(
                &mut s,
                "screenshot media type is not supported",
            ),
            StorageError::CorruptImage => push_str(
                &mut s,
                "screenshot image data is corrupt or unreadable",
            ),
            StorageError::FileTooLarge { .. } => push_str(
                &mut s,
                "screenshot source file exceeds the maximum size",
            ),
            StorageError::ImageTooLarge { .. } => push_str(
                &mut s,
                "screenshot dimensions exceed the maximum size",
            ),
            StorageError::DuplicateScreenshot(id) => {
                push_str(&mut s, "screenshot duplicates existing screenshot ");
                push_str(&mut s, id_to_string(*id).as_str());
            },
            StorageError::ScreenshotNotFound(id) => {
                push_str(&mut s, "screenshot ");
                push_str(&mut s, id_to_string(*id).as_str());
                push_str(&mut s, " was not found");
            },
            StorageError::UnsafeScreenshotPath(p) => {
                push_str(&mut s, "stored screenshot path is unsafe: ");
                push_str(&mut s, p.as_str());
            },
            StorageError::Json { .. } => push_str(&mut s, "stored design spec JSON is invalid"),
            StorageError::CleanupRequired { path, .. } => {
                push_str(&mut s, "project cleanup is required at ");
                push_str(&mut s, path.as_str());
            },
        }
        assert(s@ =~= storage_error_message(*self));
        s
    }
}

} // verus!
