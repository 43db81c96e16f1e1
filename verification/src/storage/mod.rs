//! Local storage rules: where projects and screenshots live on disk, how
//! stored values are written, which screenshots are accepted, and how a
//! draft specification follows the removal of a screenshot.
//!
//! The database and file operations themselves are performed by the
//! application around this library.

pub mod error;
pub mod migrations;
pub mod paths;
pub mod projects;
pub mod screenshots;
