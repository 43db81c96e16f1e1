//! Inputs of the project commands.

use vstd::prelude::*;
use crate::model::Platform;

verus! {

pub struct ListProjectsInput {
    pub include_archived: bool,
}

pub struct CreateProjectInput {
    pub name: String,
    pub platform: Platform,
}

pub struct RenameProjectInput {
    pub project_id: String,
    pub name: String,
}

pub struct ProjectIdInput {
    pub project_id: String,
}

} // verus!
