//! Design analysis: prompt construction, the analyze/repair/persist
//! decisions, and natural-language refinement of draft rules.

pub mod orchestrator;
pub mod prompt;
pub mod refine;
pub mod repair;
