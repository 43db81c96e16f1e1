//! Verified core of a design-language extractor: a provider-neutral design
//! specification model, its validation, deterministic Markdown compilation,
//! prompt construction, analysis and refinement decisions, provider envelope
//! handling, credential bookkeeping and screenshot import rules.

pub mod text;
pub mod ids;
pub mod json;
pub mod binary32;
pub mod model;
pub mod validation;
pub mod markdown;
pub mod providers;
pub mod analysis;
pub mod storage;
pub mod commands;
