//! Provider-neutral multimodal analysis requests, provider error handling,
//! response envelopes, provider configuration and credentials.

pub mod client;
pub mod config;
pub mod credentials;
pub mod error;
pub mod extract;
pub mod models;
pub mod request;
