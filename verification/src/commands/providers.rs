//! Inputs of the provider commands, and what saving a provider does with
//! its secret.

use vstd::prelude::*;
use crate::commands::parse_uuid;
use crate::ids::parsed_id;
use crate::providers::config::{ProviderConfig, ProviderKind};
use crate::text::{is_blank, is_blank_str};

verus! {

pub struct ProviderIdInput {
    pub provider_id: String,
}

pub struct SaveProviderInput {
    pub provider_id: Option<String>,
    pub name: String,
    pub kind: ProviderKind,
    pub base_url: String,
    pub model: String,
    pub api_key: Option<String>,
}

pub struct FetchProviderModelsInput {
    pub kind: ProviderKind,
    pub base_url: String,
    /// A key typed in the form; when absent or blank, the stored secret of
    /// `provider_id` is used.
    pub api_key: Option<String>,
    pub provider_id: Option<String>,
}

/// What saving a provider does with its secret.
#[derive(Debug, PartialEq, Eq)]
pub enum SecretAction {
    /// A new provider: record its credential reference and store the key.
    Create { secret: String },
    /// A known provider with a new key: keep its reference, replace the key.
    Replace { credential_ref: String, secret: String },
    /// A known provider without a new key: keep its reference and key.
    Keep { credential_ref: String },
}

/// Decides what saving a provider does with its secret, given the stored
/// configuration of the same identifier, if any, and the key typed, if any.
/// A new provider needs a key.
pub fn secret_action(existing: Option<&ProviderConfig>, api_key: Option<String>) -> (r: Result<
    SecretAction,
    String,
>)
    ensures
        match (existing, api_key) {
            (None, Some(k)) => r == Ok::<SecretAction, String>(SecretAction::Create { secret: k }),
            (None, None) => r matches Err(m) && m@ == "apiKey is required for a new provider"@,
            (Some(c), Some(k)) => r matches Ok(SecretAction::Replace { credential_ref, secret })
                && credential_ref@ == c.credential_ref@ && secret == k,
            (Some(c), None) => r matches Ok(SecretAction::Keep { credential_ref })
                && credential_ref@ == c.credential_ref@,
        },
{
    match (existing, api_key) {
        (None, Some(k)) => Ok(SecretAction::Create { secret: k }),
        (None, None) => Err("apiKey is required for a new provider".to_owned()),
        (Some(c), Some(k)) => Ok(
            SecretAction::Replace { credential_ref: c.credential_ref.clone(), secret: k },
        ),
        (Some(c), None) => Ok(SecretAction::Keep { credential_ref: c.credential_ref.clone() }),
    }
}

/// Where the key for listing models comes from.
#[derive(Debug, PartialEq, Eq)]
pub enum ModelListKey {
    /// The key typed in the form.
    Typed(String),
    /// The stored secret of this provider.
    Stored(u128),
}

/// Chooses the key for listing models: a non-blank typed key, else the
/// stored secret of the named provider.
pub fn model_list_key(api_key: Option<String>, provider_id: Option<&str>) -> (r: Result<
    ModelListKey,
    String,
>)
    ensures
        match api_key {
            Some(k) if !is_blank(k@) => r == Ok::<ModelListKey, String>(ModelListKey::Typed(k)),
            _ => match provider_id {
                None => r matches Err(m) && m@ == "apiKey or providerId is required"@,
                Some(p) => match parsed_id(p@) {
                    Some(id) => r == Ok::<ModelListKey, String>(ModelListKey::Stored(id)),
                    None => r matches Err(m) && m@ == crate::commands::invalid_uuid_message(
                        "providerId"@,
                    ),
                },
            },
        },
{
    match api_key {
        Some(k) => {
            if !is_blank_str(k.as_str()) {
                return Ok(ModelListKey::Typed(k));
            }
        },
        None => {},
    }
    match provider_id {
        None => Err("apiKey or providerId is required".to_owned()),
        Some(p) => {
            let id = parse_uuid(p, "providerId")?;
            Ok(ModelListKey::Stored(id))
        },
    }
}

} // verus!
