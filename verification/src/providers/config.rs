//! Provider configuration as it is stored, and the view of it that is safe
//! to show: the secret itself is never part of either.

use vstd::prelude::*;

verus! {

#[derive(Debug, Clone, Copy, PartialEq, Eq, Structural)]
pub enum ProviderKind {
    OpenAi,
    Anthropic,
    Gemini,
    OpenAiCompatible,
    AnthropicCompatible,
}

/// A configured provider. `base_url` is the serialization of an absolute
/// URL; `credential_ref` says where the secret is kept.
#[derive(Debug, Clone, PartialEq, Eq)]
pub struct ProviderConfig {
    pub id: u128,
    pub name: String,
    pub kind: ProviderKind,
    pub base_url: String,
    pub model: String,
    pub credential_ref: String,
}

/// What the user interface sees of a provider: whether a credential is
/// stored, never where or what it is.
#[derive(Debug, Clone, PartialEq, Eq)]
pub struct ProviderConfigView {
    pub id: u128,
    pub name: String,
    pub kind: ProviderKind,
    pub base_url: String,
    pub model: String,
    pub has_credential: bool,
}

impl ProviderConfigView {
    pub fn from_config(config: &ProviderConfig, has_credential: bool) -> (v: Self)
        ensures
            v.id == config.id,
            v.name@ == config.name@,
            v.kind == config.kind,
            v.base_url@ == config.base_url@,
            v.model@ == config.model@,
            v.has_credential == has_credential,
    {
        ProviderConfigView {
            id: config.id,
            name: config.name.clone(),
            kind: config.kind,
            base_url: config.base_url.clone(),
            model: config.model.clone(),
            has_credential,
        }
    }
}

/// The name a provider kind is stored under.
pub open spec fn kind_name(kind: ProviderKind) -> Seq<char> {
    match kind {
        ProviderKind::OpenAi => "open_ai"@,
        ProviderKind::Anthropic => "anthropic"@,
        ProviderKind::Gemini => "gemini"@,
        ProviderKind::OpenAiCompatible => "open_ai_compatible"@,
        ProviderKind::AnthropicCompatible => "anthropic_compatible"@,
    }
}

pub fn provider_kind_to_str(kind: ProviderKind) -> (s: &'static str)
    ensures
        s@ == kind_name(kind),
{
    match kind {
        ProviderKind::OpenAi => "open_ai",
        ProviderKind::Anthropic => "anthropic",
        ProviderKind::Gemini => "gemini",
        ProviderKind::OpenAiCompatible => "open_ai_compatible",
        ProviderKind::AnthropicCompatible => "anthropic_compatible",
    }
}

/// The provider kind stored under a name; `None` for a name no kind has.
pub fn provider_kind_from_str(value: &str) -> (r: Option<ProviderKind>)
    ensures
        match r {
            Some(k) => kind_name(k) == value@,
            None => forall|k: ProviderKind| kind_name(k) != value@,
        },
{
    let v = value.to_owned();
    if v == "open_ai".to_owned() {
        Some(ProviderKind::OpenAi)
    } else if v == "anthropic".to_owned() {
        Some(ProviderKind::Anthropic)
    } else if v == "gemini".to_owned() {
        Some(ProviderKind::Gemini)
    } else if v == "open_ai_compatible".to_owned() {
        Some(ProviderKind::OpenAiCompatible)
    } else if v == "anthropic_compatible".to_owned() {
        Some(ProviderKind::AnthropicCompatible)
    } else {
        None
    }
}

/// A kind's stored name names it again.
pub proof fn law_kind_name_round_trip(k1: ProviderKind, k2: ProviderKind)
    ensures
        kind_name(k1) == kind_name(k2) ==> k1 == k2,
{
    reveal_strlit("open_ai");
    reveal_strlit("anthropic");
    reveal_strlit("gemini");
    reveal_strlit("open_ai_compatible");
    reveal_strlit("anthropic_compatible");
    if kind_name(k1) == kind_name(k2) && k1 != k2 {
        assert(kind_name(k1).len() != kind_name(k2).len() || kind_name(k1)[0] != kind_name(k2)[0]
            || kind_name(k1)[5] != kind_name(k2)[5]);
    }
}

} // verus!
