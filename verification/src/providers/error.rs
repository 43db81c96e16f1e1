//! Errors reported by multimodal providers.

use vstd::prelude::*;
use crate::json::{as_text, get, json_get, json_parse, parse_json, text_of, JsonValue, JsonView};
use crate::text::{chars_of, decimal, push_decimal, push_str, string_of, trim, trim_chars};

verus! {

#[derive(Debug, Clone, PartialEq, Eq)]
pub enum ProviderError {
    Authentication,
    RateLimited,
    Timeout,
    CapabilityMismatch,
    MissingModel,
    Http { status: u16, detail: Option<String> },
    Transport { message: String },
    InvalidResponse { message: String },
}

/// The human-readable text of a provider error.
pub open spec fn provider_error_message(e: ProviderError) -> Seq<char> {
    match e {
        ProviderError::Authentication => "provider authentication failed"@,
        ProviderError::RateLimited => "provider rate limit was reached"@,
        ProviderError::Timeout => "provider request timed out"@,
        ProviderError::CapabilityMismatch => "configured provider does not support the requested capability"@,
        ProviderError::MissingModel => "model is required"@,
        ProviderError::Http { status, detail } => "provider returned HTTP status "@ + decimal(
            status as nat,
        ) + match detail {
            Some(d) => ": "@ + d@,
            None => Seq::empty(),
        },
        ProviderError::Transport { message } => "provider transport failed: "@ + message@,
        ProviderError::InvalidResponse { message } => "provider returned an invalid response: "@
            + message@,
    }
}

impl ProviderError {
    /// The human-readable text of the error.
    pub fn message(&self) -> (s: String)
        ensures
            s@ == provider_error_message(*self),
    {
        let mut s = String::new();
        match self {
            ProviderError::Authentication => push_str(&mut s, "provider authentication failed"),
            ProviderError::RateLimited => push_str(&mut s, "provider rate limit was reached"),
            ProviderError::Timeout => push_str(&mut s, "provider request timed out"),
            ProviderError::CapabilityMismatch => push_str(
                &mut s,
                "configured provider does not support the requested capability",
            ),
            ProviderError::MissingModel => push_str(&mut s, "model is required"),
            ProviderError::Http { status, detail } => {
                push_str(&mut s, "provider returned HTTP status ");
                push_decimal(&mut s, *status as u64);
                match detail {
                    Some(d) => {
                        push_str(&mut s, ": ");
                        push_str(&mut s, d.as_str());
                    },
                    None => {},
                }
            },
            ProviderError::Transport { message } => {
                push_str(&mut s, "provider transport failed: ");
                push_str(&mut s, message.as_str());
            },
            ProviderError::InvalidResponse { message } => {
                push_str(&mut s, "provider returned an invalid response: ");
                push_str(&mut s, message.as_str());
            },
        }
        assert(s@ =~= provider_error_message(*self));
        s
    }
}

/// The most characters of a provider's error message that are kept.
pub const ERROR_DETAIL_MAX_CHARS: usize = 300;

/// A provider's error message as it is reported: trimmed, at most
/// `ERROR_DETAIL_MAX_CHARS` characters, and absent when blank.
pub open spec fn detail_text(message: Seq<char>) -> Option<Seq<char>> {
    let t = trim(message);
    if t.len() == 0 {
        None
    } else if t.len() <= ERROR_DETAIL_MAX_CHARS {
        Some(t)
    } else {
        Some(t.take(ERROR_DETAIL_MAX_CHARS as int))
    }
}

/// The message of an error envelope: `{"error": "..."}` or
/// `{"error": {"message": "..."}}`.
pub open spec fn error_detail_of(envelope: JsonView) -> Option<Seq<char>> {
    match json_get(envelope, "error"@) {
        Some(JsonView::Text(m)) => detail_text(m),
        Some(JsonView::Object(ms)) => match as_text(json_get(JsonView::Object(ms), "message"@)) {
            Some(m) => detail_text(m),
            None => None,
        },
        _ => None,
    }
}

/// The message of an error body; nothing when the body is not JSON. The body
/// itself is never reported.
pub open spec fn error_detail(body: Seq<char>) -> Option<Seq<char>> {
    match json_parse(body) {
        Some(envelope) => error_detail_of(envelope),
        None => None,
    }
}

/// The error for an unsuccessful HTTP status with the given body.
pub open spec fn status_error(status: u16, body: Seq<char>, e: ProviderError) -> bool {
    if status == 401 || status == 403 {
        e == ProviderError::Authentication
    } else if status == 429 {
        e == ProviderError::RateLimited
    } else {
        e matches ProviderError::Http { status: s, detail } && s == status && match detail {
            Some(d) => error_detail(body) == Some(d@),
            None => error_detail(body) is None,
        }
    }
}

fn detail_of_text(message: &str) -> (r: Option<String>)
    ensures
        match r {
            Some(d) => detail_text(message@) == Some(d@),
            None => detail_text(message@) is None,
        },
{
    let t = trim_chars(&chars_of(message));
    if t.len() == 0 {
        return None;
    }
    let mut kept: Vec<char> = Vec::new();
    let mut i: usize = 0;
    while i < t.len() && i < ERROR_DETAIL_MAX_CHARS
        invariant
            i <= t@.len(),
            i <= ERROR_DETAIL_MAX_CHARS,
            kept@ == t@.take(i as int),
        decreases t@.len() - i,
    {
        kept.push(t[i]);
        i = i + 1;
        assert(kept@ =~= t@.take(i as int));
    }
    assert(t@.len() <= ERROR_DETAIL_MAX_CHARS ==> t@.take(t@.len() as int) =~= t@);
    Some(string_of(&kept))
}

/// The message of a parsed error envelope.
pub fn error_detail_from(envelope: &JsonValue) -> (r: Option<String>)
    ensures
        match r {
            Some(d) => error_detail_of(envelope@) == Some(d@),
            None => error_detail_of(envelope@) is None,
        },
{
    let error = get(envelope, "error");
    match error {
        Some(JsonValue::Text(m)) => detail_of_text(m.as_str()),
        Some(JsonValue::Object(_)) => match text_of(get(error.unwrap(), "message")) {
            Some(m) => detail_of_text(m),
            None => None,
        },
        _ => None,
    }
}

/// Pulls the human-readable message out of a provider's error body.
pub fn extract_error_message(body: &str) -> (r: Option<String>)
    ensures
        match r {
            Some(d) => error_detail(body@) == Some(d@),
            None => error_detail(body@) is None,
        },
{
    match parse_json(body) {
        Some(envelope) => error_detail_from(&envelope),
        None => None,
    }
}

impl ProviderError {
    /// The error for an unsuccessful HTTP status: 401 and 403 are
    /// authentication failures, 429 is rate limiting, any other status keeps
    /// the provider's message, if any.
    pub fn from_status_and_body(status: u16, body: &str) -> (e: ProviderError)
        ensures
            status_error(status, body@, e),
    {
        if status == 401 || status == 403 {
            ProviderError::Authentication
        } else if status == 429 {
            ProviderError::RateLimited
        } else {
            ProviderError::Http { status, detail: extract_error_message(body) }
        }
    }

    /// The error for a request that failed in transport: a timeout, or a
    /// transport failure with the client's description.
    pub fn from_transport(timed_out: bool, message: String) -> (e: ProviderError)
        ensures
            timed_out ==> e == ProviderError::Timeout,
            !timed_out ==> e == (ProviderError::Transport { message }),
    {
        if timed_out {
            ProviderError::Timeout
        } else {
            ProviderError::Transport { message }
        }
    }
}

} // verus!
