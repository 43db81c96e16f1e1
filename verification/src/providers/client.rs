//! Provider-neutral analysis requests and responses.

use vstd::prelude::*;
use crate::json::JsonValue;
use crate::providers::error::ProviderError;
use crate::ids::{hyphenated, id_to_string};
use crate::text::{
    decimal, is_blank, is_blank_str, push_decimal, push_decimal_wide, push_quoted, push_str, quoted,
};

verus! {

/// What a provider endpoint supports.
#[derive(Debug, Clone, Copy, PartialEq, Eq, Structural)]
pub struct ProviderCapabilities {
    pub image_input: bool,
    pub structured_output: bool,
}

impl ProviderCapabilities {
    /// Image input and structured (schema-constrained) output.
    pub fn full_multimodal_json_schema() -> (c: Self)
        ensures
            c.image_input && c.structured_output,
    {
        ProviderCapabilities { image_input: true, structured_output: true }
    }

    /// Image input without structured output.
    pub fn image_only() -> (c: Self)
        ensures
            c.image_input && !c.structured_output,
    {
        ProviderCapabilities { image_input: true, structured_output: false }
    }
}

/// One image sent for analysis: its media type and encoded bytes. No
/// `Debug` form is offered, so that neither the image nor a prompt can end up
/// in a log.
#[derive(Clone, PartialEq, Eq)]
pub struct AnalysisImage {
    pub media_type: String,
    pub bytes: Vec<u8>,
}

/// A request to a multimodal provider. `json_schema`, when present, is the
/// JSON schema the output must follow. A request carries no filesystem path.
#[derive(PartialEq)]
pub struct AnalysisRequest {
    pub model: String,
    pub prompt: String,
    pub json_schema: Option<JsonValue>,
    pub images: Vec<AnalysisImage>,
}

/// A provider's reply: the model output text, the HTTP status and the
/// provider's request identifier.
#[derive(Clone, PartialEq, Eq)]
pub struct RawModelResponse {
    pub body: String,
    pub status_code: u16,
    pub request_id: Option<String>,
}

/// What is recorded of a provider call: never the prompt, the images, the
/// reply or the secret.
#[derive(Clone, PartialEq, Eq)]
pub struct RequestLog {
    pub provider_id: u128,
    pub model: String,
    pub image_count: usize,
    pub duration_ms: u128,
    pub status_code: Option<u16>,
    pub request_id: Option<String>,
}

/// An optional value as it is printed: `Some(<value>)` or `None`.
pub open spec fn optional_text(v: Option<Seq<char>>) -> Seq<char> {
    match v {
        Some(t) => "Some("@ + t + ")"@,
        None => "None"@,
    }
}

/// The printed form of a request log: each field by name, the model and the
/// request identifier quoted. A log holds no prompt, image, reply or secret,
/// so none can show here.
pub open spec fn request_log_text(log: RequestLog) -> Seq<char> {
    "RequestLog { provider_id: "@ + hyphenated(log.provider_id) + ", model: "@ + quoted(log.model@)
        + ", image_count: "@ + decimal(log.image_count as nat) + ", duration_ms: "@ + decimal(
        log.duration_ms as nat,
    ) + ", status_code: "@ + optional_text(
        match log.status_code {
            Some(c) => Some(decimal(c as nat)),
            None => None,
        },
    ) + ", request_id: "@ + optional_text(
        match log.request_id {
            Some(r) => Some(quoted(r@)),
            None => None,
        },
    ) + " }"@
}

impl RequestLog {
    /// The printed form of the log, `request_log_text`.
    pub fn log_text(&self) -> (s: String)
        ensures
            s@ == request_log_text(*self),
    {
        let mut s = "RequestLog { provider_id: ".to_owned();
        push_str(&mut s, id_to_string(self.provider_id).as_str());
        push_str(&mut s, ", model: ");
        push_quoted(&mut s, self.model.as_str());
        push_str(&mut s, ", image_count: ");
        push_decimal(&mut s, self.image_count as u64);
        push_str(&mut s, ", duration_ms: ");
        push_decimal_wide(&mut s, self.duration_ms);
        push_str(&mut s, ", status_code: ");
        match self.status_code {
            Some(c) => {
                push_str(&mut s, "Some(");
                push_decimal(&mut s, c as u64);
                push_str(&mut s, ")");
            },
            None => {
                push_str(&mut s, "None");
            },
        }
        push_str(&mut s, ", request_id: ");
        match &self.request_id {
            Some(r) => {
                push_str(&mut s, "Some(");
                push_quoted(&mut s, r.as_str());
                push_str(&mut s, ")");
            },
            None => {
                push_str(&mut s, "None");
            },
        }
        push_str(&mut s, " }");
        s
    }
}

/// The printed form of an image: its media type and size, never its bytes.
pub open spec fn image_log_text(image: AnalysisImage) -> Seq<char> {
    "AnalysisImage { media_type: "@ + quoted(image.media_type@) + ", byte_len: "@ + decimal(
        image.bytes@.len(),
    ) + " }"@
}

/// The printed form of a request: its model, how many images it carries and
/// whether it has a schema, never the prompt, the images or the schema.
pub open spec fn request_log_form(req: AnalysisRequest) -> Seq<char> {
    "AnalysisRequest { model: "@ + quoted(req.model@) + ", image_count: "@ + decimal(
        req.images@.len(),
    ) + ", has_json_schema: "@ + (if req.json_schema is Some {
        "true"@
    } else {
        "false"@
    }) + " }"@
}

/// The printed form of a reply: its status and request identifier, never
/// its body.
pub open spec fn reply_log_text(reply: RawModelResponse) -> Seq<char> {
    "RawModelResponse { status_code: "@ + decimal(reply.status_code as nat) + ", request_id: "@
        + optional_text(
        match reply.request_id {
            Some(r) => Some(quoted(r@)),
            None => None,
        },
    ) + " }"@
}

impl AnalysisImage {
    /// The printed form of the image, `image_log_text`.
    pub fn log_text(&self) -> (s: String)
        ensures
            s@ == image_log_text(*self),
    {
        let mut s = "AnalysisImage { media_type: ".to_owned();
        push_quoted(&mut s, self.media_type.as_str());
        push_str(&mut s, ", byte_len: ");
        push_decimal(&mut s, self.bytes.len() as u64);
        push_str(&mut s, " }");
        s
    }
}

impl AnalysisRequest {
    /// The printed form of the request, `request_log_form`.
    pub fn log_text(&self) -> (s: String)
        ensures
            s@ == request_log_form(*self),
    {
        let mut s = "AnalysisRequest { model: ".to_owned();
        push_quoted(&mut s, self.model.as_str());
        push_str(&mut s, ", image_count: ");
        push_decimal(&mut s, self.images.len() as u64);
        push_str(&mut s, ", has_json_schema: ");
        if self.json_schema.is_some() {
            push_str(&mut s, "true");
        } else {
            push_str(&mut s, "false");
        }
        push_str(&mut s, " }");
        s
    }
}

impl RawModelResponse {
    /// The printed form of the reply, `reply_log_text`.
    pub fn log_text(&self) -> (s: String)
        ensures
            s@ == reply_log_text(*self),
    {
        let mut s = "RawModelResponse { status_code: ".to_owned();
        push_decimal(&mut s, self.status_code as u64);
        push_str(&mut s, ", request_id: ");
        match &self.request_id {
            Some(r) => {
                push_str(&mut s, "Some(");
                push_quoted(&mut s, r.as_str());
                push_str(&mut s, ")");
            },
            None => {
                push_str(&mut s, "None");
            },
        }
        push_str(&mut s, " }");
        s
    }
}

/// A secret (such as an API key). The library never prints it.
pub struct SecretString(String);

/// The secret a `SecretString` holds.
pub closed spec fn secret_text(s: SecretString) -> Seq<char> {
    s.0@
}

impl SecretString {
    pub fn new(secret: String) -> (s: Self)
        ensures
            secret_text(s) == secret@,
    {
        SecretString(secret)
    }

    /// The text shown for a secret wherever it would be printed.
    pub fn redacted(&self) -> (s: String)
        ensures
            s@ == "[REDACTED]"@,
    {
        "[REDACTED]".to_owned()
    }

    /// The secret itself, for the one place that must send it.
    pub fn expose_secret(&self) -> (s: &str)
        ensures
            s@ == secret_text(*self),
    {
        self.0.as_str()
    }
}

/// A request can be sent to an endpoint with the given capabilities: it names
/// a model, and it asks for images or structured output only where these are
/// supported.
pub open spec fn request_error(req: AnalysisRequest, caps: ProviderCapabilities) -> Option<
    ProviderError,
> {
    if is_blank(req.model@) {
        Some(ProviderError::MissingModel)
    } else if req.images@.len() > 0 && !caps.image_input {
        Some(ProviderError::CapabilityMismatch)
    } else if req.json_schema is Some && !caps.structured_output {
        Some(ProviderError::CapabilityMismatch)
    } else {
        None
    }
}

/// Checks a request against an endpoint's capabilities.
pub fn validate_request(request: &AnalysisRequest, capabilities: &ProviderCapabilities) -> (r:
    Result<(), ProviderError>)
    ensures
        match request_error(*request, *capabilities) {
            Some(e) => r == Err::<(), ProviderError>(e),
            None => r is Ok,
        },
{
    if is_blank_str(request.model.as_str()) {
        return Err(ProviderError::MissingModel);
    }
    if request.images.len() > 0 && !capabilities.image_input {
        return Err(ProviderError::CapabilityMismatch);
    }
    if request.json_schema.is_some() && !capabilities.structured_output {
        return Err(ProviderError::CapabilityMismatch);
    }
    Ok(())
}

/// A model name is required.
pub fn validate_model(model: &str) -> (r: Result<(), ProviderError>)
    ensures
        is_blank(model@) ==> r == Err::<(), ProviderError>(ProviderError::MissingModel),
        !is_blank(model@) ==> r is Ok,
{
    if is_blank_str(model) {
        Err(ProviderError::MissingModel)
    } else {
        Ok(())
    }
}

} // verus!
