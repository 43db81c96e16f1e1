//! What is sent to each provider: the endpoint, how the secret is presented,
//! and the JSON body of an analysis request; and how capabilities reported
//! by an endpoint are read.

use vstd::prelude::*;
use crate::json::{
    array_of, as_array, as_text, get, json_get, member_from, object1, object2, object3, text_value, views, JsonValue, JsonView,
};
use crate::providers::client::{
    request_error, validate_model, validate_request, AnalysisImage, AnalysisRequest,
    ProviderCapabilities, RawModelResponse,
};
use crate::providers::config::{ProviderConfig, ProviderKind};
use crate::providers::error::ProviderError;
use crate::providers::extract::{
    anthropic_messages_text, chat_completions_text, gemini_candidates_text, openai_responses_text,
};
use crate::text::{chars_of, is_blank, push_char, push_str, string_of};

verus! {

// ----- outside computations -----

/// The character of a 6-bit value in the standard base64 alphabet
/// (`A`-`Z`, `a`-`z`, `0`-`9`, `+`, `/`).
pub open spec fn base64_char(v: int) -> char {
    if v < 26 {
        (65 + v) as char
    } else if v < 52 {
        (97 + v - 26) as char
    } else if v < 62 {
        (48 + v - 52) as char
    } else if v == 62 {
        '+'
    } else {
        '/'
    }
}

/// The standard, padded base64 encoding of bytes (RFC 4648, section 4):
/// each group of three bytes becomes four characters of six bits each, and
/// a last group of one or two bytes is padded with `=`.
pub open spec fn base64_standard(bytes: Seq<u8>) -> Seq<char>
    decreases bytes.len(),
{
    if bytes.len() == 0 {
        Seq::empty()
    } else if bytes.len() == 1 {
        let a = bytes[0] as int;
        seq![base64_char(a / 4), base64_char((a % 4) * 16), '=', '=']
    } else if bytes.len() == 2 {
        let a = bytes[0] as int;
        let b = bytes[1] as int;
        seq![base64_char(a / 4), base64_char((a % 4) * 16 + b / 16), base64_char((b % 16) * 4), '=']
    } else {
        let a = bytes[0] as int;
        let b = bytes[1] as int;
        let c = bytes[2] as int;
        seq![
            base64_char(a / 4),
            base64_char((a % 4) * 16 + b / 16),
            base64_char((b % 16) * 4 + c / 64),
            base64_char(c % 64),
        ] + base64_standard(bytes.skip(3))
    }
}

/// The JSON number `serde_json::Number::from` gives for an unsigned integer.
pub uninterp spec fn number_of(n: u64) -> serde_json::Number;

/// What `url::Url::parse` makes of a text: the URL's serialization, or the
/// parse error's message.
pub uninterp spec fn url_parse(text: Seq<char>) -> Result<Seq<char>, Seq<char>>;

/// `base64::engine::general_purpose::STANDARD.encode`: the standard,
/// padded base64 text of the bytes, `base64_standard`.
#[verifier::external_body]
pub(crate) fn base64_encode(bytes: &Vec<u8>) -> (s: String)
    ensures
        s@ == base64_standard(bytes@),
{
    base64::Engine::encode(&base64::engine::general_purpose::STANDARD, bytes)
}

/// `serde_json::Number::from(n)`: the number named `number_of(n)`.
#[verifier::external_body]
fn number_from_u64(n: u64) -> (r: serde_json::Number)
    ensures
        r == number_of(n),
{
    serde_json::Number::from(n)
}

/// `url::Url::parse`: the serialization of the parsed URL, or the error's
/// message, as named by `url_parse`.
#[verifier::external_body]
pub(crate) fn parse_url(text: &str) -> (r: Result<String, String>)
    ensures
        match r {
            Ok(u) => url_parse(text@) == Ok::<Seq<char>, Seq<char>>(u@),
            Err(m) => url_parse(text@) == Err::<Seq<char>, Seq<char>>(m@),
        },
{
    match url::Url::parse(text) {
        Ok(url) => Ok(url.as_str().to_owned()),
        Err(error) => Err(error.to_string()),
    }
}

// ----- endpoints and credentials -----

/// A text without its trailing `/` characters.
pub open spec fn trim_end_slashes(s: Seq<char>) -> Seq<char>
    decreases s.len(),
{
    if s.len() > 0 && s.last() == '/' {
        trim_end_slashes(s.drop_last())
    } else {
        s
    }
}

/// A text without its leading `/` characters.
pub open spec fn trim_start_slashes(s: Seq<char>) -> Seq<char>
    decreases s.len(),
{
    if s.len() > 0 && s[0] == '/' {
        trim_start_slashes(s.drop_first())
    } else {
        s
    }
}

/// The text of an endpoint's URL: the base without trailing slashes, one
/// slash, and the endpoint without leading slashes.
pub open spec fn endpoint_text(base_url: Seq<char>, endpoint: Seq<char>) -> Seq<char> {
    trim_end_slashes(base_url) + "/"@ + trim_start_slashes(endpoint)
}

proof fn lemma_trim_end_slashes_prefix(s: Seq<char>, k: int)
    requires
        0 <= k <= s.len(),
        forall|j: int| k <= j < s.len() ==> s[j] == '/',
        k == 0 || s[k - 1] != '/',
    ensures
        trim_end_slashes(s) == s.take(k),
    decreases s.len(),
{
    if s.len() == k {
        assert(s.take(k) =~= s);
    } else {
        assert(s.drop_last().take(k) =~= s.take(k));
        lemma_trim_end_slashes_prefix(s.drop_last(), k);
    }
}

proof fn lemma_trim_start_slashes_suffix(s: Seq<char>, k: int)
    requires
        0 <= k <= s.len(),
        forall|j: int| 0 <= j < k ==> s[j] == '/',
        k == s.len() || s[k] != '/',
    ensures
        trim_start_slashes(s) == s.skip(k),
    decreases k,
{
    if k == 0 {
        assert(s.skip(0) =~= s);
    } else {
        assert(s.drop_first().skip(k - 1) =~= s.skip(k));
        lemma_trim_start_slashes_suffix(s.drop_first(), k - 1);
    }
}

/// `e` reports an endpoint URL that does not parse.
pub open spec fn is_url_error(e: ProviderError, message: Seq<char>) -> bool {
    e matches ProviderError::InvalidResponse { message: m } && m@ == "invalid provider URL: "@
        + message
}

/// The URL of an endpoint below a base URL.
pub fn endpoint_url(base_url: &str, endpoint: &str) -> (r: Result<String, ProviderError>)
    ensures
        match url_parse(endpoint_text(base_url@, endpoint@)) {
            Ok(u) => r matches Ok(s) && s@ == u,
            Err(m) => r matches Err(e) && is_url_error(e, m),
        },
{
    let b = chars_of(base_url);
    let mut k: usize = b.len();
    while k > 0 && b[k - 1] == '/'
        invariant
            k <= b@.len(),
            forall|j: int| k <= j < b@.len() ==> b@[j] == '/',
        decreases k,
    {
        k = k - 1;
    }
    let e = chars_of(endpoint);
    let mut s: usize = 0;
    while s < e.len() && e[s] == '/'
        invariant
            s <= e@.len(),
            forall|j: int| 0 <= j < s ==> e@[j] == '/',
        decreases e@.len() - s,
    {
        s = s + 1;
    }
    let mut text: Vec<char> = Vec::new();
    let mut i: usize = 0;
    while i < k
        invariant
            i <= k <= b@.len(),
            text@ == b@.take(i as int),
        decreases k - i,
    {
        text.push(b[i]);
        i = i + 1;
        assert(text@ =~= b@.take(i as int));
    }
    text.push('/');
    let mut j: usize = s;
    while j < e.len()
        invariant
            s <= j <= e@.len(),
            text@ == b@.take(k as int) + seq!['/'] + e@.subrange(s as int, j as int),
        decreases e@.len() - j,
    {
        text.push(e[j]);
        j = j + 1;
        assert(text@ =~= b@.take(k as int) + seq!['/'] + e@.subrange(s as int, j as int));
    }
    proof {
        lemma_trim_end_slashes_prefix(b@, k as int);
        lemma_trim_start_slashes_suffix(e@, s as int);
        reveal_strlit("/");
        assert(e@.subrange(s as int, e@.len() as int) =~= e@.skip(s as int));
        assert(text@ =~= endpoint_text(base_url@, endpoint@));
    }
    match parse_url(string_of(&text).as_str()) {
        Ok(u) => Ok(u),
        Err(m) => {
            let mut message = "invalid provider URL: ".to_owned();
            push_str(&mut message, m.as_str());
            Err(ProviderError::InvalidResponse { message })
        },
    }
}

/// How a provider expects its secret.
#[derive(Debug, Clone, Copy, PartialEq, Eq, Structural)]
pub enum ProviderAuth {
    /// `Authorization: Bearer <secret>`.
    Bearer,
    /// `x-api-key: <secret>` with `anthropic-version: 2023-06-01`.
    AnthropicKey,
    /// `x-goog-api-key: <secret>`.
    GoogleKey,
    /// Both `x-goog-api-key: <secret>` and `Authorization: Bearer <secret>`.
    GoogleKeyAndBearer,
}

pub open spec fn auth_of(kind: ProviderKind) -> ProviderAuth {
    match kind {
        ProviderKind::OpenAi | ProviderKind::OpenAiCompatible => ProviderAuth::Bearer,
        ProviderKind::Anthropic | ProviderKind::AnthropicCompatible => ProviderAuth::AnthropicKey,
        ProviderKind::Gemini => ProviderAuth::GoogleKey,
    }
}

pub fn provider_auth(kind: ProviderKind) -> (a: ProviderAuth)
    ensures
        a == auth_of(kind),
{
    match kind {
        ProviderKind::OpenAi | ProviderKind::OpenAiCompatible => ProviderAuth::Bearer,
        ProviderKind::Anthropic | ProviderKind::AnthropicCompatible => ProviderAuth::AnthropicKey,
        ProviderKind::Gemini => ProviderAuth::GoogleKey,
    }
}

/// How the secret is presented with an analysis request: as for every other
/// call, except that Gemini analysis requests also carry it as a bearer token.
pub open spec fn analysis_auth_of(kind: ProviderKind) -> ProviderAuth {
    match kind {
        ProviderKind::Gemini => ProviderAuth::GoogleKeyAndBearer,
        _ => auth_of(kind),
    }
}

pub fn analysis_auth(kind: ProviderKind) -> (a: ProviderAuth)
    ensures
        a == analysis_auth_of(kind),
{
    match kind {
        ProviderKind::Gemini => ProviderAuth::GoogleKeyAndBearer,
        _ => provider_auth(kind),
    }
}

/// The capabilities assumed for a kind when the endpoint does not report
/// them: Anthropic endpoints take images without structured output, the
/// others both.
pub open spec fn default_capabilities_of(kind: ProviderKind) -> ProviderCapabilities {
    match kind {
        ProviderKind::Anthropic | ProviderKind::AnthropicCompatible => ProviderCapabilities {
            image_input: true,
            structured_output: false,
        },
        _ => ProviderCapabilities { image_input: true, structured_output: true },
    }
}

pub fn default_capabilities(kind: ProviderKind) -> (c: ProviderCapabilities)
    ensures
        c == default_capabilities_of(kind),
{
    match kind {
        ProviderKind::Anthropic | ProviderKind::AnthropicCompatible => ProviderCapabilities::image_only(),
        _ => ProviderCapabilities::full_multimodal_json_schema(),
    }
}

/// The endpoint an analysis request is posted to.
pub open spec fn analysis_endpoint_of(kind: ProviderKind, model: Seq<char>) -> Seq<char> {
    match kind {
        ProviderKind::OpenAi => "responses"@,
        ProviderKind::OpenAiCompatible => "chat/completions"@,
        ProviderKind::Anthropic | ProviderKind::AnthropicCompatible => "messages"@,
        ProviderKind::Gemini => "models/"@ + model + ":generateContent"@,
    }
}

pub fn analysis_endpoint(kind: ProviderKind, model: &str) -> (s: String)
    ensures
        s@ == analysis_endpoint_of(kind, model@),
{
    match kind {
        ProviderKind::OpenAi => "responses".to_owned(),
        ProviderKind::OpenAiCompatible => "chat/completions".to_owned(),
        ProviderKind::Anthropic | ProviderKind::AnthropicCompatible => "messages".to_owned(),
        ProviderKind::Gemini => {
            let mut s = "models/".to_owned();
            push_str(&mut s, model);
            push_str(&mut s, ":generateContent");
            s
        },
    }
}

/// The endpoint describing a configured model (`GET models/<model>`).
pub fn model_endpoint(model: &str) -> (s: String)
    ensures
        s@ == "models/"@ + model@,
{
    let mut s = "models/".to_owned();
    push_str(&mut s, model);
    s
}

// ----- request bodies -----

pub open spec fn jtext(s: Seq<char>) -> JsonView {
    JsonView::Text(s)
}

/// `data:<media type>;base64,<bytes>`.
pub open spec fn data_url(img: AnalysisImage) -> Seq<char> {
    "data:"@ + img.media_type@ + ";base64,"@ + base64_standard(img.bytes@)
}

/// The request's schema, or `null`.
pub open spec fn schema_view(schema: Option<JsonValue>) -> JsonView {
    match schema {
        Some(v) => v@,
        None => JsonView::Null,
    }
}

/// A single user message with the given content.
pub open spec fn user_message(content_key: Seq<char>, content: Seq<JsonView>) -> JsonView {
    JsonView::Array(
        seq![JsonView::Object(seq![(content_key, JsonView::Array(content)), ("role"@, jtext("user"@))])],
    )
}

pub open spec fn typed_text(text: Seq<char>, ty: Seq<char>) -> JsonView {
    JsonView::Object(seq![("text"@, jtext(text)), ("type"@, jtext(ty))])
}

// OpenAI Responses

pub open spec fn responses_image(img: AnalysisImage) -> JsonView {
    JsonView::Object(seq![("image_url"@, jtext(data_url(img))), ("type"@, jtext("input_image"@))])
}

/// OpenAI Responses: the prompt as `input_text` followed by each image as
/// an `input_image` data URL, with JSON-object output and no schema.
pub open spec fn responses_body(req: AnalysisRequest) -> JsonView {
    JsonView::Object(
        seq![
            ("input"@, user_message("content"@, seq![typed_text(req.prompt@, "input_text"@)] + req.images@.map_values(|img: AnalysisImage| responses_image(img)))),
            ("model"@, jtext(req.model@)),
            ("text"@, JsonView::Object(seq![("format"@, JsonView::Object(seq![("type"@, jtext("json_object"@))]))])),
        ],
    )
}

// chat completions

pub open spec fn chat_image(img: AnalysisImage) -> JsonView {
    JsonView::Object(
        seq![("image_url"@, JsonView::Object(seq![("url"@, jtext(data_url(img)))])), ("type"@, jtext("image_url"@))],
    )
}

/// Chat completions: the prompt as a `text` part followed by each image as
/// an `image_url` part, with a strict JSON-schema response format.
pub open spec fn chat_body(req: AnalysisRequest) -> JsonView {
    JsonView::Object(
        seq![
            ("messages"@, user_message("content"@, seq![typed_text(req.prompt@, "text"@)] + req.images@.map_values(|img: AnalysisImage| chat_image(img)))),
            ("model"@, jtext(req.model@)),
            ("response_format"@, JsonView::Object(seq![
                ("json_schema"@, JsonView::Object(seq![
                    ("name"@, jtext("design_spec"@)),
                    ("schema"@, schema_view(req.json_schema)),
                    ("strict"@, JsonView::Bool(true)),
                ])),
                ("type"@, jtext("json_schema"@)),
            ])),
        ],
    )
}

// Anthropic Messages

pub open spec fn anthropic_image(img: AnalysisImage) -> JsonView {
    JsonView::Object(
        seq![
            ("source"@, JsonView::Object(seq![
                ("data"@, jtext(base64_standard(img.bytes@))),
                ("media_type"@, jtext(img.media_type@)),
                ("type"@, jtext("base64"@)),
            ])),
            ("type"@, jtext("image"@)),
        ],
    )
}

pub open spec fn anthropic_tool_description() -> Seq<char> {
    "Return the design specification as structured JSON."@
}

/// Anthropic Messages: each image as a base64 `image` block followed by the
/// prompt as a `text` block; the schema is sent as the input schema of a
/// forced tool only when the endpoint supports structured output.
pub open spec fn anthropic_body(req: AnalysisRequest, caps: ProviderCapabilities) -> JsonView {
    let base = seq![
        ("max_tokens"@, JsonView::Number(number_of(4096))),
        ("messages"@, user_message("content"@, req.images@.map_values(|img: AnalysisImage| anthropic_image(img)).push(typed_text(req.prompt@, "text"@)))),
        ("model"@, jtext(req.model@)),
    ];
    if caps.structured_output && req.json_schema is Some {
        JsonView::Object(
            base + seq![
                ("tool_choice"@, JsonView::Object(seq![("name"@, jtext("emit_design_spec"@)), ("type"@, jtext("tool"@))])),
                ("tools"@, JsonView::Array(seq![JsonView::Object(seq![
                    ("description"@, jtext(anthropic_tool_description())),
                    ("input_schema"@, schema_view(req.json_schema)),
                    ("name"@, jtext("emit_design_spec"@)),
                ])])),
            ],
        )
    } else {
        JsonView::Object(base)
    }
}

// Gemini generateContent

pub open spec fn gemini_image(img: AnalysisImage) -> JsonView {
    JsonView::Object(
        seq![("inline_data"@, JsonView::Object(seq![("data"@, jtext(base64_standard(img.bytes@))), ("mime_type"@, jtext(img.media_type@))]))],
    )
}

/// Gemini's generation settings: JSON output, following the schema when
/// the request has one.
pub open spec fn gemini_generation_config(schema: Option<JsonValue>) -> JsonView {
    match schema {
        Some(v) => JsonView::Object(
            seq![("response_mime_type"@, jtext("application/json"@)), ("response_schema"@, v@)],
        ),
        None => JsonView::Object(seq![("response_mime_type"@, jtext("application/json"@))]),
    }
}

/// Gemini: the prompt as a `text` part followed by each image as
/// `inline_data`, asking for JSON output that follows the request's schema.
pub open spec fn gemini_body(req: AnalysisRequest) -> JsonView {
    JsonView::Object(
        seq![
            ("contents"@, user_message("parts"@, seq![JsonView::Object(seq![("text"@, jtext(req.prompt@))])] + req.images@.map_values(|img: AnalysisImage| gemini_image(img)))),
            ("generationConfig"@, gemini_generation_config(req.json_schema)),
        ],
    )
}

/// The data URL of an image.
pub fn image_data_url(image: &AnalysisImage) -> (s: String)
    ensures
        s@ == data_url(*image),
{
    let mut s = "data:".to_owned();
    push_str(&mut s, image.media_type.as_str());
    push_str(&mut s, ";base64,");
    push_str(&mut s, base64_encode(&image.bytes).as_str());
    s
}

/// The base64 text of an image's bytes.
pub fn base64_image(image: &AnalysisImage) -> (s: String)
    ensures
        s@ == base64_standard(image.bytes@),
{
    base64_encode(&image.bytes)
}

fn user_message_value(content_key: &str, content: Vec<JsonValue>) -> (v: JsonValue)
    ensures
        v@ == user_message(content_key@, views(content@)),
{
    let message = object2(content_key, array_of(content), "role", text_value("user"));
    let mut messages: Vec<JsonValue> = Vec::new();
    messages.push(message);
    let v = array_of(messages);
    assert(views(messages@) =~= seq![views(messages@)[0]]);
    v
}

fn typed_text_value(text: &str, ty: &str) -> (v: JsonValue)
    ensures
        v@ == typed_text(text@, ty@),
{
    object2("text", text_value(text), "type", text_value(ty))
}

/// Which image part a body uses.
#[derive(Clone, Copy, PartialEq, Eq, Structural)]
enum ImagePart {
    Responses,
    Chat,
    Anthropic,
    Gemini,
}

spec fn image_part_view(which: ImagePart, img: AnalysisImage) -> JsonView {
    match which {
        ImagePart::Responses => responses_image(img),
        ImagePart::Chat => chat_image(img),
        ImagePart::Anthropic => anthropic_image(img),
        ImagePart::Gemini => gemini_image(img),
    }
}

fn image_part(which: ImagePart, img: &AnalysisImage) -> (v: JsonValue)
    ensures
        v@ == image_part_view(which, *img),
{
    match which {
        ImagePart::Responses => object2(
            "image_url",
            text_value(image_data_url(img).as_str()),
            "type",
            text_value("input_image"),
        ),
        ImagePart::Chat => object2(
            "image_url",
            object1("url", text_value(image_data_url(img).as_str())),
            "type",
            text_value("image_url"),
        ),
        ImagePart::Anthropic => object2(
            "source",
            object3(
                "data",
                text_value(base64_image(img).as_str()),
                "media_type",
                text_value(img.media_type.as_str()),
                "type",
                text_value("base64"),
            ),
            "type",
            text_value("image"),
        ),
        ImagePart::Gemini => object1(
            "inline_data",
            object2(
                "data",
                text_value(base64_image(img).as_str()),
                "mime_type",
                text_value(img.media_type.as_str()),
            ),
        ),
    }
}

/// Appends one part per image.
fn push_image_parts(parts: &mut Vec<JsonValue>, which: ImagePart, images: &Vec<AnalysisImage>)
    ensures
        views(final(parts)@) == views(old(parts)@) + images@.map_values(
            |img: AnalysisImage| image_part_view(which, img),
        ),
{
    let ghost start = views(parts@);
    let mut i: usize = 0;
    while i < images.len()
        invariant
            i <= images@.len(),
            views(parts@) == start + images@.take(i as int).map_values(
                |img: AnalysisImage| image_part_view(which, img),
            ),
        decreases images@.len() - i,
    {
        let part = image_part(which, &images[i]);
        let ghost prev = parts@;
        let ghost pv = part@;
        parts.push(part);
        assert(views(parts@) =~= views(prev).push(pv));
        assert(images@.take(i + 1).map_values(|img: AnalysisImage| image_part_view(which, img))
            =~= images@.take(i as int).map_values(
            |img: AnalysisImage| image_part_view(which, img),
        ).push(image_part_view(which, images@[i as int])));
        i = i + 1;
        assert(views(parts@) =~= start + images@.take(i as int).map_values(
            |img: AnalysisImage| image_part_view(which, img),
        ));
    }
    assert(images@.take(images@.len() as int) =~= images@);
}

/// The body of an OpenAI Responses request.
pub fn responses_request_body(request: AnalysisRequest) -> (v: JsonValue)
    ensures
        v@ == responses_body(request),
{
    let mut parts: Vec<JsonValue> = Vec::new();
    parts.push(typed_text_value(request.prompt.as_str(), "input_text"));
    assert(views(parts@) =~= seq![typed_text(request.prompt@, "input_text"@)]);
    push_image_parts(&mut parts, ImagePart::Responses, &request.images);
    assert(request.images@.map_values(|img: AnalysisImage| image_part_view(ImagePart::Responses, img))
        =~= request.images@.map_values(|img: AnalysisImage| responses_image(img)));
    assert(views(parts@) =~= seq![typed_text(request.prompt@, "input_text"@)]
        + request.images@.map_values(|img: AnalysisImage| responses_image(img)));
    object3(
        "input",
        user_message_value("content", parts),
        "model",
        text_value(request.model.as_str()),
        "text",
        object1("format", object1("type", text_value("json_object"))),
    )
}

/// The body of a chat-completions request.
pub fn chat_request_body(request: AnalysisRequest) -> (v: JsonValue)
    ensures
        v@ == chat_body(request),
{
    let ghost req = request;
    let AnalysisRequest { model, prompt, json_schema, images } = request;
    let mut parts: Vec<JsonValue> = Vec::new();
    parts.push(typed_text_value(prompt.as_str(), "text"));
    assert(views(parts@) =~= seq![typed_text(req.prompt@, "text"@)]);
    push_image_parts(&mut parts, ImagePart::Chat, &images);
    assert(images@.map_values(|img: AnalysisImage| image_part_view(ImagePart::Chat, img))
        =~= images@.map_values(|img: AnalysisImage| chat_image(img)));
    assert(views(parts@) =~= seq![typed_text(req.prompt@, "text"@)]
        + req.images@.map_values(|img: AnalysisImage| chat_image(img)));
    let schema = match json_schema {
        Some(s) => s,
        None => JsonValue::Null,
    };
    assert(schema@ == schema_view(req.json_schema));
    object3(
        "messages",
        user_message_value("content", parts),
        "model",
        text_value(model.as_str()),
        "response_format",
        object2(
            "json_schema",
            object3("name", text_value("design_spec"), "schema", schema, "strict", JsonValue::Bool(true)),
            "type",
            text_value("json_schema"),
        ),
    )
}

/// The body of an Anthropic Messages request.
pub fn anthropic_request_body(request: AnalysisRequest, capabilities: ProviderCapabilities) -> (v:
    JsonValue)
    ensures
        v@ == anthropic_body(request, capabilities),
{
    let ghost req = request;
    let AnalysisRequest { model, prompt, json_schema, images } = request;
    let mut content: Vec<JsonValue> = Vec::new();
    push_image_parts(&mut content, ImagePart::Anthropic, &images);
    assert(images@.map_values(|img: AnalysisImage| image_part_view(ImagePart::Anthropic, img))
        =~= images@.map_values(|img: AnalysisImage| anthropic_image(img)));
    let ghost before = views(content@);
    content.push(typed_text_value(prompt.as_str(), "text"));
    assert(views(content@) =~= before.push(typed_text(req.prompt@, "text"@)));
    let mut members: Vec<crate::json::JsonMember> = Vec::new();
    members.push(
        crate::json::JsonMember {
            key: "max_tokens".to_owned(),
            value: JsonValue::Number(number_from_u64(4096)),
        },
    );
    members.push(
        crate::json::JsonMember {
            key: "messages".to_owned(),
            value: user_message_value("content", content),
        },
    );
    members.push(
        crate::json::JsonMember { key: "model".to_owned(), value: text_value(model.as_str()) },
    );
    let ghost base = crate::json::entries_of(members@);
    match json_schema {
        Some(schema) => {
            if capabilities.structured_output {
                members.push(
                    crate::json::JsonMember {
                        key: "tool_choice".to_owned(),
                        value: object2(
                            "name",
                            text_value("emit_design_spec"),
                            "type",
                            text_value("tool"),
                        ),
                    },
                );
                let tool = object3(
                    "description",
                    text_value("Return the design specification as structured JSON."),
                    "input_schema",
                    schema,
                    "name",
                    text_value("emit_design_spec"),
                );
                let mut tools: Vec<JsonValue> = Vec::new();
                tools.push(tool);
                assert(views(tools@) =~= seq![views(tools@)[0]]);
                members.push(crate::json::JsonMember { key: "tools".to_owned(), value: array_of(tools) });
            }
        },
        None => {},
    }
    let v = crate::json::object_of(members);
    proof {
        assert(base =~= seq![
            ("max_tokens"@, JsonView::Number(number_of(4096))),
            ("messages"@, user_message("content"@, req.images@.map_values(|img: AnalysisImage| anthropic_image(img)).push(typed_text(req.prompt@, "text"@)))),
            ("model"@, jtext(req.model@)),
        ]);
        if capabilities.structured_output && req.json_schema is Some {
            assert(v@->Object_0 =~= anthropic_body(req, capabilities)->Object_0);
        } else {
            assert(v@->Object_0 =~= anthropic_body(req, capabilities)->Object_0);
        }
    }
    v
}

/// The body of a Gemini generateContent request.
pub fn gemini_request_body(request: AnalysisRequest) -> (v: JsonValue)
    ensures
        v@ == gemini_body(request),
{
    let mut parts: Vec<JsonValue> = Vec::new();
    parts.push(object1("text", text_value(request.prompt.as_str())));
    assert(views(parts@) =~= seq![JsonView::Object(seq![("text"@, jtext(request.prompt@))])]);
    push_image_parts(&mut parts, ImagePart::Gemini, &request.images);
    assert(request.images@.map_values(|img: AnalysisImage| image_part_view(ImagePart::Gemini, img))
        =~= request.images@.map_values(|img: AnalysisImage| gemini_image(img)));
    assert(views(parts@) =~= seq![JsonView::Object(seq![("text"@, jtext(request.prompt@))])]
        + request.images@.map_values(|img: AnalysisImage| gemini_image(img)));
    let contents = user_message_value("parts", parts);
    let config = match request.json_schema {
        Some(schema) => object2(
            "response_mime_type",
            text_value("application/json"),
            "response_schema",
            schema,
        ),
        None => object1("response_mime_type", text_value("application/json")),
    };
    object2("contents", contents, "generationConfig", config)
}

// ----- preparing calls -----

/// An HTTP call to make: where to, how to present the secret, and the body.
pub struct ProviderCall {
    pub url: String,
    pub auth: ProviderAuth,
    pub body: JsonValue,
}

/// Why a request cannot be sent to an endpoint of this kind: Anthropic
/// endpoints need a model and image support for images (an unsupported
/// schema is left out of the body); the others are checked by
/// `request_error`.
pub open spec fn analysis_refusal(
    kind: ProviderKind,
    req: AnalysisRequest,
    caps: ProviderCapabilities,
) -> Option<ProviderError> {
    match kind {
        ProviderKind::Anthropic | ProviderKind::AnthropicCompatible => if is_blank(req.model@) {
            Some(ProviderError::MissingModel)
        } else if req.images@.len() > 0 && !caps.image_input {
            Some(ProviderError::CapabilityMismatch)
        } else {
            None
        },
        _ => request_error(req, caps),
    }
}

/// The body sent for a request to an endpoint of this kind.
pub open spec fn analysis_body(
    kind: ProviderKind,
    req: AnalysisRequest,
    caps: ProviderCapabilities,
) -> JsonView {
    match kind {
        ProviderKind::OpenAi => responses_body(req),
        ProviderKind::OpenAiCompatible => chat_body(req),
        ProviderKind::Anthropic | ProviderKind::AnthropicCompatible => anthropic_body(req, caps),
        ProviderKind::Gemini => gemini_body(req),
    }
}

// ----- what each body carries -----

/// The member `key` of an optional value.
pub open spec fn json_at(v: Option<JsonView>, key: Seq<char>) -> Option<JsonView> {
    match v {
        Some(x) => json_get(x, key),
        None => None,
    }
}

/// The parts of the first message of a body: the array under `parts_key`
/// of the first element of the array under `list_key`.
pub open spec fn first_message_parts(
    body: JsonView,
    list_key: Seq<char>,
    parts_key: Seq<char>,
) -> Option<Seq<JsonView>> {
    match as_array(json_get(body, list_key)) {
        Some(ms) => if ms.len() > 0 {
            as_array(json_get(ms[0], parts_key))
        } else {
            None
        },
        None => None,
    }
}

proof fn lemma_member_found(ms: Seq<(Seq<char>, JsonView)>, key: Seq<char>, i: int, k: int)
    requires
        0 <= i <= k < ms.len(),
        ms[k].0 == key,
        forall|j: int| i <= j < k ==> ms[j].0 != key,
    ensures
        member_from(ms, key, i) == Some(ms[k].1),
    decreases k - i,
{
    if i < k {
        lemma_member_found(ms, key, i + 1, k);
    }
}

proof fn lemma_member_absent(ms: Seq<(Seq<char>, JsonView)>, key: Seq<char>, i: int)
    requires
        0 <= i,
        forall|j: int| i <= j < ms.len() ==> ms[j].0 != key,
    ensures
        member_from(ms, key, i) == None::<JsonView>,
    decreases ms.len() - i,
{
    if i < ms.len() {
        lemma_member_absent(ms, key, i + 1);
    }
}

/// A chat-completions body carries, in its first message, the prompt as a
/// `text` part followed by one `image_url` part per image of the request, in
/// order, each holding the image as a `data:<media type>;base64,<bytes>` URL:
/// no image is left out and none is added.
pub proof fn law_chat_body_sends_prompt_then_every_image(
    req: AnalysisRequest,
    caps: ProviderCapabilities,
)
    ensures
        first_message_parts(
            analysis_body(ProviderKind::OpenAiCompatible, req, caps),
            "messages"@,
            "content"@,
        ) is Some,
        ({
            let parts = first_message_parts(
                analysis_body(ProviderKind::OpenAiCompatible, req, caps),
                "messages"@,
                "content"@,
            )->0;
            &&& parts.len() == req.images@.len() + 1
            &&& as_text(json_get(parts[0], "type"@)) == Some("text"@)
            &&& as_text(json_get(parts[0], "text"@)) == Some(req.prompt@)
            &&& forall|i: int|
                0 <= i < req.images@.len() ==> {
                    &&& as_text(json_get(parts[i + 1], "type"@)) == Some("image_url"@)
                    &&& as_text(json_at(json_get(parts[i + 1], "image_url"@), "url"@)) == Some(
                        "data:"@ + (#[trigger] req.images@[i]).media_type@ + ";base64,"@
                            + base64_standard(req.images@[i].bytes@),
                    )
                }
        }),
{
    reveal_strlit("text");
    reveal_strlit("type");
    reveal_strlit("image_url");
    let imgs = req.images@;
    let parts = seq![typed_text(req.prompt@, "text"@)] + imgs.map_values(
        |img: AnalysisImage| chat_image(img),
    );
    let body = analysis_body(ProviderKind::OpenAiCompatible, req, caps);
    assert(json_get(body, "messages"@) == Some(user_message("content"@, parts)));
    assert(first_message_parts(body, "messages"@, "content"@) == Some(parts));
    let tt = seq![("text"@, jtext(req.prompt@)), ("type"@, jtext("text"@))];
    assert("text"@ != "type"@) by {
        assert("text"@[2] != "type"@[2]);
    }
    lemma_member_found(tt, "type"@, 0, 1);
    assert forall|i: int| 0 <= i < imgs.len() implies {
        &&& as_text(json_get(parts[i + 1], "type"@)) == Some("image_url"@)
        &&& as_text(json_at(json_get(parts[i + 1], "image_url"@), "url"@)) == Some(
            "data:"@ + (#[trigger] imgs[i]).media_type@ + ";base64,"@ + base64_standard(
                imgs[i].bytes@,
            ),
        )
    } by {
        let img = imgs[i];
        assert(parts[i + 1] == chat_image(img));
        let ms = seq![
            ("image_url"@, JsonView::Object(seq![("url"@, jtext(data_url(img)))])),
            ("type"@, jtext("image_url"@)),
        ];
        assert("image_url"@.len() != "type"@.len());
        lemma_member_found(ms, "type"@, 0, 1);
    }
}

/// An OpenAI Responses body carries, in its first input message, the prompt
/// as an `input_text` part followed by one `input_image` part per image of
/// the request, in order, each holding the image as a
/// `data:<media type>;base64,<bytes>` URL.
pub proof fn law_responses_body_sends_prompt_then_every_image(
    req: AnalysisRequest,
    caps: ProviderCapabilities,
)
    ensures
        first_message_parts(analysis_body(ProviderKind::OpenAi, req, caps), "input"@, "content"@)
            is Some,
        ({
            let parts = first_message_parts(
                analysis_body(ProviderKind::OpenAi, req, caps),
                "input"@,
                "content"@,
            )->0;
            &&& parts.len() == req.images@.len() + 1
            &&& as_text(json_get(parts[0], "type"@)) == Some("input_text"@)
            &&& as_text(json_get(parts[0], "text"@)) == Some(req.prompt@)
            &&& forall|i: int|
                0 <= i < req.images@.len() ==> {
                    &&& as_text(json_get(parts[i + 1], "type"@)) == Some("input_image"@)
                    &&& as_text(json_get(parts[i + 1], "image_url"@)) == Some(
                        "data:"@ + (#[trigger] req.images@[i]).media_type@ + ";base64,"@
                            + base64_standard(req.images@[i].bytes@),
                    )
                }
        }),
{
    reveal_strlit("text");
    reveal_strlit("type");
    reveal_strlit("image_url");
    let imgs = req.images@;
    let parts = seq![typed_text(req.prompt@, "input_text"@)] + imgs.map_values(
        |img: AnalysisImage| responses_image(img),
    );
    let body = analysis_body(ProviderKind::OpenAi, req, caps);
    assert(json_get(body, "input"@) == Some(user_message("content"@, parts)));
    assert(first_message_parts(body, "input"@, "content"@) == Some(parts));
    let tt = seq![("text"@, jtext(req.prompt@)), ("type"@, jtext("input_text"@))];
    assert("text"@ != "type"@) by {
        assert("text"@[2] != "type"@[2]);
    }
    lemma_member_found(tt, "type"@, 0, 1);
    assert forall|i: int| 0 <= i < imgs.len() implies {
        &&& as_text(json_get(parts[i + 1], "type"@)) == Some("input_image"@)
        &&& as_text(json_get(parts[i + 1], "image_url"@)) == Some(
            "data:"@ + (#[trigger] imgs[i]).media_type@ + ";base64,"@ + base64_standard(
                imgs[i].bytes@,
            ),
        )
    } by {
        let img = imgs[i];
        assert(parts[i + 1] == responses_image(img));
        let ms = seq![("image_url"@, jtext(data_url(img))), ("type"@, jtext("input_image"@))];
        assert("image_url"@.len() != "type"@.len());
        lemma_member_found(ms, "type"@, 0, 1);
    }
}

/// An Anthropic Messages body (of an Anthropic or Anthropic-compatible
/// endpoint) carries, in its first message, one base64
/// `image` block per image of the request, in order, each with the image's
/// media type and bytes, followed by the prompt as a `text` block.
pub proof fn law_anthropic_body_sends_every_image_then_prompt(
    kind: ProviderKind,
    req: AnalysisRequest,
    caps: ProviderCapabilities,
)
    requires
        kind == ProviderKind::Anthropic || kind == ProviderKind::AnthropicCompatible,
    ensures
        first_message_parts(
            analysis_body(kind, req, caps),
            "messages"@,
            "content"@,
        ) is Some,
        ({
            let parts = first_message_parts(
                analysis_body(kind, req, caps),
                "messages"@,
                "content"@,
            )->0;
            let n = req.images@.len() as int;
            &&& parts.len() == n + 1
            &&& as_text(json_get(parts[n], "type"@)) == Some("text"@)
            &&& as_text(json_get(parts[n], "text"@)) == Some(req.prompt@)
            &&& forall|i: int|
                0 <= i < n ==> {
                    &&& as_text(json_get(parts[i], "type"@)) == Some("image"@)
                    &&& as_text(json_at(json_get(parts[i], "source"@), "type"@)) == Some(
                        "base64"@,
                    )
                    &&& as_text(json_at(json_get(parts[i], "source"@), "media_type"@)) == Some(
                        (#[trigger] req.images@[i]).media_type@,
                    )
                    &&& as_text(json_at(json_get(parts[i], "source"@), "data"@)) == Some(
                        base64_standard(req.images@[i].bytes@),
                    )
                }
        }),
{
    reveal_strlit("text");
    reveal_strlit("type");
    reveal_strlit("source");
    reveal_strlit("data");
    reveal_strlit("media_type");
    reveal_strlit("max_tokens");
    reveal_strlit("messages");
    let imgs = req.images@;
    let n = imgs.len() as int;
    let parts = imgs.map_values(|img: AnalysisImage| anthropic_image(img)).push(
        typed_text(req.prompt@, "text"@),
    );
    let body = analysis_body(kind, req, caps);
    let base = seq![
        ("max_tokens"@, JsonView::Number(number_of(4096))),
        ("messages"@, user_message("content"@, parts)),
        ("model"@, jtext(req.model@)),
    ];
    assert("max_tokens"@.len() != "messages"@.len());
    assert(body matches JsonView::Object(ms) && ms.len() >= 3 && ms[0] == base[0] && ms[1]
        == base[1]);
    if let JsonView::Object(ms) = body {
        lemma_member_found(ms, "messages"@, 0, 1);
    }
    assert(json_get(body, "messages"@) == Some(user_message("content"@, parts)));
    assert(first_message_parts(body, "messages"@, "content"@) == Some(parts));
    let tt = seq![("text"@, jtext(req.prompt@)), ("type"@, jtext("text"@))];
    assert("text"@ != "type"@) by {
        assert("text"@[2] != "type"@[2]);
    }
    lemma_member_found(tt, "type"@, 0, 1);
    assert(parts[n] == typed_text(req.prompt@, "text"@));
    assert forall|i: int| 0 <= i < n implies {
        &&& as_text(json_get(parts[i], "type"@)) == Some("image"@)
        &&& as_text(json_at(json_get(parts[i], "source"@), "type"@)) == Some("base64"@)
        &&& as_text(json_at(json_get(parts[i], "source"@), "media_type"@)) == Some(
            (#[trigger] imgs[i]).media_type@,
        )
        &&& as_text(json_at(json_get(parts[i], "source"@), "data"@)) == Some(
            base64_standard(imgs[i].bytes@),
        )
    } by {
        let img = imgs[i];
        assert(parts[i] == anthropic_image(img));
        let src = seq![
            ("data"@, jtext(base64_standard(img.bytes@))),
            ("media_type"@, jtext(img.media_type@)),
            ("type"@, jtext("base64"@)),
        ];
        let ms = seq![("source"@, JsonView::Object(src)), ("type"@, jtext("image"@))];
        assert("source"@.len() != "type"@.len());
        assert("data"@.len() != "media_type"@.len());
        assert("media_type"@.len() != "type"@.len());
        assert("data"@ != "type"@) by {
            assert("data"@[0] != "type"@[0]);
        }
        lemma_member_found(ms, "type"@, 0, 1);
        lemma_member_found(src, "media_type"@, 0, 1);
        lemma_member_found(src, "type"@, 0, 2);
    }
}

/// A Gemini body carries, in its first content, the prompt as a `text` part
/// followed by one `inline_data` part per image of the request, in order,
/// each with the image's media type and base64 bytes.
pub proof fn law_gemini_body_sends_prompt_then_every_image(
    req: AnalysisRequest,
    caps: ProviderCapabilities,
)
    ensures
        first_message_parts(analysis_body(ProviderKind::Gemini, req, caps), "contents"@, "parts"@)
            is Some,
        ({
            let parts = first_message_parts(
                analysis_body(ProviderKind::Gemini, req, caps),
                "contents"@,
                "parts"@,
            )->0;
            &&& parts.len() == req.images@.len() + 1
            &&& as_text(json_get(parts[0], "text"@)) == Some(req.prompt@)
            &&& forall|i: int|
                0 <= i < req.images@.len() ==> {
                    &&& as_text(json_at(json_get(parts[i + 1], "inline_data"@), "mime_type"@))
                        == Some((#[trigger] req.images@[i]).media_type@)
                    &&& as_text(json_at(json_get(parts[i + 1], "inline_data"@), "data"@)) == Some(
                        base64_standard(req.images@[i].bytes@),
                    )
                }
        }),
{
    reveal_strlit("data");
    reveal_strlit("mime_type");
    let imgs = req.images@;
    let parts = seq![JsonView::Object(seq![("text"@, jtext(req.prompt@))])] + imgs.map_values(
        |img: AnalysisImage| gemini_image(img),
    );
    let body = analysis_body(ProviderKind::Gemini, req, caps);
    assert(json_get(body, "contents"@) == Some(user_message("parts"@, parts)));
    assert(first_message_parts(body, "contents"@, "parts"@) == Some(parts));
    assert forall|i: int| 0 <= i < imgs.len() implies {
        &&& as_text(json_at(json_get(parts[i + 1], "inline_data"@), "mime_type"@)) == Some(
            (#[trigger] imgs[i]).media_type@,
        )
        &&& as_text(json_at(json_get(parts[i + 1], "inline_data"@), "data"@)) == Some(
            base64_standard(imgs[i].bytes@),
        )
    } by {
        let img = imgs[i];
        assert(parts[i + 1] == gemini_image(img));
        let inner = seq![
            ("data"@, jtext(base64_standard(img.bytes@))),
            ("mime_type"@, jtext(img.media_type@)),
        ];
        assert("data"@.len() != "mime_type"@.len());
        lemma_member_found(inner, "mime_type"@, 0, 1);
    }
}

/// A chat-completions body names the request's model and asks for output
/// that follows the request's schema strictly: `response_format` is of type
/// `json_schema`, named `design_spec`, with `strict` set and the schema (or
/// `null`) under `schema`.
pub proof fn law_chat_body_asks_for_the_schema_strictly(
    req: AnalysisRequest,
    caps: ProviderCapabilities,
)
    ensures
        ({
            let b = analysis_body(ProviderKind::OpenAiCompatible, req, caps);
            let js = json_at(json_get(b, "response_format"@), "json_schema"@);
            &&& as_text(json_get(b, "model"@)) == Some(req.model@)
            &&& as_text(json_at(json_get(b, "response_format"@), "type"@)) == Some("json_schema"@)
            &&& as_text(json_at(js, "name"@)) == Some("design_spec"@)
            &&& json_at(js, "strict"@) == Some(JsonView::Bool(true))
            &&& json_at(js, "schema"@) == Some(
                match req.json_schema {
                    Some(v) => v@,
                    None => JsonView::Null,
                },
            )
        }),
{
    reveal_strlit("messages");
    reveal_strlit("model");
    reveal_strlit("response_format");
    reveal_strlit("json_schema");
    reveal_strlit("type");
    reveal_strlit("name");
    reveal_strlit("schema");
    reveal_strlit("strict");
    let b = analysis_body(ProviderKind::OpenAiCompatible, req, caps);
    let js = seq![
        ("name"@, jtext("design_spec"@)),
        ("schema"@, schema_view(req.json_schema)),
        ("strict"@, JsonView::Bool(true)),
    ];
    let rf = seq![("json_schema"@, JsonView::Object(js)), ("type"@, jtext("json_schema"@))];
    assert(b matches JsonView::Object(ms) && ms.len() == 3 && ms[1] == ("model"@, jtext(req.model@))
        && ms[2] == ("response_format"@, JsonView::Object(rf)));
    if let JsonView::Object(ms) = b {
        assert(ms[0].0 == "messages"@);
        assert("messages"@.len() != "model"@.len());
        assert("messages"@.len() != "response_format"@.len());
        assert("model"@.len() != "response_format"@.len());
        lemma_member_found(ms, "model"@, 0, 1);
        lemma_member_found(ms, "response_format"@, 0, 2);
    }
    assert("json_schema"@.len() != "type"@.len());
    lemma_member_found(rf, "type"@, 0, 1);
    assert("name"@.len() != "schema"@.len());
    assert("name"@.len() != "strict"@.len());
    assert("schema"@ != "strict"@) by {
        assert("schema"@[1] != "strict"@[1]);
    }
    lemma_member_found(js, "schema"@, 0, 1);
    lemma_member_found(js, "strict"@, 0, 2);
}

/// An OpenAI Responses body names the request's model and asks for a JSON
/// object as output (`text.format.type` is `json_object`).
pub proof fn law_responses_body_asks_for_a_json_object(
    req: AnalysisRequest,
    caps: ProviderCapabilities,
)
    ensures
        ({
            let b = analysis_body(ProviderKind::OpenAi, req, caps);
            &&& as_text(json_get(b, "model"@)) == Some(req.model@)
            &&& as_text(json_at(json_at(json_get(b, "text"@), "format"@), "type"@)) == Some(
                "json_object"@,
            )
        }),
{
    reveal_strlit("input");
    reveal_strlit("model");
    reveal_strlit("text");
    let b = analysis_body(ProviderKind::OpenAi, req, caps);
    let fmt = JsonView::Object(seq![("format"@, JsonView::Object(seq![("type"@, jtext("json_object"@))]))]);
    assert(b matches JsonView::Object(ms) && ms.len() == 3 && ms[1] == ("model"@, jtext(req.model@))
        && ms[2] == ("text"@, fmt));
    if let JsonView::Object(ms) = b {
        assert(ms[0].0 == "input"@);
        assert("input"@.len() != "text"@.len());
        assert("model"@.len() != "text"@.len());
        assert("input"@ != "model"@) by {
            assert("input"@[0] != "model"@[0]);
        }
        lemma_member_found(ms, "model"@, 0, 1);
        lemma_member_found(ms, "text"@, 0, 2);
    }
}

/// An Anthropic Messages body names the request's model; it carries the
/// forced `emit_design_spec` tool, whose input schema is the request's
/// schema, exactly when the endpoint supports structured output and the
/// request has a schema, and no tool otherwise.
pub proof fn law_anthropic_body_forces_the_tool_only_with_structured_output(
    kind: ProviderKind,
    req: AnalysisRequest,
    caps: ProviderCapabilities,
)
    requires
        kind == ProviderKind::Anthropic || kind == ProviderKind::AnthropicCompatible,
    ensures
        ({
            let b = analysis_body(kind, req, caps);
            let tools = as_array(json_get(b, "tools"@));
            &&& as_text(json_get(b, "model"@)) == Some(req.model@)
            &&& (json_get(b, "tools"@) is Some) == (caps.structured_output
                && req.json_schema is Some)
            &&& (json_get(b, "tool_choice"@) is Some) == (caps.structured_output
                && req.json_schema is Some)
            &&& (caps.structured_output && req.json_schema is Some) ==> {
                &&& tools is Some
                &&& tools->0.len() == 1
                &&& json_get(tools->0[0], "input_schema"@) == Some(req.json_schema->0@)
                &&& as_text(json_get(tools->0[0], "name"@)) == Some("emit_design_spec"@)
                &&& as_text(json_at(json_get(b, "tool_choice"@), "type"@)) == Some("tool"@)
                &&& as_text(json_at(json_get(b, "tool_choice"@), "name"@)) == Some(
                    "emit_design_spec"@,
                )
            }
        }),
{
    reveal_strlit("max_tokens");
    reveal_strlit("messages");
    reveal_strlit("model");
    reveal_strlit("tool_choice");
    reveal_strlit("tools");
    reveal_strlit("name");
    reveal_strlit("type");
    reveal_strlit("description");
    reveal_strlit("input_schema");
    let b = analysis_body(kind, req, caps);
    let base = seq![
        ("max_tokens"@, JsonView::Number(number_of(4096))),
        ("messages"@, user_message("content"@, req.images@.map_values(|img: AnalysisImage| anthropic_image(img)).push(typed_text(req.prompt@, "text"@)))),
        ("model"@, jtext(req.model@)),
    ];
    assert("max_tokens"@.len() != "model"@.len());
    assert("messages"@.len() != "model"@.len());
    assert("max_tokens"@.len() != "tools"@.len());
    assert("messages"@.len() != "tools"@.len());
    assert("model"@ != "tools"@) by {
        assert("model"@[0] != "tools"@[0]);
    }
    assert("max_tokens"@.len() != "tool_choice"@.len());
    assert("messages"@.len() != "tool_choice"@.len());
    assert("model"@.len() != "tool_choice"@.len());
    assert("tools"@.len() != "tool_choice"@.len());
    if caps.structured_output && req.json_schema is Some {
        let tool = JsonView::Object(seq![
            ("description"@, jtext(anthropic_tool_description())),
            ("input_schema"@, schema_view(req.json_schema)),
            ("name"@, jtext("emit_design_spec"@)),
        ]);
        let choice = seq![("name"@, jtext("emit_design_spec"@)), ("type"@, jtext("tool"@))];
        let ms = base + seq![
            ("tool_choice"@, JsonView::Object(choice)),
            ("tools"@, JsonView::Array(seq![tool])),
        ];
        assert(b == JsonView::Object(ms));
        lemma_member_found(ms, "model"@, 0, 2);
        lemma_member_found(ms, "tool_choice"@, 0, 3);
        lemma_member_found(ms, "tools"@, 0, 4);
        assert("name"@ != "type"@) by {
            assert("name"@[0] != "type"@[0]);
        }
        lemma_member_found(choice, "type"@, 0, 1);
        if let JsonView::Object(tms) = tool {
            assert("description"@.len() != "input_schema"@.len());
            assert("description"@.len() != "name"@.len());
            assert("input_schema"@.len() != "name"@.len());
            lemma_member_found(tms, "input_schema"@, 0, 1);
            lemma_member_found(tms, "name"@, 0, 2);
        }
    } else {
        assert(b == JsonView::Object(base));
        lemma_member_found(base, "model"@, 0, 2);
        lemma_member_absent(base, "tools"@, 0);
        lemma_member_absent(base, "tool_choice"@, 0);
    }
}

/// A Gemini body asks for `application/json` output and passes the
/// request's schema as the response schema exactly when the request has one.
pub proof fn law_gemini_body_asks_for_json_following_the_schema(
    req: AnalysisRequest,
    caps: ProviderCapabilities,
)
    ensures
        ({
            let g = json_get(analysis_body(ProviderKind::Gemini, req, caps), "generationConfig"@);
            &&& as_text(json_at(g, "response_mime_type"@)) == Some("application/json"@)
            &&& json_at(g, "response_schema"@) == match req.json_schema {
                Some(v) => Some(v@),
                None => None::<JsonView>,
            }
        }),
{
    reveal_strlit("contents");
    reveal_strlit("generationConfig");
    reveal_strlit("response_mime_type");
    reveal_strlit("response_schema");
    let b = analysis_body(ProviderKind::Gemini, req, caps);
    let gc = gemini_generation_config(req.json_schema);
    assert(b matches JsonView::Object(ms) && ms.len() == 2 && ms[1] == ("generationConfig"@, gc));
    if let JsonView::Object(ms) = b {
        assert(ms[0].0 == "contents"@);
        assert("contents"@.len() != "generationConfig"@.len());
        lemma_member_found(ms, "generationConfig"@, 0, 1);
    }
    assert("response_mime_type"@.len() != "response_schema"@.len());
    match req.json_schema {
        Some(v) => {
            let ms = seq![("response_mime_type"@, jtext("application/json"@)), ("response_schema"@, v@)];
            assert(gc == JsonView::Object(ms));
            lemma_member_found(ms, "response_schema"@, 0, 1);
        },
        None => {
            let ms = seq![("response_mime_type"@, jtext("application/json"@))];
            assert(gc == JsonView::Object(ms));
            lemma_member_absent(ms, "response_schema"@, 0);
        },
    }
}

/// Prepares the analysis call for a configured provider whose endpoint has
/// the given capabilities; a request the endpoint cannot serve is refused
/// before anything is sent.
pub fn prepare_analysis_call(
    config: &ProviderConfig,
    capabilities: ProviderCapabilities,
    request: AnalysisRequest,
) -> (r: Result<ProviderCall, ProviderError>)
    ensures
        match analysis_refusal(config.kind, request, capabilities) {
            Some(e) => r == Err::<ProviderCall, ProviderError>(e),
            None => match url_parse(
                endpoint_text(config.base_url@, analysis_endpoint_of(config.kind, request.model@)),
            ) {
                Ok(u) => r matches Ok(call) && call.url@ == u && call.auth == analysis_auth_of(
                    config.kind,
                )
                    && call.body@ == analysis_body(config.kind, request, capabilities),
                Err(m) => r matches Err(e) && is_url_error(e, m),
            },
        },
{
    let kind = config.kind;
    match kind {
        ProviderKind::Anthropic | ProviderKind::AnthropicCompatible => {
            validate_model(request.model.as_str())?;
            if request.images.len() > 0 && !capabilities.image_input {
                return Err(ProviderError::CapabilityMismatch);
            }
        },
        _ => {
            validate_request(&request, &capabilities)?;
        },
    }
    let endpoint = analysis_endpoint(kind, request.model.as_str());
    let url = endpoint_url(config.base_url.as_str(), endpoint.as_str())?;
    let body = match kind {
        ProviderKind::OpenAi => responses_request_body(request),
        ProviderKind::OpenAiCompatible => chat_request_body(request),
        ProviderKind::Anthropic | ProviderKind::AnthropicCompatible => anthropic_request_body(
            request,
            capabilities,
        ),
        ProviderKind::Gemini => gemini_request_body(request),
    };
    Ok(ProviderCall { url, auth: analysis_auth(kind), body })
}

/// `r` is what reading the model output from a reply body of this kind
/// gives.
pub open spec fn extracted_as(kind: ProviderKind, body: Seq<char>, r: Result<String, ProviderError>) -> bool {
    match kind {
        ProviderKind::OpenAi => crate::providers::extract::body_result(
            r,
            body,
            |env: JsonView| crate::providers::extract::openai_output(env),
            "OpenAI"@,
        ),
        ProviderKind::OpenAiCompatible => crate::providers::extract::body_result(
            r,
            body,
            |env: JsonView| crate::providers::extract::chat_output(env),
            "OpenAI-compatible"@,
        ),
        ProviderKind::Anthropic | ProviderKind::AnthropicCompatible => crate::providers::extract::body_result(
            r,
            body,
            |env: JsonView| crate::providers::extract::anthropic_output(env),
            "Anthropic"@,
        ),
        ProviderKind::Gemini => crate::providers::extract::body_result(
            r,
            body,
            |env: JsonView| crate::providers::extract::gemini_output(env),
            "Gemini"@,
        ),
    }
}

/// The model output of a successful analysis response body of this kind.
pub fn extract_output(kind: ProviderKind, body: &str) -> (r: Result<String, ProviderError>)
    ensures
        extracted_as(kind, body@, r),
{
    match kind {
        ProviderKind::OpenAi => openai_responses_text(body),
        ProviderKind::OpenAiCompatible => chat_completions_text(body),
        ProviderKind::Anthropic | ProviderKind::AnthropicCompatible => anthropic_messages_text(body),
        ProviderKind::Gemini => gemini_candidates_text(body),
    }
}

/// The reply body of this kind holds model output: it is JSON, and its
/// envelope carries the output text.
pub open spec fn output_present(kind: ProviderKind, body: Seq<char>) -> bool {
    exists|t: String| #[trigger] extracted_as(kind, body, Ok::<String, ProviderError>(t))
}

/// The reply an analysis hands back. Its body must carry model output; an
/// OpenAI-compatible reply is then handed back as the provider sent it, body
/// and all, and the other kinds keep the provider's status code and request
/// identifier with the body replaced by the model output.
pub fn analysis_reply(kind: ProviderKind, raw: RawModelResponse) -> (r: Result<
    RawModelResponse,
    ProviderError,
>)
    ensures
        match r {
            Ok(reply) => reply.status_code == raw.status_code && reply.request_id == raw.request_id
                && if kind == ProviderKind::OpenAiCompatible {
                reply.body == raw.body && output_present(kind, raw.body@)
            } else {
                extracted_as(kind, raw.body@, Ok(reply.body))
            },
            Err(e) => extracted_as(kind, raw.body@, Err(e)),
        },
{
    let text = extract_output(kind, raw.body.as_str())?;
    if kind == ProviderKind::OpenAiCompatible {
        assert(extracted_as(kind, raw.body@, Ok::<String, ProviderError>(text)));
        Ok(raw)
    } else {
        Ok(RawModelResponse { body: text, status_code: raw.status_code, request_id: raw.request_id })
    }
}

/// The request identifier a provider returned: the `x-request-id` header,
/// else the `request-id` header.
pub fn request_id(x_request_id: Option<String>, plain_request_id: Option<String>) -> (r: Option<
    String,
>)
    ensures
        r == (if x_request_id is Some {
            x_request_id
        } else {
            plain_request_id
        }),
{
    match x_request_id {
        Some(id) => Some(id),
        None => plain_request_id,
    }
}

// ----- capabilities -----

/// The object the capabilities are read from: the body's `"capabilities"`
/// member, else the body itself.
pub open spec fn capabilities_object(body: JsonView) -> JsonView {
    match json_get(body, "capabilities"@) {
        Some(c) => c,
        None => body,
    }
}

/// A capability flag: absent means the default; present, it must be a
/// boolean.
pub open spec fn capability_flag(caps: JsonView, name: Seq<char>, default: bool) -> Option<bool> {
    match json_get(caps, name) {
        None => Some(default),
        Some(JsonView::Bool(b)) => Some(b),
        Some(_) => None,
    }
}

/// `e` reports that the named capability field is not a boolean; the
/// field's value is not repeated.
pub open spec fn is_flag_error(e: ProviderError, name: Seq<char>) -> bool {
    e matches ProviderError::InvalidResponse { message } && message@ == "capability field "@ + name
        + " is not a boolean"@
}

fn flag(caps: &JsonValue, name: &str, default: bool) -> (r: Result<bool, ProviderError>)
    ensures
        match capability_flag(caps@, name@, default) {
            Some(b) => r == Ok::<bool, ProviderError>(b),
            None => r matches Err(e) && is_flag_error(e, name@),
        },
{
    match get(caps, name) {
        None => Ok(default),
        Some(JsonValue::Bool(b)) => Ok(*b),
        Some(_) => {
            let mut message = "capability field ".to_owned();
            push_str(&mut message, name);
            push_str(&mut message, " is not a boolean");
            Err(ProviderError::InvalidResponse { message })
        },
    }
}

/// Reads the capabilities an endpoint reports (`None` when its body was not
/// JSON), falling back to the given defaults for flags it does not report.
pub fn parse_capabilities(body: Option<&JsonValue>, defaults: ProviderCapabilities) -> (r: Result<
    ProviderCapabilities,
    ProviderError,
>)
    ensures
        match body {
            None => r matches Err(e) && crate::providers::models::is_invalid_response(
                e,
                "capability response was not valid JSON"@,
            ),
            Some(b) => {
                let caps = capabilities_object(b@);
                match (
                    capability_flag(caps, "image_input"@, defaults.image_input),
                    capability_flag(caps, "structured_output"@, defaults.structured_output),
                ) {
                    (Some(i), Some(s)) => r == Ok::<ProviderCapabilities, ProviderError>(
                        ProviderCapabilities { image_input: i, structured_output: s },
                    ),
                    (None, _) => r matches Err(e) && is_flag_error(e, "image_input"@),
                    (Some(_), None) => r matches Err(e) && is_flag_error(e, "structured_output"@),
                }
            },
        },
{
    let body = match body {
        Some(b) => b,
        None => {
            return Err(
                ProviderError::InvalidResponse {
                    message: "capability response was not valid JSON".to_owned(),
                },
            );
        },
    };
    let caps = match get(body, "capabilities") {
        Some(c) => c,
        None => body,
    };
    let image_input = flag(caps, "image_input", defaults.image_input)?;
    let structured_output = flag(caps, "structured_output", defaults.structured_output)?;
    Ok(ProviderCapabilities { image_input, structured_output })
}

/// How a connection test proceeds: with capabilities already known, or by
/// fetching the configured model's description.
pub enum ConnectionCheck {
    Known(ProviderCapabilities),
    Fetch { url: String, auth: ProviderAuth },
}

/// Prepares a connection test: the model must be configured; known
/// capabilities need no request.
pub fn prepare_connection_check(
    config: &ProviderConfig,
    capabilities_override: Option<ProviderCapabilities>,
) -> (r: Result<ConnectionCheck, ProviderError>)
    ensures
        is_blank(config.model@) ==> r == Err::<ConnectionCheck, ProviderError>(
            ProviderError::MissingModel,
        ),
        !is_blank(config.model@) ==> match capabilities_override {
            Some(c) => r matches Ok(ConnectionCheck::Known(k)) && k == c,
            None => match url_parse(endpoint_text(config.base_url@, "models/"@ + config.model@)) {
                Ok(u) => r matches Ok(ConnectionCheck::Fetch { url, auth }) && url@ == u && auth
                    == auth_of(config.kind),
                Err(m) => r matches Err(e) && is_url_error(e, m),
            },
        },
{
    validate_model(config.model.as_str())?;
    match capabilities_override {
        Some(c) => Ok(ConnectionCheck::Known(c)),
        None => {
            let endpoint = model_endpoint(config.model.as_str());
            let url = endpoint_url(config.base_url.as_str(), endpoint.as_str())?;
            Ok(ConnectionCheck::Fetch { url, auth: provider_auth(config.kind) })
        },
    }
}

} // verus!
