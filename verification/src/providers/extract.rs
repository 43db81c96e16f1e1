//! The model output carried by each provider's response envelope.
//!
//! A response body is parsed as JSON (`json::parse_json`); the functions
//! whose names end in `_output` read a parsed envelope and are exact over it.
//! Errors never repeat the body.

use vstd::prelude::*;
use crate::json::{
    as_array, as_text, get, items_of, json_compact, json_get, json_parse, parse_json, text_of,
    to_json_text, views, JsonValue, JsonView,
};
use crate::providers::error::ProviderError;
use crate::text::{is_blank, is_blank_str, push_str};

verus! {

// ----- specification -----

pub open spec fn text_or_empty(t: Option<Seq<char>>) -> Seq<char> {
    match t {
        Some(s) => s,
        None => Seq::empty(),
    }
}

/// The value's `"type"` member is the string `ty`.
pub open spec fn has_type(v: JsonView, ty: Seq<char>) -> bool {
    as_text(json_get(v, "type"@)) == Some(ty)
}

/// The value's `"text"` member when it is a string, else nothing.
pub open spec fn text_field(v: JsonView) -> Seq<char> {
    text_or_empty(as_text(json_get(v, "text"@)))
}

/// The `"text"` strings of the parts, concatenated in order; with `ty`, only
/// those of parts whose `"type"` is `ty`.
pub open spec fn part_texts(parts: Seq<JsonView>, ty: Option<Seq<char>>) -> Seq<char>
    decreases parts.len(),
{
    if parts.len() == 0 {
        Seq::empty()
    } else {
        let p = parts.last();
        let rest = part_texts(parts.drop_last(), ty);
        match ty {
            Some(t) => if has_type(p, t) {
                rest + text_field(p)
            } else {
                rest
            },
            None => rest + text_field(p),
        }
    }
}

/// The `output_text` parts of every output item's content, in order.
pub open spec fn output_item_texts(items: Seq<JsonView>) -> Seq<char>
    decreases items.len(),
{
    if items.len() == 0 {
        Seq::empty()
    } else {
        output_item_texts(items.drop_last()) + match as_array(
            json_get(items.last(), "content"@),
        ) {
            Some(parts) => part_texts(parts, Some("output_text"@)),
            None => Seq::empty(),
        }
    }
}

/// A text is usable output unless it is blank.
pub open spec fn usable(t: Seq<char>) -> Option<Seq<char>> {
    if is_blank(t) {
        None
    } else {
        Some(t)
    }
}

/// OpenAI Responses: a top-level `"output_text"` string, else the
/// `output_text` parts of the `"output"` items.
pub open spec fn openai_output(env: JsonView) -> Option<Seq<char>> {
    match as_text(json_get(env, "output_text"@)) {
        Some(t) => usable(t),
        None => usable(
            match as_array(json_get(env, "output"@)) {
                Some(items) => output_item_texts(items),
                None => Seq::empty(),
            },
        ),
    }
}

/// The `"content"` of the first choice's `"message"`.
pub open spec fn first_choice_content(env: JsonView) -> Option<JsonView> {
    match as_array(json_get(env, "choices"@)) {
        Some(choices) => if choices.len() > 0 {
            match json_get(choices[0], "message"@) {
                Some(message) => json_get(message, "content"@),
                None => None,
            }
        } else {
            None
        },
        None => None,
    }
}

/// Chat completions: the first choice's message content, a string or the
/// concatenated `text` parts.
pub open spec fn chat_output(env: JsonView) -> Option<Seq<char>> {
    usable(
        match first_choice_content(env) {
            Some(JsonView::Text(t)) => t,
            Some(JsonView::Array(parts)) => part_texts(parts, Some("text"@)),
            _ => Seq::empty(),
        },
    )
}

/// The `"input"` of the first `tool_use` block at or after `i` that has one.
pub open spec fn tool_input_from(blocks: Seq<JsonView>, i: int) -> Option<JsonView>
    decreases blocks.len() - i,
{
    if i < 0 || i >= blocks.len() {
        None
    } else if has_type(blocks[i], "tool_use"@) && json_get(blocks[i], "input"@) is Some {
        json_get(blocks[i], "input"@)
    } else {
        tool_input_from(blocks, i + 1)
    }
}

/// Anthropic Messages: the compact JSON of the first `tool_use` input, else
/// the concatenated `text` blocks.
pub open spec fn anthropic_output(env: JsonView) -> Option<Seq<char>> {
    match as_array(json_get(env, "content"@)) {
        None => usable(Seq::empty()),
        Some(blocks) => match tool_input_from(blocks, 0) {
            Some(input) => usable(json_compact(input)),
            None => usable(part_texts(blocks, Some("text"@))),
        },
    }
}

/// Gemini: the `"text"` of every part of the first candidate's content.
pub open spec fn gemini_output(env: JsonView) -> Option<Seq<char>> {
    usable(
        match as_array(json_get(env, "candidates"@)) {
            Some(candidates) => if candidates.len() > 0 {
                match json_get(candidates[0], "content"@) {
                    Some(content) => match as_array(json_get(content, "parts"@)) {
                        Some(parts) => part_texts(parts, None),
                        None => Seq::empty(),
                    },
                    None => Seq::empty(),
                }
            } else {
                Seq::empty()
            },
            None => Seq::empty(),
        },
    )
}

/// `e` reports that the provider's envelope held no model output.
pub open spec fn is_no_output_error(e: ProviderError, provider: Seq<char>) -> bool {
    e matches ProviderError::InvalidResponse { message } && message@ == provider
        + " response contained no model output text"@
}

/// `e` reports that the provider's body was not JSON.
pub open spec fn is_not_json_error(e: ProviderError, provider: Seq<char>) -> bool {
    e matches ProviderError::InvalidResponse { message } && message@ == provider
        + " response body was not valid JSON"@
}

/// `r` is the outcome for the extracted output `out`.
pub open spec fn output_result(
    r: Result<String, ProviderError>,
    out: Option<Seq<char>>,
    provider: Seq<char>,
) -> bool {
    match out {
        Some(t) => r matches Ok(s) && s@ == t,
        None => r matches Err(e) && is_no_output_error(e, provider),
    }
}

/// `r` is the outcome for a body whose envelope output is given by `f`.
pub open spec fn body_result(
    r: Result<String, ProviderError>,
    body: Seq<char>,
    f: spec_fn(JsonView) -> Option<Seq<char>>,
    provider: Seq<char>,
) -> bool {
    match json_parse(body) {
        None => r matches Err(e) && is_not_json_error(e, provider),
        Some(env) => output_result(r, f(env), provider),
    }
}

// ----- execution -----

/// The error for an envelope that carries no model output.
pub fn invalid_envelope(provider: &str) -> (e: ProviderError)
    ensures
        is_no_output_error(e, provider@),
{
    let mut message = provider.to_owned();
    push_str(&mut message, " response contained no model output text");
    ProviderError::InvalidResponse { message }
}

/// Accepts extracted output unless it is blank.
pub fn non_empty(text: String, provider: &str) -> (r: Result<String, ProviderError>)
    ensures
        output_result(r, usable(text@), provider@),
{
    if is_blank_str(text.as_str()) {
        Err(invalid_envelope(provider))
    } else {
        Ok(text)
    }
}

/// Parses a response body as a JSON envelope.
pub fn parse_envelope(body: &str, provider: &str) -> (r: Result<JsonValue, ProviderError>)
    ensures
        match json_parse(body@) {
            Some(env) => r matches Ok(v) && v@ == env,
            None => r matches Err(e) && is_not_json_error(e, provider@),
        },
{
    match parse_json(body) {
        Some(v) => Ok(v),
        None => {
            let mut message = provider.to_owned();
            push_str(&mut message, " response body was not valid JSON");
            Err(ProviderError::InvalidResponse { message })
        },
    }
}

/// The value's `"type"` member is the string `ty`.
fn is_type(v: &JsonValue, ty: &str) -> (r: bool)
    ensures
        r == has_type(v@, ty@),
{
    match text_of(get(v, "type")) {
        Some(t) => t.to_owned() == ty.to_owned(),
        None => false,
    }
}

/// Appends the `"text"` strings of the parts (of type `ty`, when given).
fn push_part_texts(out: &mut String, parts: &Vec<JsonValue>, ty: Option<&str>)
    ensures
        final(out)@ == old(out)@ + part_texts(
            views(parts@),
            match ty {
                Some(t) => Some(t@),
                None => None,
            },
        ),
{
    let ghost tyv: Option<Seq<char>> = match ty {
        Some(t) => Some(t@),
        None => None,
    };
    let ghost start = out@;
    let mut i: usize = 0;
    while i < parts.len()
        invariant
            i <= parts@.len(),
            tyv == match ty {
                Some(t) => Some(t@),
                None => None::<Seq<char>>,
            },
            out@ == start + part_texts(views(parts@).take(i as int), tyv),
        decreases parts@.len() - i,
    {
        let part = &parts[i];
        assert(views(parts@).take(i + 1).drop_last() =~= views(parts@).take(i as int));
        assert(views(parts@).take(i + 1).last() == part@);
        let wanted = match ty {
            Some(t) => is_type(part, t),
            None => true,
        };
        if wanted {
            match text_of(get(part, "text")) {
                Some(t) => push_str(out, t),
                None => {},
            }
        }
        i = i + 1;
        assert(out@ =~= start + part_texts(views(parts@).take(i as int), tyv));
    }
    assert(views(parts@).take(parts@.len() as int) =~= views(parts@));
}

/// The output of an OpenAI Responses envelope.
pub fn openai_responses_output(envelope: &JsonValue) -> (r: Result<String, ProviderError>)
    ensures
        output_result(r, openai_output(envelope@), "OpenAI"@),
{
    match text_of(get(envelope, "output_text")) {
        Some(t) => {
            return non_empty(t.to_owned(), "OpenAI");
        },
        None => {},
    }
    let mut collected = String::new();
    match items_of(get(envelope, "output")) {
        Some(items) => {
            let mut i: usize = 0;
            while i < items.len()
                invariant
                    i <= items@.len(),
                    collected@ == output_item_texts(views(items@).take(i as int)),
                decreases items@.len() - i,
            {
                let item = &items[i];
                assert(views(items@).take(i + 1).drop_last() =~= views(items@).take(i as int));
                assert(views(items@).take(i + 1).last() == item@);
                match items_of(get(item, "content")) {
                    Some(parts) => push_part_texts(&mut collected, parts, Some("output_text")),
                    None => {},
                }
                i = i + 1;
                assert(collected@ =~= output_item_texts(views(items@).take(i as int)));
            }
            assert(views(items@).take(items@.len() as int) =~= views(items@));
        },
        None => {},
    }
    non_empty(collected, "OpenAI")
}

/// Extracts the model output of an OpenAI Responses body.
pub fn openai_responses_text(body: &str) -> (r: Result<String, ProviderError>)
    ensures
        body_result(r, body@, |env: JsonView| openai_output(env), "OpenAI"@),
{
    let envelope = parse_envelope(body, "OpenAI")?;
    openai_responses_output(&envelope)
}

/// The output of a chat-completions envelope.
pub fn chat_completions_output(envelope: &JsonValue) -> (r: Result<String, ProviderError>)
    ensures
        output_result(r, chat_output(envelope@), "OpenAI-compatible"@),
{
    let mut content: Option<&JsonValue> = None;
    match items_of(get(envelope, "choices")) {
        Some(choices) => {
            if choices.len() > 0 {
                match get(&choices[0], "message") {
                    Some(message) => {
                        content = get(message, "content");
                    },
                    None => {},
                }
            }
        },
        None => {},
    }
    assert(crate::json::opt_json(content) == first_choice_content(envelope@));
    let mut collected = String::new();
    match content {
        Some(JsonValue::Text(t)) => {
            collected = t.clone();
        },
        Some(JsonValue::Array(parts)) => {
            assert(content.unwrap()@->Array_0 =~= views(parts@));
            push_part_texts(&mut collected, parts, Some("text"));
            assert(collected@ =~= part_texts(views(parts@), Some("text"@)));
        },
        _ => {},
    }
    non_empty(collected, "OpenAI-compatible")
}

/// Extracts the model output of a chat-completions body.
pub fn chat_completions_text(body: &str) -> (r: Result<String, ProviderError>)
    ensures
        body_result(r, body@, |env: JsonView| chat_output(env), "OpenAI-compatible"@),
{
    let envelope = parse_envelope(body, "OpenAI-compatible")?;
    chat_completions_output(&envelope)
}

/// The output of an Anthropic Messages envelope.
pub fn anthropic_messages_output(envelope: &JsonValue) -> (r: Result<String, ProviderError>)
    ensures
        output_result(r, anthropic_output(envelope@), "Anthropic"@),
{
    let blocks = match items_of(get(envelope, "content")) {
        Some(blocks) => blocks,
        None => {
            return non_empty(String::new(), "Anthropic");
        },
    };
    let ghost bs = views(blocks@);
    let mut i: usize = 0;
    while i < blocks.len()
        invariant
            i <= blocks@.len(),
            bs == views(blocks@),
            as_array(json_get(envelope@, "content"@)) == Some(bs),
            tool_input_from(bs, 0) == tool_input_from(bs, i as int),
        decreases blocks@.len() - i,
    {
        let block = &blocks[i];
        assert(bs[i as int] == block@);
        if is_type(block, "tool_use") {
            match get(block, "input") {
                Some(input) => {
                    return non_empty(to_json_text(input), "Anthropic");
                },
                None => {},
            }
        }
        i = i + 1;
    }
    let mut collected = String::new();
    push_part_texts(&mut collected, blocks, Some("text"));
    assert(collected@ =~= part_texts(bs, Some("text"@)));
    non_empty(collected, "Anthropic")
}

/// Extracts the model output of an Anthropic Messages body.
pub fn anthropic_messages_text(body: &str) -> (r: Result<String, ProviderError>)
    ensures
        body_result(r, body@, |env: JsonView| anthropic_output(env), "Anthropic"@),
{
    let envelope = parse_envelope(body, "Anthropic")?;
    anthropic_messages_output(&envelope)
}

/// The output of a Gemini generateContent envelope.
pub fn gemini_candidates_output(envelope: &JsonValue) -> (r: Result<String, ProviderError>)
    ensures
        output_result(r, gemini_output(envelope@), "Gemini"@),
{
    let mut collected = String::new();
    match items_of(get(envelope, "candidates")) {
        Some(candidates) => {
            if candidates.len() > 0 {
                match get(&candidates[0], "content") {
                    Some(content) => match items_of(get(content, "parts")) {
                        Some(parts) => {
                            push_part_texts(&mut collected, parts, None);
                            assert(collected@ =~= part_texts(views(parts@), None));
                        },
                        None => {},
                    },
                    None => {},
                }
            }
        },
        None => {},
    }
    non_empty(collected, "Gemini")
}

/// Extracts the model output of a Gemini generateContent body.
pub fn gemini_candidates_text(body: &str) -> (r: Result<String, ProviderError>)
    ensures
        body_result(r, body@, |env: JsonView| gemini_output(env), "Gemini"@),
{
    let envelope = parse_envelope(body, "Gemini")?;
    gemini_candidates_output(&envelope)
}

} // verus!
