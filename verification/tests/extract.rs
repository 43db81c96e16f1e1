use design_extractor::providers::error::ProviderError;
use design_extractor::providers::extract::{
    anthropic_messages_text, chat_completions_text, gemini_candidates_text, openai_responses_text,
};

#[test]
fn openai_extracts_output_text_blocks() {
    let body = r#"{
        "id": "resp_123",
        "output": [
            {"type": "reasoning", "summary": []},
            {"type": "message", "role": "assistant", "content": [
                {"type": "output_text", "text": "{\"tokens\":"},
                {"type": "output_text", "text": "[]}"}
            ]}
        ],
        "usage": {"input_tokens": 10}
    }"#;
    assert_eq!(openai_responses_text(body).unwrap(), r#"{"tokens":[]}"#);
}

#[test]
fn openai_accepts_top_level_output_text() {
    assert_eq!(
        openai_responses_text(r#"{"output_text":"{\"a\":1}"}"#).unwrap(),
        r#"{"a":1}"#
    );
}

#[test]
fn openai_rejects_envelope_without_text() {
    let error = openai_responses_text(r#"{"output":[]}"#).unwrap_err();
    assert!(matches!(error, ProviderError::InvalidResponse { .. }));
}

#[test]
fn chat_completions_extracts_string_content() {
    let body = r#"{"choices":[{"index":0,"message":{"role":"assistant","content":"{\"colors\":[]}"},"finish_reason":"stop"}]}"#;
    assert_eq!(chat_completions_text(body).unwrap(), r#"{"colors":[]}"#);
}

#[test]
fn chat_completions_concatenates_text_parts() {
    let body = r#"{"choices":[{"message":{"content":[{"type":"text","text":"{\"a\":"},{"type":"text","text":"1}"}]}}]}"#;
    assert_eq!(chat_completions_text(body).unwrap(), r#"{"a":1}"#);
}

#[test]
fn chat_completions_rejects_missing_choices() {
    let error = chat_completions_text(r#"{"choices":[]}"#).unwrap_err();
    assert!(matches!(error, ProviderError::InvalidResponse { .. }));
}

#[test]
fn chat_completions_error_does_not_leak_body() {
    let error = chat_completions_text(r#"{"secret":"sk-leak"}"#).unwrap_err();
    assert!(!error.message().contains("sk-leak"));
}

#[test]
fn anthropic_extracts_text_blocks() {
    let body = r#"{"id":"msg_1","content":[{"type":"text","text":"{\"x\":1}"}],"stop_reason":"end_turn"}"#;
    assert_eq!(anthropic_messages_text(body).unwrap(), r#"{"x":1}"#);
}

#[test]
fn anthropic_prefers_tool_use_input() {
    let body = r#"{"content":[{"type":"tool_use","id":"tu_1","name":"emit_design_spec","input":{"tokens":[]}}]}"#;
    assert_eq!(anthropic_messages_text(body).unwrap(), r#"{"tokens":[]}"#);
}

#[test]
fn anthropic_rejects_empty_content() {
    let error = anthropic_messages_text(r#"{"content":[]}"#).unwrap_err();
    assert!(matches!(error, ProviderError::InvalidResponse { .. }));
}

#[test]
fn gemini_extracts_candidate_parts() {
    let body = r#"{"candidates":[{"content":{"parts":[{"text":"{\"y\":"},{"text":"2}"}],"role":"model"},"finishReason":"STOP"}]}"#;
    assert_eq!(gemini_candidates_text(body).unwrap(), r#"{"y":2}"#);
}

#[test]
fn gemini_rejects_missing_candidates() {
    let error = gemini_candidates_text(r#"{"candidates":[]}"#).unwrap_err();
    assert!(matches!(error, ProviderError::InvalidResponse { .. }));
}

#[test]
fn invalid_json_is_rejected_without_leaking_body() {
    let error = openai_responses_text("not json sk-leak").unwrap_err();
    assert!(matches!(error, ProviderError::InvalidResponse { .. }));
    assert!(!error.message().contains("sk-leak"));
}

#[test]
fn error_messages_name_the_provider() {
    assert_eq!(
        openai_responses_text("nope").unwrap_err(),
        ProviderError::InvalidResponse {
            message: "OpenAI response body was not valid JSON".to_owned()
        }
    );
    assert_eq!(
        gemini_candidates_text(r#"{"candidates":[{"content":{"parts":[{"text":"  \n"}]}}]}"#)
            .unwrap_err(),
        ProviderError::InvalidResponse {
            message: "Gemini response contained no model output text".to_owned()
        }
    );
    assert_eq!(
        chat_completions_text("[]").unwrap_err().message(),
        "provider returned an invalid response: OpenAI-compatible response contained no model output text"
    );
}

#[test]
fn only_parts_of_the_requested_type_are_collected() {
    let body = r#"{"choices":[{"message":{"content":[{"type":"image","text":"skip"},{"type":"text","text":"keep"},{"type":"text"}]}},{"message":{"content":"second"}}]}"#;
    assert_eq!(chat_completions_text(body).unwrap(), "keep");

    let body = r#"{"content":[{"type":"tool_use","name":"no_input"},{"type":"text","text":"a"},{"type":"text","text":"b"}]}"#;
    assert_eq!(anthropic_messages_text(body).unwrap(), "ab");

    let body = r#"{"output_text":"  ","output":[{"content":[{"type":"output_text","text":"ignored"}]}]}"#;
    assert!(openai_responses_text(body).is_err());
}

#[test]
fn tool_use_input_is_printed_as_compact_json_with_sorted_keys() {
    let body = r#"{"content":[{"type":"text","text":"ignored"},{"type":"tool_use","input":{"b": [1, 2.5, null], "a": {"t": true}}}]}"#;
    assert_eq!(
        anthropic_messages_text(body).unwrap(),
        r#"{"a":{"t":true},"b":[1,2.5,null]}"#
    );
}
