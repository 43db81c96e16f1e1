use design_extractor::json::{parse_json, to_json_text};
use design_extractor::providers::client::{
    AnalysisImage, AnalysisRequest, ProviderCapabilities, RawModelResponse, RequestLog, SecretString,
};
use design_extractor::providers::config::{ProviderConfig, ProviderKind};
use design_extractor::providers::error::{extract_error_message, ProviderError};
use design_extractor::providers::models::model_list;
use design_extractor::providers::request::{
    analysis_reply, default_capabilities, endpoint_url, extract_output, image_data_url, parse_capabilities,
    prepare_analysis_call, prepare_connection_check, request_id, ConnectionCheck, ProviderAuth,
};
use serde_json::Value;

fn request(schema: Option<&str>) -> AnalysisRequest {
    AnalysisRequest {
        model: "vision-model".to_owned(),
        prompt: "analysis prompt".to_owned(),
        json_schema: schema.map(|s| parse_json(s).unwrap()),
        images: vec![
            AnalysisImage { media_type: "image/png".to_owned(), bytes: vec![1, 2, 3, 4] },
            AnalysisImage { media_type: "image/jpeg".to_owned(), bytes: vec![5, 6, 7] },
        ],
    }
}

fn config(kind: ProviderKind, base_url: &str) -> ProviderConfig {
    ProviderConfig {
        id: 7,
        name: "Provider".to_owned(),
        kind,
        base_url: base_url.to_owned(),
        model: "vision-model".to_owned(),
        credential_ref: String::new(),
    }
}

fn body_of(kind: ProviderKind, caps: ProviderCapabilities, schema: Option<&str>) -> (String, Value) {
    let call = prepare_analysis_call(&config(kind, "http://localhost:8080/v1/"), caps, request(schema)).unwrap();
    let text = to_json_text(&call.body);
    let value: Value = serde_json::from_str(&text).unwrap();
    (call.url, value)
}

fn parse(text: &str) -> Value {
    serde_json::from_str(text).unwrap()
}

#[test]
fn images_become_base64_data_urls() {
    let image = AnalysisImage { media_type: "image/png".to_owned(), bytes: vec![1, 2, 3, 4] };
    assert_eq!(image_data_url(&image), "data:image/png;base64,AQIDBA==");
}

#[test]
fn openai_preset_uses_responses_api_with_input_images_and_json_output() {
    let (url, body) = body_of(
        ProviderKind::OpenAi,
        default_capabilities(ProviderKind::OpenAi),
        Some(r#"{"type":"object","properties":{"spacing":{"type":"array"}}}"#),
    );

    assert_eq!(url, "http://localhost:8080/v1/responses");
    assert_eq!(body["model"], "vision-model");
    assert_eq!(body["input"][0]["content"][0], parse(r#"{"type":"input_text","text":"analysis prompt"}"#));
    assert_eq!(
        body["input"][0]["content"][1],
        parse(r#"{"type":"input_image","image_url":"data:image/png;base64,AQIDBA=="}"#)
    );
    assert_eq!(
        body["input"][0]["content"][2],
        parse(r#"{"type":"input_image","image_url":"data:image/jpeg;base64,BQYH"}"#)
    );
    assert_eq!(body["text"]["format"]["type"], "json_object");
    assert!(body["text"]["format"].get("schema").is_none());
}

#[test]
fn sends_chat_completions_shape_with_data_url_and_strict_json_schema() {
    let (url, body) = body_of(
        ProviderKind::OpenAiCompatible,
        default_capabilities(ProviderKind::OpenAiCompatible),
        Some(r#"{"type":"object"}"#),
    );

    assert_eq!(url, "http://localhost:8080/v1/chat/completions");
    assert_eq!(body["messages"][0]["role"], "user");
    assert_eq!(body["messages"][0]["content"][0], parse(r#"{"type":"text","text":"analysis prompt"}"#));
    assert_eq!(
        body["messages"][0]["content"][1],
        parse(r#"{"type":"image_url","image_url":{"url":"data:image/png;base64,AQIDBA=="}}"#)
    );
    assert_eq!(
        body["response_format"],
        parse(r#"{"type":"json_schema","json_schema":{"name":"design_spec","strict":true,"schema":{"type":"object"}}}"#)
    );
}

#[test]
fn anthropic_preset_sends_base64_image_blocks_followed_by_text_without_schema_when_unsupported() {
    let (url, body) = body_of(
        ProviderKind::Anthropic,
        ProviderCapabilities { image_input: true, structured_output: false },
        Some(r#"{"type":"object"}"#),
    );
    assert_eq!(url, "http://localhost:8080/v1/messages");
    assert_eq!(body["max_tokens"], 4096);
    assert_eq!(
        body["messages"][0]["content"][0],
        parse(r#"{"type":"image","source":{"type":"base64","media_type":"image/png","data":"AQIDBA=="}}"#)
    );
    assert_eq!(body["messages"][0]["content"][2], parse(r#"{"type":"text","text":"analysis prompt"}"#));
    assert!(body.get("tools").is_none());

    let (_, body) = body_of(
        ProviderKind::AnthropicCompatible,
        ProviderCapabilities { image_input: true, structured_output: true },
        Some(r#"{"type":"object"}"#),
    );
    assert_eq!(body["tool_choice"], parse(r#"{"type":"tool","name":"emit_design_spec"}"#));
    assert_eq!(body["tools"][0]["input_schema"], parse(r#"{"type":"object"}"#));
    assert_eq!(body["tools"][0]["name"], "emit_design_spec");
}

#[test]
fn gemini_preset_uses_generate_content_with_inline_data_and_response_schema() {
    let schema = r#"{"type":"object","properties":{"typography":{"type":"array"}}}"#;
    let call = prepare_analysis_call(
        &config(ProviderKind::Gemini, "http://localhost:8080/v1/"),
        default_capabilities(ProviderKind::Gemini),
        request(Some(schema)),
    )
    .unwrap();
    let body = parse(&to_json_text(&call.body));

    assert_eq!(call.url, "http://localhost:8080/v1/models/vision-model:generateContent");
    assert_eq!(call.auth, ProviderAuth::GoogleKeyAndBearer);
    assert_eq!(body["contents"][0]["parts"][0], parse(r#"{"text":"analysis prompt"}"#));
    assert_eq!(
        body["contents"][0]["parts"][1],
        parse(r#"{"inline_data":{"mime_type":"image/png","data":"AQIDBA=="}}"#)
    );
    assert_eq!(body["generationConfig"]["response_mime_type"], "application/json");
    assert_eq!(body["generationConfig"]["response_schema"], parse(schema));

    let (_, without_schema) = body_of(ProviderKind::Gemini, default_capabilities(ProviderKind::Gemini), None);
    assert!(without_schema["generationConfig"].get("response_schema").is_none());
}

#[test]
fn unsupported_requests_are_refused_before_anything_is_sent() {
    let caps = ProviderCapabilities { image_input: true, structured_output: false };
    let refused = prepare_analysis_call(
        &config(ProviderKind::OpenAiCompatible, "http://localhost"),
        caps,
        request(Some(r#"{"type":"object"}"#)),
    );
    assert!(matches!(refused, Err(ProviderError::CapabilityMismatch)));

    let mut blank = request(None);
    blank.model = "  ".to_owned();
    let refused = prepare_analysis_call(&config(ProviderKind::Gemini, "http://localhost"), caps, blank);
    assert!(matches!(refused, Err(ProviderError::MissingModel)));

    let no_images = ProviderCapabilities { image_input: false, structured_output: true };
    let refused = prepare_analysis_call(&config(ProviderKind::Anthropic, "http://localhost"), no_images, request(None));
    assert!(matches!(refused, Err(ProviderError::CapabilityMismatch)));
}

#[test]
fn endpoints_join_base_and_path_with_one_slash() {
    assert_eq!(endpoint_url("http://example.com/v1///", "//models").unwrap(), "http://example.com/v1/models");
    assert_eq!(endpoint_url("http://example.com", "models").unwrap(), "http://example.com/models");
    let error = endpoint_url("not a url", "models").unwrap_err();
    assert!(matches!(error, ProviderError::InvalidResponse { message } if message.starts_with("invalid provider URL: ")));
}

#[test]
fn connection_checks_use_known_capabilities_or_the_model_endpoint() {
    let known = ProviderCapabilities { image_input: true, structured_output: false };
    match prepare_connection_check(&config(ProviderKind::Gemini, "http://h/v1"), Some(known)).unwrap() {
        ConnectionCheck::Known(c) => assert_eq!(c, known),
        _ => panic!("expected known capabilities"),
    }
    match prepare_connection_check(&config(ProviderKind::Anthropic, "http://h/v1"), None).unwrap() {
        ConnectionCheck::Fetch { url, auth } => {
            assert_eq!(url, "http://h/v1/models/vision-model");
            assert_eq!(auth, ProviderAuth::AnthropicKey);
        }
        _ => panic!("expected a fetch"),
    }
    let mut blank = config(ProviderKind::OpenAi, "http://h");
    blank.model = String::new();
    assert!(matches!(prepare_connection_check(&blank, None), Err(ProviderError::MissingModel)));
}

#[test]
fn capabilities_are_read_with_defaults_and_checked() {
    let full = default_capabilities(ProviderKind::OpenAiCompatible);
    let reported = parse_json(r#"{"capabilities":{"image_input":true,"structured_output":false}}"#).unwrap();
    assert_eq!(
        parse_capabilities(Some(&reported), full).unwrap(),
        ProviderCapabilities { image_input: true, structured_output: false }
    );
    let silent = parse_json(r#"{"id":"vision-model","object":"model"}"#).unwrap();
    assert_eq!(parse_capabilities(Some(&silent), full).unwrap(), full);

    let malformed = parse_capabilities(None, full).unwrap_err();
    assert!(matches!(malformed, ProviderError::InvalidResponse { .. }));
    assert!(!malformed.message().contains("not json"));

    let wrong = parse_json(r#"{"capabilities":{"image_input":"false","structured_output":true}}"#).unwrap();
    let error = parse_capabilities(Some(&wrong), full).unwrap_err();
    let text = error.message();
    assert!(text.contains("image_input"));
    assert!(!text.contains("structured_output"));
    assert!(!text.contains("false"));
}

#[test]
fn statuses_map_to_provider_errors_without_leaking_bodies() {
    assert_eq!(ProviderError::from_status_and_body(401, "{}"), ProviderError::Authentication);
    assert_eq!(ProviderError::from_status_and_body(403, "{}"), ProviderError::Authentication);
    assert_eq!(ProviderError::from_status_and_body(429, "{}"), ProviderError::RateLimited);
    assert_eq!(
        ProviderError::from_status_and_body(500, r#"{"error":{"message":"  overloaded  "}}"#),
        ProviderError::Http { status: 500, detail: Some("overloaded".to_owned()) }
    );
    assert_eq!(
        ProviderError::from_status_and_body(502, r#"{"error":"bad gateway"}"#).message(),
        "provider returned HTTP status 502: bad gateway"
    );
    assert_eq!(
        ProviderError::from_status_and_body(500, "sk-leak raw text"),
        ProviderError::Http { status: 500, detail: None }
    );
    let long = format!(r#"{{"error":"{}"}}"#, "x".repeat(400));
    assert_eq!(extract_error_message(&long).unwrap().chars().count(), 300);
    assert_eq!(extract_error_message(r#"{"error":{"message":"   "}}"#), None);
    assert_eq!(extract_error_message(r#"{"error":5}"#), None);
    assert_eq!(ProviderError::from_transport(true, "ignored".to_owned()), ProviderError::Timeout);
    assert_eq!(
        ProviderError::from_transport(false, "refused".to_owned()).message(),
        "provider transport failed: refused"
    );
}

#[test]
fn model_lists_are_normalized_sorted_and_unique() {
    let openai = parse_json(r#"{"data":[{"id":"b"},{"id":"a"},{"id":"b"},{"name":"skip"}]}"#).unwrap();
    assert_eq!(model_list(ProviderKind::OpenAi, Some(&openai)).unwrap(), vec!["a".to_owned(), "b".to_owned()]);

    let gemini = parse_json(r#"{"models":[{"name":"models/gemini-pro"},{"name":"tuned"},{"name":"models/a"}]}"#).unwrap();
    assert_eq!(
        model_list(ProviderKind::Gemini, Some(&gemini)).unwrap(),
        vec!["a".to_owned(), "gemini-pro".to_owned(), "tuned".to_owned()]
    );

    let empty = parse_json(r#"{"data":[]}"#).unwrap();
    assert_eq!(
        model_list(ProviderKind::Anthropic, Some(&empty)).unwrap_err(),
        ProviderError::InvalidResponse { message: "model list response contained no models".to_owned() }
    );
    assert_eq!(
        model_list(ProviderKind::Anthropic, None).unwrap_err(),
        ProviderError::InvalidResponse { message: "model list response was not valid JSON".to_owned() }
    );
}

#[test]
fn outputs_are_extracted_by_kind() {
    assert_eq!(extract_output(ProviderKind::AnthropicCompatible, r#"{"content":[{"type":"text","text":"ok"}]}"#).unwrap(), "ok");
    assert_eq!(extract_output(ProviderKind::Gemini, r#"{"candidates":[{"content":{"parts":[{"text":"g"}]}}]}"#).unwrap(), "g");
}

#[test]
fn request_ids_prefer_the_x_request_id_header() {
    assert_eq!(request_id(Some("a".to_owned()), Some("b".to_owned())), Some("a".to_owned()));
    assert_eq!(request_id(None, Some("b".to_owned())), Some("b".to_owned()));
    assert_eq!(request_id(None, None), None);
}

#[test]
fn secrets_are_handed_out_only_on_request() {
    let secret = SecretString::new("sk-secret".to_owned());
    assert_eq!(secret.expose_secret(), "sk-secret");
}

#[test]
fn secret_string_and_request_log_debug_are_redacted() {
    let secret = SecretString::new("sk-secret".to_owned());
    assert_eq!(secret.redacted(), "[REDACTED]");

    let log = RequestLog {
        provider_id: 0x6f904c54_2187_4b7b_85b7_95ab5bdf25aa,
        model: "vision-model".to_owned(),
        image_count: 1,
        duration_ms: 12,
        status_code: Some(200),
        request_id: Some("req-compatible".to_owned()),
    };
    let rendered = log.log_text();

    assert_eq!(
        rendered,
        "RequestLog { provider_id: 6f904c54-2187-4b7b-85b7-95ab5bdf25aa, model: \"vision-model\", image_count: 1, duration_ms: 12, status_code: Some(200), request_id: Some(\"req-compatible\") }"
    );
    assert!(rendered.contains("vision-model"));
    assert!(rendered.contains("image_count"));
    assert!(!rendered.contains("sk-secret"));
    assert!(!rendered.contains("analysis prompt"));
    assert!(!rendered.contains("AQIDBA=="));
    assert!(!rendered.contains("choices"));

    let quoted = RequestLog { model: "a\"b\\c\nd".to_owned(), status_code: None, request_id: None, ..log };
    assert!(quoted.log_text().contains("model: \"a\\\"b\\\\c\\nd\""));
    assert!(quoted.log_text().ends_with("status_code: None, request_id: None }"));
}

#[test]
fn analysis_replies_keep_status_and_request_id_and_read_the_model_output() {
    let envelope = r#"{"choices":[{"message":{"content":"{\"colors\":[]}"}}]}"#;
    let raw = RawModelResponse { body: envelope.to_owned(), status_code: 200, request_id: Some("req-compatible".to_owned()) };
    let reply = analysis_reply(ProviderKind::OpenAiCompatible, raw).unwrap();
    assert_eq!(reply.status_code, 200);
    assert_eq!(reply.request_id.as_deref(), Some("req-compatible"));
    assert!(reply.body.contains("choices"));
    assert_eq!(reply.body, envelope);

    let empty = RawModelResponse { body: r#"{"choices":[]}"#.to_owned(), status_code: 200, request_id: None };
    assert!(matches!(
        analysis_reply(ProviderKind::OpenAiCompatible, empty),
        Err(ProviderError::InvalidResponse { .. })
    ));
    let broken = RawModelResponse { body: "not json".to_owned(), status_code: 200, request_id: None };
    assert!(matches!(
        analysis_reply(ProviderKind::OpenAiCompatible, broken),
        Err(ProviderError::InvalidResponse { .. })
    ));

    let anthropic = RawModelResponse {
        body: r#"{"content":[{"type":"text","text":"{}"}]}"#.to_owned(),
        status_code: 200,
        request_id: Some("req-ant".to_owned()),
    };
    let reply = analysis_reply(ProviderKind::Anthropic, anthropic).unwrap();
    assert_eq!(reply.body, "{}");
    assert_eq!(reply.request_id.as_deref(), Some("req-ant"));
}

#[test]
fn sensitive_request_and_response_debug_are_redacted() {
    let request = AnalysisRequest {
        model: "vision-model".to_owned(),
        prompt: "analysis prompt".to_owned(),
        json_schema: Some(
            parse_json(r#"{"type":"object","properties":{"colors":{"type":"array"}},"required":["colors"]}"#)
                .unwrap(),
        ),
        images: vec![AnalysisImage { media_type: "image/png".to_owned(), bytes: vec![1, 2, 3, 4] }],
    };
    let request_debug = request.log_text();

    assert!(request_debug.contains("vision-model"));
    assert!(request_debug.contains("image_count"));
    assert!(!request_debug.contains("analysis prompt"));
    assert!(!request_debug.contains("AQIDBA=="));
    assert!(!request_debug.contains("[1, 2, 3, 4]"));
    assert!(!request_debug.contains("colors"));

    let image_debug = request.images[0].log_text();
    assert!(image_debug.contains("image/png"));
    assert!(image_debug.contains("byte_len"));
    assert!(!image_debug.contains("[1, 2, 3, 4]"));
    assert!(!image_debug.contains("AQIDBA=="));

    let raw = RawModelResponse {
        body: r#"{"secret":"provider body"}"#.to_owned(),
        status_code: 200,
        request_id: Some("req-compatible".to_owned()),
    };
    let raw_debug = raw.log_text();
    assert!(raw_debug.contains("status_code"));
    assert!(raw_debug.contains("req-compatible"));
    assert!(!raw_debug.contains("provider body"));
    assert!(!raw_debug.contains("secret"));
    assert_eq!(raw_debug, "RawModelResponse { status_code: 200, request_id: Some(\"req-compatible\") }");
}
