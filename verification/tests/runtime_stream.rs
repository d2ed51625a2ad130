use infy::kernel::error::Error;
use infy::kernel::generation::{FinishReason, Usage};
use infy::runtime::json::Json;
use infy::runtime::logic::{models_from_json, RuntimeKind};
use infy::runtime::stream::{data_line, error_message_in, frame_from, StreamReader};

const SSE: &[&str] = &[
    r#"data: {"id":"c1","object":"chat.completion.chunk","created":1,"model":"llama3.2:3b","choices":[{"index":0,"delta":{"role":"assistant","content":""},"finish_reason":null}]}"#,
    "",
    r#"data: {"id":"c1","object":"chat.completion.chunk","created":1,"model":"llama3.2:3b","choices":[{"index":0,"delta":{"content":"Hel"},"finish_reason":null}]}"#,
    r#"data: {"id":"c1","object":"chat.completion.chunk","created":1,"model":"llama3.2:3b","choices":[{"index":0,"delta":{"content":"lo"},"finish_reason":null}]}"#,
    r#"data: {"id":"c1","object":"chat.completion.chunk","created":1,"model":"llama3.2:3b","choices":[{"index":0,"delta":{},"finish_reason":"stop"}],"usage":{"prompt_tokens":12,"completion_tokens":2,"total_tokens":14}}"#,
    "data: [DONE]",
];

fn read(chat: bool, model: &str, lines: &[&str]) -> (StreamReader, String) {
    let mut r = StreamReader::new(chat, model);
    let mut seen = String::new();
    for l in lines {
        if let Some(t) = r.accept(l) {
            seen.push_str(&t);
        }
    }
    (r, seen)
}

#[test]
fn a_chat_stream_shows_its_deltas_and_says_what_answered() {
    let (r, seen) = read(true, "llama3.2", SSE);
    assert_eq!(seen, "Hello");
    let end = r.end(RuntimeKind::Ollama, 200, false, "llama3.2").unwrap();
    assert_eq!(end.text, "Hello");
    assert_eq!(end.model, "llama3.2:3b", "the resolved tag, not the requested one");
    assert_eq!(end.finish, FinishReason::Stop);
    assert_eq!(
        end.usage,
        Usage {
            prompt_tokens: 12,
            completion_tokens: 2,
            cached_tokens: 0
        }
    );
}

#[test]
fn refusals_are_specific_and_a_cancelled_stream_keeps_its_text() {
    let (r, _) = read(
        true,
        "nope",
        &[r#"{"error":{"message":"model 'nope' not found","type":"api_error"}}"#],
    );
    match r.end(RuntimeKind::Ollama, 404, false, "nope") {
        Err(Error::NotFound(m)) => assert!(
            m.contains("model 'nope' not found") && m.contains("infy pull ollama:nope"),
            "{m}"
        ),
        other => panic!("{other:?}"),
    }
    let (r, _) = read(true, "m", &["overloaded"]);
    assert!(
        matches!(r.end(RuntimeKind::Ollama, 503, false, "m"), Err(Error::Unavailable(m)) if m.contains("503") && m.contains("overloaded"))
    );

    // Cancelled after the first delta: what was read is kept.
    let (r, seen) = read(true, "m", &SSE[..3]);
    assert_eq!(seen, "Hel");
    let end = r.end(RuntimeKind::Ollama, 200, true, "m").unwrap();
    assert_eq!(end.text, "Hel");
    assert_eq!(end.finish, FinishReason::Cancelled);
}

#[test]
fn a_completion_stream_reads_the_choice_text() {
    let stream = &[
        r#"data: {"id":"x","object":"text_completion","created":1,"model":"m:latest","choices":[{"text":"foo","index":0,"finish_reason":null}]}"#,
        r#"data: {"id":"x","object":"text_completion","created":1,"model":"m:latest","choices":[{"text":"","index":0,"finish_reason":"length"}],"usage":{"prompt_tokens":1,"completion_tokens":1,"total_tokens":2}}"#,
        "data: [DONE]",
    ];
    let (r, _) = read(false, "m", stream);
    let end = r.end(RuntimeKind::Ollama, 200, false, "m").unwrap();
    assert_eq!(end.text, "foo");
    assert_eq!(end.finish, FinishReason::Length);
    assert_eq!(end.model, "m:latest");
}

#[test]
fn data_lines_are_framed_and_the_end_marker_is_not_data() {
    assert_eq!(data_line("data: {\"a\":1} "), Some("{\"a\":1}".to_string()));
    assert_eq!(data_line("data:x"), Some("x".to_string()));
    assert_eq!(data_line("data: [DONE]"), None);
    assert_eq!(data_line(": keep-alive"), None);
    assert_eq!(data_line("event: message"), None);
}

#[test]
fn what_is_not_a_chunk_is_kept_for_the_refusal() {
    let (r, seen) = read(
        true,
        "m",
        &["data: not json", "  ", "data: {\"choices\":3}", "plain"],
    );
    assert_eq!(seen, "");
    match r.end(RuntimeKind::LlamaCpp, 500, false, "m") {
        Err(Error::Unavailable(m)) => {
            assert_eq!(m, "llama.cpp answered 500: not json{\"choices\":3}plain")
        }
        other => panic!("{other:?}"),
    }
    // The cached part of the prompt is read from its details.
    let (r, _) = read(
        true,
        "m",
        &[r#"data: {"choices":[],"usage":{"prompt_tokens":5,"completion_tokens":1,"prompt_tokens_details":{"cached_tokens":4}}}"#],
    );
    let end = r.end(RuntimeKind::LmStudio, 200, false, "m").unwrap();
    assert_eq!(end.model, "m", "the requested model until the runtime names one");
    assert_eq!(
        end.usage,
        Usage {
            prompt_tokens: 5,
            completion_tokens: 1,
            cached_tokens: 4
        }
    );
    assert_eq!(end.finish, FinishReason::Stop);
}

#[test]
fn a_chunk_document_gives_its_frame() {
    let o = |kv: Vec<(&str, Json)>| Json::Object(kv.into_iter().map(|(k, v)| (k.to_string(), v)).collect());
    let chunk = o(vec![
        ("model", Json::Text("m".into())),
        (
            "choices",
            Json::Array(vec![o(vec![
                ("delta", o(vec![("content", Json::Text("hi".into()))])),
                ("finish_reason", Json::Null),
            ])]),
        ),
    ]);
    let (model, text, finish, usage) = frame_from(true, &chunk).unwrap();
    assert_eq!(model, "m");
    assert_eq!(text, Some("hi".to_string()));
    assert_eq!(finish, None);
    assert_eq!(usage, None);
    let (_, text, _, _) = frame_from(false, &chunk).unwrap();
    assert_eq!(text, None, "a completion reads `text`, not the delta");
    assert!(frame_from(true, &Json::Array(vec![])).is_none());
    assert!(frame_from(true, &o(vec![("model", Json::Number(Some(1)))])).is_none());

    let err = o(vec![("error", o(vec![("message", Json::Text("nope".into()))]))]);
    assert_eq!(error_message_in(&err), Some("nope".to_string()));
    assert_eq!(error_message_in(&o(vec![("error", Json::Text("x".into()))])), None);
}

#[test]
fn a_listing_document_gives_its_models() {
    let o = |kv: Vec<(&str, Json)>| Json::Object(kv.into_iter().map(|(k, v)| (k.to_string(), v)).collect());
    let list = o(vec![(
        "data",
        Json::Array(vec![o(vec![("id", Json::Text("qwen".into())), ("owned_by", Json::Text("me".into()))])]),
    )]);
    let ms = models_from_json(RuntimeKind::LmStudio, &list).unwrap();
    assert_eq!(ms.len(), 1);
    assert_eq!(ms[0].name, "qwen");
    assert!(models_from_json(RuntimeKind::LmStudio, &o(vec![])).is_err(), "data is required");
    assert_eq!(
        models_from_json(RuntimeKind::Ollama, &o(vec![])).unwrap().len(),
        0,
        "ollama without models serves nothing"
    );
}
