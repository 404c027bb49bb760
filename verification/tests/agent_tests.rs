use smart_tx_stack::ai::agent::{
    authorization_header, build_failure_reasoning_prompt, clean_json_response, reply_content, request_body,
    request_url, AiAgent, ProviderType, SYSTEM_PROMPT, DEFAULT_FALLBACK_MODEL, NO_HISTORY, PROMPT_CLOSING, PROMPT_OPENING,
};
use smart_tx_stack::text::{i64_to_decimal, u64_to_decimal};
use smart_tx_stack::types::ai::{FailureContext, LlmProvider};

fn context(history: &str, latency: i64) -> FailureContext {
    FailureContext {
        intent_id: "intent_7".to_string(),
        bundle_id: "bundle_7".to_string(),
        failure_type: "expired_blockhash".to_string(),
        slot: 123456,
        tip: 10000,
        latency,
        extra: "dropped".to_string(),
        retry_count: 1,
        history_summary: history.to_string(),
        network_snapshot: None,
    }
}

#[test]
fn test_provider_type_detection() {
    assert_eq!(ProviderType::detect("https://generativelanguage.googleapis.com/v1beta"), ProviderType::Gemini);
    assert_eq!(ProviderType::detect("https://api.x.ai/v1/chat/completions"), ProviderType::Grok);
    assert_eq!(ProviderType::detect("http://localhost:11434/api/chat"), ProviderType::Ollama);
    assert_eq!(ProviderType::detect("https://api.openai.com/v1/chat/completions"), ProviderType::OpenAi);
}

#[test]
fn provider_detection_ignores_case() {
    assert_eq!(ProviderType::detect("HTTPS://API.X.AI/V1"), ProviderType::Grok);
    assert_eq!(ProviderType::detect("http://127.0.0.1:8080"), ProviderType::Ollama);
    assert_eq!(ProviderType::detect("http://MY-OLLAMA-BOX/api"), ProviderType::Ollama);
    assert_eq!(ProviderType::detect("https://GenerativeLanguage.example"), ProviderType::Gemini);
}

#[test]
fn llm_provider_from_url() {
    assert_eq!(LlmProvider::from_url("https://generativelanguage.googleapis.com/v1beta"), LlmProvider::Gemini);
    assert_eq!(LlmProvider::from_url("https://api.x.ai/v1"), LlmProvider::OpenAiCompatible);
}

#[test]
fn clean_json_response_strips_fences() {
    assert_eq!(clean_json_response("  ```json\n{\"a\":1}\n```  "), "{\"a\":1}");
    assert_eq!(clean_json_response("```\n{\"a\":1}```"), "{\"a\":1}");
    assert_eq!(clean_json_response("  {\"a\":1} \n"), "{\"a\":1}");
    // An opening fence without a closing one keeps the trimmed response whole.
    assert_eq!(clean_json_response(" ```json {\"a\":1}"), "```json {\"a\":1}");
    assert_eq!(clean_json_response(""), "");
}

#[test]
fn prompt_carries_the_failure_context() {
    let p = build_failure_reasoning_prompt(&context("refresh_blockhash failed twice", -5));
    assert!(p.starts_with(PROMPT_OPENING));
    assert!(p.ends_with(PROMPT_CLOSING));
    assert!(p.contains("- Bundle ID: bundle_7\n"));
    assert!(p.contains("- Failure type: expired_blockhash\n"));
    assert!(p.contains("- Current slot: 123456\n"));
    assert!(p.contains("- Tip paid: 10000 lamports\n"));
    assert!(p.contains("- Latency to processed: -5ms\n"));
    assert!(p.contains("- Additional details: dropped\n"));
    assert!(p.contains("- Retry History for this Intent: refresh_blockhash failed twice\n"));
}

#[test]
fn prompt_notes_missing_history() {
    let p = build_failure_reasoning_prompt(&context("  \n ", 5000));
    assert!(p.contains(&format!("- Retry History for this Intent: {}\n", NO_HISTORY)));
    assert!(p.contains("- Latency to processed: 5000ms\n"));
}

#[test]
fn gemini_takes_the_key_as_query_parameter() {
    assert_eq!(request_url(ProviderType::Gemini, "https://g/v1", "K"), "https://g/v1?key=K");
    assert_eq!(request_url(ProviderType::Gemini, "https://g/v1?alt=json", "K"), "https://g/v1?alt=json&key=K");
    assert_eq!(request_url(ProviderType::Grok, "https://x/v1", "K"), "https://x/v1");
    assert_eq!(authorization_header(ProviderType::OpenAi, "K"), Some("Bearer K".to_string()));
    assert_eq!(authorization_header(ProviderType::Grok, "K"), Some("Bearer K".to_string()));
    assert_eq!(authorization_header(ProviderType::Gemini, "K"), None);
    assert_eq!(authorization_header(ProviderType::Ollama, "K"), None);
}

#[test]
fn fallback_needs_url_and_key() {
    let a = AiAgent::new("u".to_string(), "k".to_string(), "m".to_string(), Some("fu".to_string()), None, None);
    assert!(a.fallback_endpoint().is_none());
    let p = a.primary_endpoint();
    assert_eq!((p.url.as_str(), p.key.as_str(), p.model.as_str()), ("u", "k", "m"));

    let a = AiAgent::new("u".to_string(), "k".to_string(), "m".to_string(), Some("fu".to_string()), Some("fk".to_string()), None);
    let f = a.fallback_endpoint().unwrap();
    assert_eq!((f.url.as_str(), f.key.as_str(), f.model.as_str()), ("fu", "fk", DEFAULT_FALLBACK_MODEL));
    assert_eq!(DEFAULT_FALLBACK_MODEL, "grok-3-mini-fast");

    let a = AiAgent::new("u".to_string(), "k".to_string(), "m".to_string(), Some("fu".to_string()), Some("fk".to_string()), Some("fm".to_string()));
    assert_eq!(a.fallback_endpoint().unwrap().model, "fm");
}

#[test]
fn provider_of_lowercase_url() {
    assert_eq!(ProviderType::of_lowercase_url("https://api.x.ai/v1"), ProviderType::Grok);
    assert_eq!(ProviderType::of_lowercase_url("https://ollama.internal/api/chat"), ProviderType::Ollama);
    // Already lower case is taken as it is: upper-case text matches nothing.
    assert_eq!(ProviderType::of_lowercase_url("HTTPS://API.X.AI/V1"), ProviderType::OpenAi);
}

#[test]
fn decimal_notation() {
    assert_eq!(u64_to_decimal(0), "0");
    assert_eq!(u64_to_decimal(u64::MAX), u64::MAX.to_string());
    assert_eq!(i64_to_decimal(i64::MIN), i64::MIN.to_string());
    assert_eq!(i64_to_decimal(-5), "-5");
}

#[test]
fn reply_content_reads_each_provider() {
    let openai = r#"{"choices":[{"message":{"content":" ```json\n{\"a\":1}\n``` "}}]}"#;
    assert_eq!(reply_content(ProviderType::OpenAi, openai), Some("{\"a\":1}".to_string()));
    assert_eq!(reply_content(ProviderType::Grok, openai), Some("{\"a\":1}".to_string()));
    let gemini = r#"{"candidates":[{"content":{"parts":[{"text":"{}"}]}}]}"#;
    assert_eq!(reply_content(ProviderType::Gemini, gemini), Some("{}".to_string()));
    let ollama = r#"{"message":{"content":"x"}}"#;
    assert_eq!(reply_content(ProviderType::Ollama, ollama), Some("x".to_string()));
    assert_eq!(reply_content(ProviderType::Ollama, openai), None);
    assert_eq!(reply_content(ProviderType::OpenAi, r#"{"choices":[{"message":{"content":7}}]}"#), None);
    assert_eq!(reply_content(ProviderType::OpenAi, "not json"), None);
}

#[test]
fn request_bodies_carry_the_fields_of_each_provider() {
    let prompt = "line \"one\"\n\ttab \\ \u{1}";
    let b: serde_json::Value = serde_json::from_str(&request_body(ProviderType::Gemini, "m", prompt)).unwrap();
    assert_eq!(b["contents"][0]["parts"][0]["text"], prompt);
    assert_eq!(b["systemInstruction"]["parts"][0]["text"], SYSTEM_PROMPT);
    assert_eq!(b["generationConfig"]["temperature"], 0.0);
    assert_eq!(b["generationConfig"]["responseMimeType"], "application/json");

    let b: serde_json::Value = serde_json::from_str(&request_body(ProviderType::Grok, "grok-3", prompt)).unwrap();
    assert_eq!(b["model"], "grok-3");
    assert_eq!(b["messages"][0]["role"], "system");
    assert_eq!(b["messages"][0]["content"], SYSTEM_PROMPT);
    assert_eq!(b["messages"][1]["role"], "user");
    assert_eq!(b["messages"][1]["content"], prompt);
    assert_eq!(b["response_format"]["type"], "json_object");

    let b: serde_json::Value = serde_json::from_str(&request_body(ProviderType::Ollama, "llama3", prompt)).unwrap();
    assert_eq!(b["model"], "llama3");
    assert_eq!(b["stream"], false);
    assert_eq!(b["format"], "json");
    assert_eq!(b["messages"][1]["content"], prompt);
}
