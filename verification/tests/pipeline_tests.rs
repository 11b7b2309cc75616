use screenrecall::config::{AppConfig, LlmBackend};
use screenrecall::embed::{
    embed_route, embed_text_is_blank, is_missing_embeddings_route, log_ollama_fallback_once,
    looks_like_input_too_large_error, next_embed_text, ollama_embeddings_url,
    openai_embeddings_url, openai_style_embed_base, reset_ollama_fallback_log_signature,
    shrink_text_for_retry, EmbedRoute, FallbackLog,
};
use screenrecall::search::fts_query;
use screenrecall::stream::{
    buffer_exceeds_limit, chat_route, find_double_newline, nonempty_deltas, ollama_chat_url,
    ollama_chunk_action, openai_chat_url, sse_data_lines, take_ndjson_line, take_sse_event,
    ChatRoute,
};

fn cfg() -> AppConfig {
    AppConfig::default_for("/tmp/sr".to_string())
}

#[test]
fn fallback_is_logged_once_until_reset() {
    let mut log = FallbackLog::new();
    assert!(log_ollama_fallback_once(&mut log, "http://a/v1", "http://o", "m"));
    assert!(!log_ollama_fallback_once(&mut log, "http://a/v1", "http://o", "m"));
    assert!(log_ollama_fallback_once(&mut log, "http://a/v1", "http://o", "other"));
    reset_ollama_fallback_log_signature(&mut log);
    assert!(log_ollama_fallback_once(&mut log, "http://a/v1", "http://o", "other"));
}

#[test]
fn embed_base_prefers_dedicated_url() {
    let mut c = cfg();
    assert_eq!(openai_style_embed_base(&c), None);
    c.llm_backend = LlmBackend::Openai;
    c.openai_base_url = "  http://chat/v1  ".to_string();
    assert_eq!(openai_style_embed_base(&c), Some("http://chat/v1".to_string()));
    c.openai_embedding_base_url = Some(" http://emb/v1 ".to_string());
    assert_eq!(openai_style_embed_base(&c), Some("http://emb/v1".to_string()));
    c.openai_embedding_base_url = Some("   ".to_string());
    assert_eq!(openai_style_embed_base(&c), Some("http://chat/v1".to_string()));
    c.openai_base_url = " ".to_string();
    assert_eq!(openai_style_embed_base(&c), Some(String::new()));
    c.openai_embedding_base_url = None;
    assert_eq!(openai_style_embed_base(&c), Some(String::new()));
}

#[test]
fn embed_route_choice() {
    let c = cfg();
    match embed_route(&c) {
        EmbedRoute::Ollama { base_url, model } => {
            assert_eq!(base_url, "http://localhost:11434");
            assert_eq!(model, "nomic-embed-text");
        }
        _ => panic!("expected Ollama"),
    }
    let mut c2 = cfg();
    c2.llm_backend = LlmBackend::Openai;
    match embed_route(&c2) {
        EmbedRoute::OpenAiWithOllamaFallback { base_url, ollama_url, .. } => {
            assert_eq!(base_url, "https://api.openai.com/v1");
            assert_eq!(ollama_url, "http://localhost:11434");
        }
        _ => panic!("expected OpenAI"),
    }
}

#[test]
fn embedding_urls() {
    assert_eq!(ollama_embeddings_url("http://o:11434//"), "http://o:11434/api/embeddings");
    assert_eq!(openai_embeddings_url("http://a/v1/"), "http://a/v1/embeddings");
}

#[test]
fn fallback_and_too_large_detection() {
    assert!(is_missing_embeddings_route("HTTP 501 Not Implemented for url"));
    assert!(is_missing_embeddings_route("HTTP 404"));
    assert!(!is_missing_embeddings_route("HTTP 500 internal"));
    assert!(looks_like_input_too_large_error("Input is TOO LARGE to process"));
    assert!(looks_like_input_too_large_error("exceeds n_ctx"));
    assert!(!looks_like_input_too_large_error("connection refused"));
}

#[test]
fn shrinking_keeps_three_quarters_but_not_below_120() {
    let short: String = "a".repeat(120);
    assert_eq!(shrink_text_for_retry(&short), None);
    let mid: String = "b".repeat(140);
    assert_eq!(shrink_text_for_retry(&mid).map(|s| s.chars().count()), Some(120));
    let long: String = "é".repeat(400);
    assert_eq!(shrink_text_for_retry(&long).map(|s| s.chars().count()), Some(300));
    assert_eq!(next_embed_text("context length exceeded", 0, &long).map(|s| s.len()), Some(600));
    assert_eq!(next_embed_text("context length exceeded", 4, &long), None);
    assert_eq!(next_embed_text("timeout", 0, &long), None);
    assert!(embed_text_is_blank(" \n\t "));
    assert!(!embed_text_is_blank(" x "));
}

#[test]
fn fts_query_quotes_words() {
    assert_eq!(fts_query("hello world"), "\"hello\" \"world\"");
    assert_eq!(fts_query("a.b  c-d_e"), "\"ab\" \"c-d_e\"");
    assert_eq!(fts_query("  ... ?? "), "\"\"");
    assert_eq!(fts_query(""), "\"\"");
    assert_eq!(fts_query("über NEAR(x"), "\"über\" \"NEARx\"");
}

#[test]
fn double_newline_search() {
    assert_eq!(find_double_newline(b"data: x\n\nrest"), Some(7));
    assert_eq!(find_double_newline(b"\n"), None);
    assert_eq!(find_double_newline(b""), None);
}

#[test]
fn ndjson_framing() {
    let mut buf = b"{\"a\":1}\n{\"b\"".to_vec();
    assert_eq!(take_ndjson_line(&mut buf), Some(b"{\"a\":1}".to_vec()));
    assert_eq!(buf, b"{\"b\"".to_vec());
    assert_eq!(take_ndjson_line(&mut buf), None);
    assert_eq!(buf, b"{\"b\"".to_vec());
}

#[test]
fn framing_loses_no_bytes() {
    let input = b"one\ntwo\n\nthree".to_vec();
    let mut buf = input.clone();
    let line = take_ndjson_line(&mut buf).unwrap();
    let mut rebuilt = line.clone();
    rebuilt.push(b'\n');
    rebuilt.extend_from_slice(&buf);
    assert_eq!(rebuilt, input);
    let mut buf2 = input.clone();
    let ev = take_sse_event(&mut buf2).unwrap();
    let mut rebuilt2 = ev.clone();
    rebuilt2.extend_from_slice(&buf2);
    assert_eq!(rebuilt2, input);
    assert_eq!(ev, b"one\ntwo\n\n".to_vec());
}

#[test]
fn sse_framing_and_payloads() {
    let mut buf = b"data: {\"x\":1}\n\ndata: [DONE]\n\n".to_vec();
    let ev = take_sse_event(&mut buf).unwrap();
    assert_eq!(ev, b"data: {\"x\":1}\n\n".to_vec());
    let parsed = sse_data_lines(std::str::from_utf8(&ev).unwrap());
    assert_eq!(parsed.payloads, vec!["{\"x\":1}".to_string()]);
    assert!(!parsed.done);
    let done = sse_data_lines("event: x\ndata: [DONE] \ndata: {\"late\":1}\n");
    assert!(done.done);
    assert!(done.payloads.is_empty());
    assert!(take_sse_event(&mut b"data: partial\n".to_vec()).is_none());
}

#[test]
fn chunk_decisions() {
    assert_eq!(ollama_chunk_action(Some("hi".to_string()), false), (Some("hi".to_string()), false));
    assert_eq!(ollama_chunk_action(Some(String::new()), true), (None, true));
    assert_eq!(ollama_chunk_action(None, false), (None, false));
    assert_eq!(
        nonempty_deltas(vec![Some("a".to_string()), None, Some(String::new()), Some("b".to_string())]),
        vec!["a".to_string(), "b".to_string()]
    );
    assert!(buffer_exceeds_limit(8 * 1024 * 1024 + 1));
    assert!(!buffer_exceeds_limit(8 * 1024 * 1024));
}

#[test]
fn chat_routes_and_urls() {
    let c = cfg();
    match chat_route(&c) {
        ChatRoute::Ollama { base_url, model } => {
            assert_eq!(base_url, "http://localhost:11434");
            assert_eq!(model, "llama3.2");
        }
        _ => panic!("expected Ollama"),
    }
    assert_eq!(ollama_chat_url("http://o/"), "http://o/api/chat");
    assert_eq!(openai_chat_url("http://a/v1"), "http://a/v1/chat/completions");
}
