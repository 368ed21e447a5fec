use webxr_graph::ragflow::{conversation_id_of, parse_answer_chunk, InitChatResponse};

#[test]
fn answers_from_chunks() {
    assert_eq!(parse_answer_chunk(br#"{"data":{"answer":"hi"}}"#), Ok("hi".to_string()));
    assert_eq!(parse_answer_chunk(br#"{"answer":"root"}"#), Ok("root".to_string()));
    assert_eq!(
        parse_answer_chunk(br#"{"data":{}}"#),
        Err("No answer found in response".to_string())
    );
    assert!(parse_answer_chunk(b"{").unwrap_err().starts_with("Failed to parse JSON response: "));
}

#[test]
fn conversation_ids() {
    assert_eq!(conversation_id_of(br#"{"data":{"id":"conv1"}}"#), Ok("conv1".to_string()));
    assert_eq!(conversation_id_of(br#"{"data":{}}"#), Ok(String::new()));
    assert!(conversation_id_of(b"nope").is_err());
}

#[test]
fn init_chat_responses() {
    let ok = InitChatResponse::opened("c1".to_string());
    assert!(ok.success);
    assert_eq!(ok.conversation_id, "c1");
    assert!(ok.message.is_none());
    let failed = InitChatResponse::failed("timeout");
    assert!(!failed.success);
    assert_eq!(failed.conversation_id, "");
    assert_eq!(failed.message.as_deref(), Some("Failed to initialize chat: timeout"));
}
