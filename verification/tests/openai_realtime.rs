use webxr_graph::openai_realtime::{
    realtime_response_step, realtime_url, speech_event_step, RealtimeStep, SpeechEventStep,
};
use webxr_graph::openwebui_service::OpenWebUiService;

#[test]
fn realtime_url_rewrites_http_schemes() {
    assert_eq!(realtime_url("https://api.openai.com/v1/realtime"), "wss://api.openai.com/v1/realtime");
    assert_eq!(realtime_url("http://localhost:8080"), "wss://localhost:8080");
    assert_eq!(realtime_url("api.openai.com"), "wss://api.openai.com");
    assert_eq!(realtime_url("https://https://x"), "wss://x");
}

#[test]
fn realtime_url_keeps_websocket_schemes() {
    assert_eq!(realtime_url("wss://api.openai.com"), "wss://api.openai.com");
    assert_eq!(realtime_url("ws://localhost"), "ws://localhost");
}

#[test]
fn realtime_step_relays_audio() {
    match realtime_response_step(br#"{"type":"response.audio.delta","delta":{"audio":"UklGRg=="}}"#) {
        RealtimeStep::RelayAudio(a) => assert_eq!(a, "UklGRg=="),
        other => panic!("unexpected {:?}", other),
    }
}

#[test]
fn realtime_step_finishes_on_text_done() {
    assert!(matches!(realtime_response_step(br#"{"type":"response.text.done"}"#), RealtimeStep::Finish));
}

#[test]
fn realtime_step_skips_other_events() {
    assert!(matches!(realtime_response_step(br#"{"type":"session.created"}"#), RealtimeStep::Skip));
    assert!(matches!(realtime_response_step(br#"[1,2]"#), RealtimeStep::Skip));
}

#[test]
fn realtime_step_reports_bad_json() {
    match realtime_response_step(b"{not json") {
        RealtimeStep::ReportError(m) => assert!(m.starts_with("Error parsing JSON response from OpenAI: ")),
        other => panic!("unexpected {:?}", other),
    }
}

#[test]
fn speech_event_broadcasts_decoded_audio_in_order() {
    let event = br#"{"type":"conversation.item.created","item":{"content":[
        {"type":"audio","audio":"aGk="},
        {"type":"text","text":"skip"},
        {"type":"audio","audio":"!!!"},
        {"type":"audio","audio":"b2s="}]}}"#;
    match speech_event_step(event) {
        Ok(SpeechEventStep::Broadcast(clips)) => {
            assert_eq!(clips, vec![b"hi".to_vec(), b"ok".to_vec()]);
        }
        other => panic!("unexpected {:?}", other),
    }
}

#[test]
fn speech_event_without_content_array_broadcasts_nothing() {
    match speech_event_step(br#"{"type":"conversation.item.created","item":{"content":{}}}"#) {
        Ok(SpeechEventStep::Broadcast(clips)) => assert!(clips.is_empty()),
        other => panic!("unexpected {:?}", other),
    }
}

#[test]
fn speech_event_stops_on_error_and_completion() {
    assert!(matches!(speech_event_step(br#"{"type":"error"}"#), Ok(SpeechEventStep::Stop)));
    assert!(matches!(speech_event_step(br#"{"type":"response.completed"}"#), Ok(SpeechEventStep::Stop)));
}

#[test]
fn speech_event_continues_otherwise() {
    assert!(matches!(speech_event_step(br#"{"type":"response.created"}"#), Ok(SpeechEventStep::Continue)));
    assert!(matches!(speech_event_step(br#"{}"#), Ok(SpeechEventStep::Continue)));
}

#[test]
fn speech_event_refuses_bad_json() {
    assert!(speech_event_step(b"nope").is_err());
}

#[test]
fn openwebui_prefixes_the_file() {
    let p = OpenWebUiService::process_file("abc".to_string()).unwrap();
    assert_eq!(p.content, "Processed: abc");
}
