use webxr_graph::simulation::TTSProvider;
use webxr_graph::speech_service::{SpeechAction, SpeechCommand, SpeechSession};

#[test]
fn sonata_by_default() {
    let mut s = SpeechSession::new();
    assert_eq!(s.current_provider(), TTSProvider::Sonata);
    assert!(matches!(s.handle(SpeechCommand::Initialize), SpeechAction::Idle));
    match s.handle(SpeechCommand::SendMessage("hi".to_string())) {
        SpeechAction::RunSonata(m) => assert_eq!(m, "hi"),
        other => panic!("unexpected {:?}", other),
    }
}

#[test]
fn openai_needs_connection() {
    let mut s = SpeechSession::new();
    assert!(matches!(s.handle(SpeechCommand::SetTTSProvider(TTSProvider::OpenAI)), SpeechAction::Idle));
    assert!(matches!(
        s.handle(SpeechCommand::SendMessage("x".to_string())),
        SpeechAction::ReportNotConnected
    ));
    assert!(matches!(s.handle(SpeechCommand::Initialize), SpeechAction::ConnectOpenAI));
    s.connection_opened();
    match s.handle(SpeechCommand::SendMessage("x".to_string())) {
        SpeechAction::SendToOpenAI(m) => assert_eq!(m, "x"),
        other => panic!("unexpected {:?}", other),
    }
    assert!(matches!(
        s.handle(SpeechCommand::Close),
        SpeechAction::Shutdown { close_connection: true }
    ));
}

#[test]
fn close_without_connection() {
    let mut s = SpeechSession::new();
    assert!(matches!(
        s.handle(SpeechCommand::Close),
        SpeechAction::Shutdown { close_connection: false }
    ));
}

#[test]
fn queue_uses_latest_provider_and_stops_at_close() {
    let mut s = SpeechSession::new();
    let queue = vec![
        SpeechCommand::SendMessage("a".to_string()),
        SpeechCommand::SetTTSProvider(TTSProvider::OpenAI),
        SpeechCommand::Initialize,
        SpeechCommand::SetTTSProvider(TTSProvider::Sonata),
        SpeechCommand::SendMessage("b".to_string()),
        SpeechCommand::Close,
    ];
    let mut actions = Vec::new();
    for command in queue {
        let action = s.handle(command);
        let stop = matches!(action, SpeechAction::Shutdown { .. });
        actions.push(action);
        if stop {
            break;
        }
    }
    assert_eq!(actions.len(), 6);
    assert!(matches!(&actions[0], SpeechAction::RunSonata(m) if m == "a"));
    assert!(matches!(actions[2], SpeechAction::ConnectOpenAI));
    assert!(matches!(&actions[4], SpeechAction::RunSonata(m) if m == "b"));
    assert!(matches!(actions[5], SpeechAction::Shutdown { close_connection: false }));
}
