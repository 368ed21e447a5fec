use webxr_graph::sonata_service::{SonataService, SonataSpeechSynthesizer, SonataSynthError};

#[test]
fn synthesizer_yields_no_audio() {
    let synth = SonataSpeechSynthesizer::new("voice.json").unwrap();
    assert!(synth.synthesize("hello").unwrap().is_empty());
    let service = SonataService::new("voice.json").unwrap();
    assert!(service.synthesize("hello").unwrap().is_empty());
}

#[test]
fn synth_error_message() {
    let e = SonataSynthError("no voice".to_string());
    assert_eq!(e.message(), "Sonata synthesis error: no voice");
}
