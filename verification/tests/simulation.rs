use webxr_graph::simulation::{clamp_iterations, config_iterations, SimulationMode, SimulationPhase, TTSProvider};

#[test]
fn iteration_clamping() {
    assert_eq!(clamp_iterations(20, false), 10);
    assert_eq!(clamp_iterations(0, false), 1);
    assert_eq!(clamp_iterations(7, false), 7);
    assert_eq!(clamp_iterations(600, true), 500);
    assert_eq!(clamp_iterations(100, true), 200);
    assert_eq!(clamp_iterations(300, true), 300);
    assert_eq!(clamp_iterations(clamp_iterations(600, true), true), 500);
}

#[test]
fn iterations_from_config() {
    assert_eq!(config_iterations(100, SimulationPhase::Initial), 200);
    assert_eq!(config_iterations(1000, SimulationPhase::Interactive), 5);
}

#[test]
fn simulation_modes() {
    assert_eq!(SimulationMode::from_name("remote"), SimulationMode::Remote);
    assert_eq!(SimulationMode::from_name("gpu"), SimulationMode::GPU);
    assert_eq!(SimulationMode::from_name("local"), SimulationMode::Local);
    assert_eq!(SimulationMode::from_name("other"), SimulationMode::Remote);
    assert!(SimulationMode::Remote.gpu_enabled());
    assert!(SimulationMode::GPU.gpu_enabled());
    assert!(!SimulationMode::Local.gpu_enabled());
}

#[test]
fn tts_providers() {
    assert_eq!(TTSProvider::from_use_openai(true), TTSProvider::OpenAI);
    assert_eq!(TTSProvider::from_use_openai(false), TTSProvider::Sonata);
    assert!(TTSProvider::is_openai_name("openai"));
    assert!(!TTSProvider::is_openai_name("piper"));
}
