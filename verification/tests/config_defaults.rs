use faster::config::Config;

#[test]
fn config_test_default_config() {
    let config = Config::default();

    // Audio defaults; the voice-activity threshold is held in hundredths.
    assert_eq!(config.audio.input_device, "default");
    assert_eq!(config.audio.sample_rate, 16000);
    assert_eq!(config.audio.vad_threshold, 50);

    // STT defaults
    assert_eq!(config.stt.provider, "macos-native");
    assert_eq!(config.stt.language, "en-US");

    // TTS defaults
    assert_eq!(config.tts.provider, "macos-native");
    assert_eq!(config.tts.voice, "Samantha");
    assert_eq!(config.tts.rate, 200);

    // Intent defaults; the confidence threshold is held in hundredths.
    assert_eq!(config.intent.model, "llama-3.2-3b-instruct");
    assert_eq!(config.intent.confidence_threshold, 80);
    assert_eq!(config.intent.ensemble_size, 3);

    // Confirmation defaults
    assert_eq!(config.confirmation.mode, "smart");
    assert_eq!(config.confirmation.timeout_ms, 1000);

    // Knowledge defaults
    assert!(config.knowledge.local_db.contains(".faster"));
    assert_eq!(config.knowledge.sync_endpoint, None);
    assert_eq!(config.knowledge.sync_mode, "non-sensitive");

    // Executor defaults
    assert_eq!(config.claude.cli_path, "agent");
    assert_eq!(config.claude.model, "sonnet");

    // Observability defaults
    assert_eq!(config.observability.conduit_endpoint, None);
}

#[test]
fn main_test_default_config() {
    let config = Config::default();
    assert_eq!(config.stt.provider, "macos-native");
    assert_eq!(config.intent.confidence_threshold, 80);
}

#[test]
fn test_effective_model_prefers_override() {
    let config = Config::default();
    assert_eq!(
        config.claude.effective_model(Some("opus".to_string())),
        Some("opus".to_string())
    );
    assert_eq!(config.claude.effective_model(None), Some("sonnet".to_string()));
}

#[test]
fn test_effective_model_empty_configured_model() {
    let mut config = Config::default();
    config.claude.model = String::new();
    assert_eq!(config.claude.effective_model(None), None);
}
