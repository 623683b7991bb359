use podcast_summarize::config::{
    expand_home, join_path, shellexpand, AppConfig, GeneralConfig, SummarizationConfig,
    TranscriptionBackend, TranscriptionConfig,
};

#[test]
fn default_transcription_config() {
    let config = TranscriptionConfig::default();
    assert_eq!(config.whisper_model, "base");
    assert!(config.language.is_none());
    assert!(config.initial_prompt.is_none());
    assert_eq!(config.cpu_percent, 80);
}

#[test]
fn default_summarization_config() {
    let config = SummarizationConfig::default();
    assert_eq!(config.api_key_env, "GEMINI_API_KEY");
    assert_eq!(config.model, "gemini-2.0-flash");
    assert_eq!(config.max_tokens, 4096);
    assert!(config.system_prompt.is_none());
}

#[test]
fn default_general_config() {
    let config = GeneralConfig::default();
    assert!(config.data_dir.is_none());
    assert_eq!(config.max_concurrent_downloads, 3);
    assert!(config.auto_cleanup_audio);
}

#[test]
fn default_app_config() {
    let config = AppConfig::default();
    assert_eq!(config.transcription.backend, TranscriptionBackend::Local);
    assert_eq!(
        config.summarization.api_base_url,
        "https://generativelanguage.googleapis.com/v1beta/openai"
    );
}

#[test]
fn shellexpand_without_tilde() {
    let result = shellexpand("/absolute/path");
    assert_eq!(result, "/absolute/path");
}

#[test]
fn expand_home_under_home() {
    assert_eq!(expand_home("~/pods", Some("/home/u")), "/home/u/pods");
    assert_eq!(expand_home("~/pods", Some("/home/u/")), "/home/u/pods");
    assert_eq!(expand_home("~/pods", None), "~/pods");
    assert_eq!(expand_home("~pods", Some("/home/u")), "~pods");
}

#[test]
fn join_path_rules() {
    assert_eq!(join_path("/data", "audio"), "/data/audio");
    assert_eq!(join_path("/data/", "audio"), "/data/audio");
    assert_eq!(join_path("", "audio"), "audio");
    assert_eq!(join_path("/data", "/abs"), "/abs");
}

#[test]
fn configured_data_dir_paths() {
    let mut config = AppConfig::default();
    config.general.data_dir = Some("/srv/pods".to_string());
    assert_eq!(config.data_dir().unwrap(), "/srv/pods");
    assert_eq!(config.db_path().unwrap(), "/srv/pods/db.sqlite3");
    assert_eq!(config.audio_dir().unwrap(), "/srv/pods/audio");
    assert_eq!(config.transcript_dir().unwrap(), "/srv/pods/transcripts");
}
