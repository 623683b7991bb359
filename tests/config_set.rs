use podcast_summarize::config::{validate_and_apply, AppConfig, ConfigError};

fn default_config() -> AppConfig {
    AppConfig::default()
}

#[test]
fn cpu_percent_valid_min() {
    let mut c = default_config();
    validate_and_apply(&mut c, "cpu_percent", "1").unwrap();
    assert_eq!(c.transcription.cpu_percent, 1);
}

#[test]
fn cpu_percent_valid_max() {
    let mut c = default_config();
    validate_and_apply(&mut c, "cpu_percent", "100").unwrap();
    assert_eq!(c.transcription.cpu_percent, 100);
}

#[test]
fn cpu_percent_zero_fails() {
    let mut c = default_config();
    assert!(validate_and_apply(&mut c, "cpu_percent", "0").is_err());
}

#[test]
fn cpu_percent_101_fails() {
    let mut c = default_config();
    assert!(validate_and_apply(&mut c, "cpu_percent", "101").is_err());
}

#[test]
fn cpu_percent_non_numeric_fails() {
    let mut c = default_config();
    assert!(validate_and_apply(&mut c, "cpu_percent", "abc").is_err());
}

#[test]
fn bool_parsing_true() {
    let mut c = default_config();
    validate_and_apply(&mut c, "auto_cleanup_audio", "false").unwrap();
    assert!(!c.general.auto_cleanup_audio);
    validate_and_apply(&mut c, "auto_cleanup_audio", "true").unwrap();
    assert!(c.general.auto_cleanup_audio);
}

#[test]
fn bool_parsing_invalid() {
    let mut c = default_config();
    assert!(validate_and_apply(&mut c, "auto_cleanup_audio", "yes").is_err());
}

#[test]
fn string_fields() {
    let mut c = default_config();
    validate_and_apply(&mut c, "whisper_model", "large-v3").unwrap();
    assert_eq!(c.transcription.whisper_model, "large-v3");

    validate_and_apply(&mut c, "language", "zh").unwrap();
    assert_eq!(c.transcription.language.as_deref(), Some("zh"));

    validate_and_apply(&mut c, "model", "gpt-4o").unwrap();
    assert_eq!(c.summarization.model, "gpt-4o");
}

#[test]
fn max_tokens_valid() {
    let mut c = default_config();
    validate_and_apply(&mut c, "max_tokens", "8192").unwrap();
    assert_eq!(c.summarization.max_tokens, 8192);
}

#[test]
fn max_tokens_invalid() {
    let mut c = default_config();
    assert!(validate_and_apply(&mut c, "max_tokens", "not_a_number").is_err());
}

#[test]
fn unknown_key_fails() {
    let mut c = default_config();
    let err = validate_and_apply(&mut c, "nonexistent", "value").unwrap_err();
    let msg = err.message();
    assert!(msg.contains("Unknown config key"));
    assert!(msg.contains("nonexistent"));
}

#[test]
fn error_variants_for_each_refusal() {
    let mut c = default_config();
    assert_eq!(
        validate_and_apply(&mut c, "cpu_percent", "abc"),
        Err(ConfigError::InvalidNumber)
    );
    assert_eq!(
        validate_and_apply(&mut c, "cpu_percent", "0"),
        Err(ConfigError::CpuPercentOutOfRange)
    );
    assert_eq!(
        validate_and_apply(&mut c, "auto_cleanup_audio", "yes"),
        Err(ConfigError::ExpectedBool)
    );
    assert_eq!(
        validate_and_apply(&mut c, "chinese_conversion", "x2y"),
        Err(ConfigError::InvalidChineseConversion("x2y".to_string()))
    );
    assert_eq!(c.transcription.cpu_percent, 80);
    assert!(c.general.auto_cleanup_audio);
    assert!(c.transcription.chinese_conversion.is_none());
}

#[test]
fn chinese_conversion_is_lowercased() {
    let mut c = default_config();
    validate_and_apply(&mut c, "chinese_conversion", "S2TWP").unwrap();
    assert_eq!(c.transcription.chinese_conversion.as_deref(), Some("s2twp"));
}

#[test]
fn remaining_string_keys() {
    let mut c = default_config();
    validate_and_apply(&mut c, "initial_prompt", "tech talk").unwrap();
    validate_and_apply(&mut c, "api_base_url", "http://localhost:8080/v1").unwrap();
    validate_and_apply(&mut c, "api_key_env", "MY_KEY").unwrap();
    assert_eq!(c.transcription.initial_prompt.as_deref(), Some("tech talk"));
    assert_eq!(c.summarization.api_base_url, "http://localhost:8080/v1");
    assert_eq!(c.summarization.api_key_env, "MY_KEY");
    assert_eq!(c.summarization.model, "gemini-2.0-flash");
}

#[test]
fn number_parsing_edges() {
    let mut c = default_config();
    validate_and_apply(&mut c, "max_tokens", "+4294967295").unwrap();
    assert_eq!(c.summarization.max_tokens, 4294967295);
    assert!(validate_and_apply(&mut c, "max_tokens", "4294967296").is_err());
    assert!(validate_and_apply(&mut c, "max_tokens", "").is_err());
    assert!(validate_and_apply(&mut c, "max_tokens", "+").is_err());
    assert!(validate_and_apply(&mut c, "max_tokens", "-1").is_err());
    assert_eq!(c.summarization.max_tokens, 4294967295);
}

#[test]
fn error_messages() {
    assert_eq!(ConfigError::InvalidNumber.message(), "Invalid number");
    assert_eq!(
        ConfigError::CpuPercentOutOfRange.message(),
        "cpu_percent must be between 1 and 100"
    );
    assert_eq!(ConfigError::ExpectedBool.message(), "Expected true or false");
    assert!(ConfigError::InvalidChineseConversion("zz".to_string())
        .message()
        .starts_with("Invalid chinese_conversion variant: zz\nValid values: s2t,"));
}
