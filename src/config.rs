//! Configuration: its sections with their defaults, the rules for setting a
//! key from text, and where the data directory lies.

use vstd::prelude::*;
use crate::strings::{chars_of, opt_view, str_eq};

verus! {

/// The whole configuration.
#[derive(Debug, Clone)]
pub struct AppConfig {
    pub general: GeneralConfig,
    pub transcription: TranscriptionConfig,
    pub summarization: SummarizationConfig,
}

/// Storage and download settings.
#[derive(Debug, Clone)]
pub struct GeneralConfig {
    pub data_dir: Option<String>,
    pub max_concurrent_downloads: usize,
    pub auto_cleanup_audio: bool,
}

/// Speech recognition settings.
#[derive(Debug, Clone)]
pub struct TranscriptionConfig {
    pub backend: TranscriptionBackend,
    pub whisper_model: String,
    pub language: Option<String>,
    /// Initial prompt to guide transcription style and vocabulary.
    pub initial_prompt: Option<String>,
    /// Percentage of CPU threads to use (1-100).
    pub cpu_percent: u32,
    /// Chinese script conversion applied to transcripts (e.g. `s2twp`).
    pub chinese_conversion: Option<String>,
}

/// Where recognition runs.
#[derive(Debug, Clone, Copy, PartialEq, Eq)]
pub enum TranscriptionBackend {
    Local,
    Api,
}

/// Summarization API settings.
#[derive(Debug, Clone)]
pub struct SummarizationConfig {
    pub api_base_url: String,
    pub api_key_env: String,
    pub model: String,
    pub max_tokens: u32,
    pub system_prompt: Option<String>,
}

pub fn default_max_downloads() -> (r: usize)
    ensures
        r == 3,
{
    3
}

pub fn default_true() -> (r: bool)
    ensures
        r,
{
    true
}

pub fn default_whisper_model() -> (r: String)
    ensures
        r@ == "base"@,
{
    String::from_str("base")
}

pub fn default_cpu_percent() -> (r: u32)
    ensures
        r == 80,
{
    80
}

pub fn default_api_base_url() -> (r: String)
    ensures
        r@ == "https://generativelanguage.googleapis.com/v1beta/openai"@,
{
    String::from_str("https://generativelanguage.googleapis.com/v1beta/openai")
}

pub fn default_api_key_env() -> (r: String)
    ensures
        r@ == "GEMINI_API_KEY"@,
{
    String::from_str("GEMINI_API_KEY")
}

pub fn default_model() -> (r: String)
    ensures
        r@ == "gemini-2.0-flash"@,
{
    String::from_str("gemini-2.0-flash")
}

pub fn default_max_tokens() -> (r: u32)
    ensures
        r == 4096,
{
    4096
}

impl Default for TranscriptionBackend {
    fn default() -> (r: Self)
        ensures
            r == TranscriptionBackend::Local,
    {
        TranscriptionBackend::Local
    }
}

impl Default for GeneralConfig {
    fn default() -> (r: Self)
        ensures
            r.data_dir is None,
            r.max_concurrent_downloads == 3,
            r.auto_cleanup_audio,
    {
        GeneralConfig {
            data_dir: None,
            max_concurrent_downloads: default_max_downloads(),
            auto_cleanup_audio: default_true(),
        }
    }
}

impl Default for TranscriptionConfig {
    fn default() -> (r: Self)
        ensures
            r.backend == TranscriptionBackend::Local,
            r.whisper_model@ == "base"@,
            r.language is None,
            r.initial_prompt is None,
            r.cpu_percent == 80,
            r.chinese_conversion is None,
    {
        TranscriptionConfig {
            backend: TranscriptionBackend::Local,
            whisper_model: default_whisper_model(),
            language: None,
            initial_prompt: None,
            cpu_percent: default_cpu_percent(),
            chinese_conversion: None,
        }
    }
}

impl Default for SummarizationConfig {
    fn default() -> (r: Self)
        ensures
            r.api_base_url@ == "https://generativelanguage.googleapis.com/v1beta/openai"@,
            r.api_key_env@ == "GEMINI_API_KEY"@,
            r.model@ == "gemini-2.0-flash"@,
            r.max_tokens == 4096,
            r.system_prompt is None,
    {
        SummarizationConfig {
            api_base_url: default_api_base_url(),
            api_key_env: default_api_key_env(),
            model: default_model(),
            max_tokens: default_max_tokens(),
            system_prompt: None,
        }
    }
}

impl Default for AppConfig {
    fn default() -> (r: Self)
        ensures
            r.general.data_dir is None,
            r.general.max_concurrent_downloads == 3,
            r.general.auto_cleanup_audio,
            r.transcription.backend == TranscriptionBackend::Local,
            r.transcription.whisper_model@ == "base"@,
            r.transcription.language is None,
            r.transcription.initial_prompt is None,
            r.transcription.cpu_percent == 80,
            r.transcription.chinese_conversion is None,
            r.summarization.api_base_url@
                == "https://generativelanguage.googleapis.com/v1beta/openai"@,
            r.summarization.api_key_env@ == "GEMINI_API_KEY"@,
            r.summarization.model@ == "gemini-2.0-flash"@,
            r.summarization.max_tokens == 4096,
            r.summarization.system_prompt is None,
    {
        AppConfig {
            general: GeneralConfig::default(),
            transcription: TranscriptionConfig::default(),
            summarization: SummarizationConfig::default(),
        }
    }
}

/// Whether `c` is an ASCII decimal digit.
pub open spec fn is_digit(c: char) -> bool {
    '0' <= c <= '9'
}

/// The value of a sequence of decimal digits.
pub open spec fn digits_value(d: Seq<char>) -> nat
    decreases d.len(),
{
    if d.len() == 0 {
        0
    } else {
        digits_value(d.drop_last()) * 10 + (d.last() as nat - '0' as nat) as nat
    }
}

/// The digits of a number text: the text without a leading `+`.
pub open spec fn unsigned_digits(s: Seq<char>) -> Seq<char> {
    if s.len() > 0 && s[0] == '+' {
        s.drop_first()
    } else {
        s
    }
}

/// Every character of `d` is a decimal digit.
pub open spec fn all_digits(d: Seq<char>) -> bool {
    forall|i: int| 0 <= i < d.len() ==> is_digit(#[trigger] d[i])
}

/// An unsigned 32-bit number written in decimal: an optional `+`, then one
/// or more digits, with a value that fits.
pub open spec fn parse_u32_spec(s: Seq<char>) -> Option<u32> {
    let d = unsigned_digits(s);
    if d.len() > 0 && all_digits(d) && digits_value(d) <= u32::MAX {
        Some(digits_value(d) as u32)
    } else {
        None
    }
}

/// Reads an unsigned 32-bit number written in decimal.
pub fn parse_u32(s: &str) -> (r: Option<u32>)
    ensures
        r == parse_u32_spec(s@),
{
    let cs = chars_of(s);
    let start: usize = if cs.len() > 0 && cs[0] == '+' {
        1
    } else {
        0
    };
    let ghost d = cs@.subrange(start as int, cs@.len() as int);
    assert(d =~= unsigned_digits(s@));
    if start >= cs.len() {
        return None;
    }
    let mut acc: u64 = 0;
    let mut big = false;
    let mut i: usize = start;
    while i < cs.len()
        invariant
            cs@ == s@,
            start <= i <= cs@.len(),
            d == cs@.subrange(start as int, cs@.len() as int),
            d == unsigned_digits(s@),
            forall|j: int| start <= j < i ==> is_digit(#[trigger] cs@[j]),
            !big ==> acc == digits_value(cs@.subrange(start as int, i as int)),
            !big ==> acc <= u32::MAX,
            big ==> digits_value(cs@.subrange(start as int, i as int)) > u32::MAX,
        decreases cs@.len() - i,
    {
        let c = cs[i];
        if !('0' <= c && c <= '9') {
            assert(d[i - start] == c);
            assert(!all_digits(d));
            return None;
        }
        let ghost pre = cs@.subrange(start as int, i as int);
        let ghost cur = cs@.subrange(start as int, i + 1);
        assert(cur.drop_last() =~= pre);
        assert(cur.last() == c);
        assert(digits_value(cur) == digits_value(pre) * 10 + (c as nat - '0' as nat) as nat);
        if !big {
            let v = acc * 10 + (c as u64 - '0' as u64);
            if v > 0xffff_ffff {
                big = true;
            } else {
                acc = v;
            }
        } else {
            assert(digits_value(cur) >= digits_value(pre)) by (nonlinear_arith)
                requires
                    digits_value(cur) == digits_value(pre) * 10 + (c as nat - '0' as nat) as nat,
            ;
        }
        i = i + 1;
    }
    assert(cs@.subrange(start as int, i as int) =~= d);
    assert forall|j: int| 0 <= j < d.len() implies is_digit(#[trigger] d[j]) by {
        assert(d[j] == cs@[start + j]);
    }
    if big {
        None
    } else {
        Some(acc as u32)
    }
}

/// `true` or `false`, exactly.
pub open spec fn parse_bool_spec(s: Seq<char>) -> Option<bool> {
    if s == "true"@ {
        Some(true)
    } else if s == "false"@ {
        Some(false)
    } else {
        None
    }
}

/// Reads `true` or `false`.
pub fn parse_bool(s: &str) -> (r: Option<bool>)
    ensures
        r == parse_bool_spec(s@),
{
    if str_eq(s, "true") {
        Some(true)
    } else if str_eq(s, "false") {
        Some(false)
    } else {
        None
    }
}

/// What `str::to_lowercase` returns for a text.
pub uninterp spec fn lowercase_of(s: Seq<char>) -> Seq<char>;

/// Relies on `str::to_lowercase`: the lower-case form of a text, which
/// depends on its characters alone.
#[verifier::external_body]
fn lowercase(s: &str) -> (r: String)
    ensures
        r@ == lowercase_of(s@),
{
    s.to_lowercase()
}

/// A key that `validate_and_apply` knows.
#[derive(Debug, Clone, Copy, PartialEq, Eq)]
pub enum ConfigKey {
    CpuPercent,
    WhisperModel,
    Language,
    InitialPrompt,
    ApiBaseUrl,
    ApiKeyEnv,
    Model,
    MaxTokens,
    AutoCleanupAudio,
    ChineseConversion,
}

/// The key that a text names, if any.
pub open spec fn key_of(k: Seq<char>) -> Option<ConfigKey> {
    if k == "cpu_percent"@ {
        Some(ConfigKey::CpuPercent)
    } else if k == "whisper_model"@ {
        Some(ConfigKey::WhisperModel)
    } else if k == "language"@ {
        Some(ConfigKey::Language)
    } else if k == "initial_prompt"@ {
        Some(ConfigKey::InitialPrompt)
    } else if k == "api_base_url"@ {
        Some(ConfigKey::ApiBaseUrl)
    } else if k == "api_key_env"@ {
        Some(ConfigKey::ApiKeyEnv)
    } else if k == "model"@ {
        Some(ConfigKey::Model)
    } else if k == "max_tokens"@ {
        Some(ConfigKey::MaxTokens)
    } else if k == "auto_cleanup_audio"@ {
        Some(ConfigKey::AutoCleanupAudio)
    } else if k == "chinese_conversion"@ {
        Some(ConfigKey::ChineseConversion)
    } else {
        None
    }
}

/// The Chinese script conversions that can be configured.
pub open spec fn conversion_names() -> Seq<Seq<char>> {
    seq![
        "s2t"@,
        "s2tw"@,
        "s2twp"@,
        "s2hk"@,
        "t2s"@,
        "tw2s"@,
        "tw2sp"@,
        "hk2s"@,
        "t2tw"@,
        "t2hk"@,
    ]
}

/// Why a configuration value was refused.
#[derive(Debug, Clone, PartialEq, Eq)]
pub enum ConfigError {
    /// The value of a numeric key is not a number.
    InvalidNumber,
    /// `cpu_percent` lies outside 1 to 100.
    CpuPercentOutOfRange,
    /// The value of a boolean key is neither `true` nor `false`.
    ExpectedBool,
    /// The value is not a known Chinese conversion.
    InvalidChineseConversion(String),
    /// The key is not known.
    UnknownKey(String),
    /// No data directory is configured and the platform has none.
    NoDataDir,
    /// The platform has no configuration directory.
    NoConfigDir,
}

/// Whether `e` is the error that setting key `k` to the refused value `v`
/// gives.
pub open spec fn setting_error(k: Seq<char>, v: Seq<char>, e: ConfigError) -> bool {
    match key_of(k) {
        None => e matches ConfigError::UnknownKey(name) && name@ == k,
        Some(ConfigKey::CpuPercent) => match parse_u32_spec(v) {
            None => e == ConfigError::InvalidNumber,
            Some(_) => e == ConfigError::CpuPercentOutOfRange,
        },
        Some(ConfigKey::MaxTokens) => e == ConfigError::InvalidNumber,
        Some(ConfigKey::AutoCleanupAudio) => e == ConfigError::ExpectedBool,
        Some(ConfigKey::ChineseConversion) => e matches ConfigError::InvalidChineseConversion(
            value,
        ) && value@ == v,
        Some(_) => false,
    }
}

/// Whether setting key `k` to `v` is accepted.
pub open spec fn setting_accepted(k: Seq<char>, v: Seq<char>) -> bool {
    match key_of(k) {
        None => false,
        Some(ConfigKey::CpuPercent) => match parse_u32_spec(v) {
            Some(n) => 1 <= n <= 100,
            None => false,
        },
        Some(ConfigKey::MaxTokens) => parse_u32_spec(v) is Some,
        Some(ConfigKey::AutoCleanupAudio) => parse_bool_spec(v) is Some,
        Some(ConfigKey::ChineseConversion) => conversion_names().contains(lowercase_of(v)),
        Some(_) => true,
    }
}

/// Every setting of `b` but the one of key `k` is as in `a`.
pub open spec fn unchanged_except(a: AppConfig, b: AppConfig, k: ConfigKey) -> bool {
    &&& b.general.data_dir == a.general.data_dir
    &&& b.general.max_concurrent_downloads == a.general.max_concurrent_downloads
    &&& k != ConfigKey::AutoCleanupAudio ==> b.general.auto_cleanup_audio
        == a.general.auto_cleanup_audio
    &&& b.transcription.backend == a.transcription.backend
    &&& k != ConfigKey::WhisperModel ==> b.transcription.whisper_model
        == a.transcription.whisper_model
    &&& k != ConfigKey::Language ==> b.transcription.language == a.transcription.language
    &&& k != ConfigKey::InitialPrompt ==> b.transcription.initial_prompt
        == a.transcription.initial_prompt
    &&& k != ConfigKey::CpuPercent ==> b.transcription.cpu_percent == a.transcription.cpu_percent
    &&& k != ConfigKey::ChineseConversion ==> b.transcription.chinese_conversion
        == a.transcription.chinese_conversion
    &&& k != ConfigKey::ApiBaseUrl ==> b.summarization.api_base_url
        == a.summarization.api_base_url
    &&& k != ConfigKey::ApiKeyEnv ==> b.summarization.api_key_env == a.summarization.api_key_env
    &&& k != ConfigKey::Model ==> b.summarization.model == a.summarization.model
    &&& k != ConfigKey::MaxTokens ==> b.summarization.max_tokens == a.summarization.max_tokens
    &&& b.summarization.system_prompt == a.summarization.system_prompt
}

/// The setting of key `k` in `b` holds what text `v` says.
pub open spec fn value_set(b: AppConfig, k: ConfigKey, v: Seq<char>) -> bool {
    match k {
        ConfigKey::CpuPercent => Some(b.transcription.cpu_percent) == parse_u32_spec(v),
        ConfigKey::WhisperModel => b.transcription.whisper_model@ == v,
        ConfigKey::Language => opt_view(b.transcription.language) == Some(v),
        ConfigKey::InitialPrompt => opt_view(b.transcription.initial_prompt) == Some(v),
        ConfigKey::ApiBaseUrl => b.summarization.api_base_url@ == v,
        ConfigKey::ApiKeyEnv => b.summarization.api_key_env@ == v,
        ConfigKey::Model => b.summarization.model@ == v,
        ConfigKey::MaxTokens => Some(b.summarization.max_tokens) == parse_u32_spec(v),
        ConfigKey::AutoCleanupAudio => Some(b.general.auto_cleanup_audio) == parse_bool_spec(v),
        ConfigKey::ChineseConversion => opt_view(b.transcription.chinese_conversion) == Some(
            lowercase_of(v),
        ),
    }
}

fn is_conversion_name(s: &str) -> (r: bool)
    ensures
        r == conversion_names().contains(s@),
{
    let names = [
        "s2t",
        "s2tw",
        "s2twp",
        "s2hk",
        "t2s",
        "tw2s",
        "tw2sp",
        "hk2s",
        "t2tw",
        "t2hk",
    ];
    let mut i: usize = 0;
    while i < 10
        invariant
            i <= 10,
            forall|j: int| 0 <= j < 10 ==> #[trigger] names@[j]@ == conversion_names()[j],
            forall|j: int| 0 <= j < i ==> conversion_names()[j] != s@,
        decreases 10 - i,
    {
        if str_eq(names[i], s) {
            assert(conversion_names()[i as int] == s@);
            return true;
        }
        i = i + 1;
    }
    false
}

/// Sets configuration key `key` from the text `value`, checking the value
/// first; a refused value leaves the configuration as it was.
pub fn validate_and_apply(config: &mut AppConfig, key: &str, value: &str) -> (r: Result<
    (),
    ConfigError,
>)
    ensures
        r is Ok <==> setting_accepted(key@, value@),
        r is Ok ==> value_set(*final(config), key_of(key@)->0, value@) && unchanged_except(
            *old(config),
            *final(config),
            key_of(key@)->0,
        ),
        r matches Err(e) ==> setting_error(key@, value@, e) && *final(config) == *old(config),
{
    if str_eq(key, "cpu_percent") {
        match parse_u32(value) {
            None => Err(ConfigError::InvalidNumber),
            Some(v) => {
                if v < 1 || v > 100 {
                    Err(ConfigError::CpuPercentOutOfRange)
                } else {
                    config.transcription.cpu_percent = v;
                    Ok(())
                }
            },
        }
    } else if str_eq(key, "whisper_model") {
        config.transcription.whisper_model = String::from_str(value);
        Ok(())
    } else if str_eq(key, "language") {
        config.transcription.language = Some(String::from_str(value));
        Ok(())
    } else if str_eq(key, "initial_prompt") {
        config.transcription.initial_prompt = Some(String::from_str(value));
        Ok(())
    } else if str_eq(key, "api_base_url") {
        config.summarization.api_base_url = String::from_str(value);
        Ok(())
    } else if str_eq(key, "api_key_env") {
        config.summarization.api_key_env = String::from_str(value);
        Ok(())
    } else if str_eq(key, "model") {
        config.summarization.model = String::from_str(value);
        Ok(())
    } else if str_eq(key, "max_tokens") {
        match parse_u32(value) {
            None => Err(ConfigError::InvalidNumber),
            Some(v) => {
                config.summarization.max_tokens = v;
                Ok(())
            },
        }
    } else if str_eq(key, "auto_cleanup_audio") {
        match parse_bool(value) {
            None => Err(ConfigError::ExpectedBool),
            Some(v) => {
                config.general.auto_cleanup_audio = v;
                Ok(())
            },
        }
    } else if str_eq(key, "chinese_conversion") {
        let lower = lowercase(value);
        if !is_conversion_name(lower.as_str()) {
            Err(ConfigError::InvalidChineseConversion(String::from_str(value)))
        } else {
            config.transcription.chinese_conversion = Some(lower);
            Ok(())
        }
    } else {
        Err(ConfigError::UnknownKey(String::from_str(key)))
    }
}

impl ConfigError {
    /// The text shown to the user for this error.
    pub fn message(&self) -> (r: String)
        ensures
            r@ == match *self {
                ConfigError::InvalidNumber => "Invalid number"@,
                ConfigError::CpuPercentOutOfRange => "cpu_percent must be between 1 and 100"@,
                ConfigError::ExpectedBool => "Expected true or false"@,
                ConfigError::InvalidChineseConversion(v) => "Invalid chinese_conversion variant: "@
                    + v@ + "\nValid values: s2t, s2tw, s2twp, s2hk, t2s, tw2s, tw2sp, hk2s, t2tw, t2hk"@,
                ConfigError::UnknownKey(k) => "Unknown config key: "@ + k@
                    + "\n\nAvailable keys:\n  cpu_percent, whisper_model, language, initial_prompt, chinese_conversion,\n  api_base_url, api_key_env, model, max_tokens, auto_cleanup_audio"@,
                ConfigError::NoDataDir => "Could not determine data directory"@,
                ConfigError::NoConfigDir => "Could not determine config directory"@,
            },
    {
        match self {
            ConfigError::InvalidNumber => String::from_str("Invalid number"),
            ConfigError::CpuPercentOutOfRange => String::from_str(
                "cpu_percent must be between 1 and 100",
            ),
            ConfigError::ExpectedBool => String::from_str("Expected true or false"),
            ConfigError::InvalidChineseConversion(v) => {
                let mut r = String::from_str("Invalid chinese_conversion variant: ");
                r.append(v.as_str());
                r.append(
                    "\nValid values: s2t, s2tw, s2twp, s2hk, t2s, tw2s, tw2sp, hk2s, t2tw, t2hk",
                );
                r
            },
            ConfigError::UnknownKey(k) => {
                let mut r = String::from_str("Unknown config key: ");
                r.append(k.as_str());
                r.append(
                    "\n\nAvailable keys:\n  cpu_percent, whisper_model, language, initial_prompt, chinese_conversion,\n  api_base_url, api_key_env, model, max_tokens, auto_cleanup_audio",
                );
                r
            },
            ConfigError::NoDataDir => String::from_str("Could not determine data directory"),
            ConfigError::NoConfigDir => String::from_str("Could not determine config directory"),
        }
    }
}

/// `rest` joined onto the path `base`, as a path join does on Unix: an
/// absolute `rest` replaces `base`, and a separator is put between them
/// unless `base` is empty or already ends with one.
pub open spec fn path_join(base: Seq<char>, rest: Seq<char>) -> Seq<char> {
    if rest.len() > 0 && rest[0] == '/' {
        rest
    } else if base.len() == 0 || base.last() == '/' {
        base + rest
    } else {
        base + seq!['/'] + rest
    }
}

/// Joins `rest` onto the path `base`.
pub fn join_path(base: &str, rest: &str) -> (r: String)
    ensures
        r@ == path_join(base@, rest@),
{
    let rn = rest.unicode_len();
    if rn > 0 && rest.get_char(0) == '/' {
        return String::from_str(rest);
    }
    let bn = base.unicode_len();
    let mut r = String::from_str(base);
    if !(bn == 0 || base.get_char(bn - 1) == '/') {
        proof {
            reveal_strlit("/");
        }
        r.append("/");
    }
    r.append(rest);
    assert(r@ =~= path_join(base@, rest@));
    r
}

/// A configured path with a leading `~/` put under the home directory, when
/// one is known; any other path as it is.
pub open spec fn expanded(s: Seq<char>, home: Option<Seq<char>>) -> Seq<char> {
    if s.len() >= 2 && s[0] == '~' && s[1] == '/' && home is Some {
        path_join(home->0, s.subrange(2, s.len() as int))
    } else {
        s
    }
}

/// Puts a leading `~/` of `s` under the home directory `home`.
pub fn expand_home(s: &str, home: Option<&str>) -> (r: String)
    ensures
        r@ == expanded(
            s@,
            match home {
                Some(h) => Some(h@),
                None => None,
            },
        ),
{
    let n = s.unicode_len();
    if n >= 2 && s.get_char(0) == '~' && s.get_char(1) == '/' {
        match home {
            Some(h) => join_path(h, s.substring_char(2, n)),
            None => String::from_str(s),
        }
    } else {
        String::from_str(s)
    }
}

/// Relies on `dirs::home_dir`: the user's home directory, if the platform
/// has one; nothing is known of its value.
#[verifier::external_body]
fn home_dir() -> (r: Option<String>) {
    dirs::home_dir().map(|p| p.to_string_lossy().to_string())
}

/// Relies on `dirs::data_dir`: the platform's data directory, if any;
/// nothing is known of its value.
#[verifier::external_body]
fn platform_data_dir() -> (r: Option<String>) {
    dirs::data_dir().map(|p| p.to_string_lossy().to_string())
}

/// Relies on `dirs::config_dir`: the platform's configuration directory, if
/// any; nothing is known of its value.
#[verifier::external_body]
fn platform_config_dir() -> (r: Option<String>) {
    dirs::config_dir().map(|p| p.to_string_lossy().to_string())
}

/// Expands a leading `~/` of a configured path to the home directory.
pub fn shellexpand(s: &str) -> (r: String)
    ensures
        exists|home: Option<Seq<char>>| r@ == expanded(s@, home),
{
    let home = home_dir();
    match home {
        Some(h) => expand_home(s, Some(h.as_str())),
        None => expand_home(s, None),
    }
}

/// The name of this application's directories.
pub open spec fn app_dir_name() -> Seq<char> {
    "podcast-summarize"@
}

/// The data directory: the configured one, with `~/` expanded, or the
/// application's directory under the platform's data directory.
pub open spec fn data_dir_of(
    configured: Option<Seq<char>>,
    home: Option<Seq<char>>,
    platform: Option<Seq<char>>,
) -> Option<Seq<char>> {
    match configured {
        Some(dir) => Some(expanded(dir, home)),
        None => match platform {
            Some(p) => Some(path_join(p, app_dir_name())),
            None => None,
        },
    }
}

impl AppConfig {
    /// The directory that holds the store, the audio, the transcripts and
    /// the recognition models.
    pub fn data_dir(&self) -> (r: Result<String, ConfigError>)
        ensures
            match r {
                Ok(d) => data_dir_holds(self, d@),
                Err(e) => e == ConfigError::NoDataDir && self.general.data_dir is None,
            },
    {
        match &self.general.data_dir {
            Some(dir) => {
                let d = shellexpand(dir.as_str());
                let ghost home = choose|home: Option<Seq<char>>| d@ == expanded(dir@, home);
                assert(data_dir_of(opt_view(self.general.data_dir), home, None) == Some(d@));
                Ok(d)
            },
            None => match platform_data_dir() {
                Some(p) => {
                    let d = join_path(p.as_str(), "podcast-summarize");
                    assert(data_dir_of(None, None, Some(p@)) == Some(d@));
                    Ok(d)
                },
                None => Err(ConfigError::NoDataDir),
            },
        }
    }

    /// The store's file under the data directory.
    pub fn db_path(&self) -> (r: Result<String, ConfigError>)
        ensures
            match r {
                Ok(p) => exists|d: Seq<char>| #[trigger] data_dir_holds(self, d) && p@ == path_join(d, "db.sqlite3"@),
                Err(e) => e == ConfigError::NoDataDir && self.general.data_dir is None,
            },
    {
        let d = self.data_dir()?;
        let r = join_path(d.as_str(), "db.sqlite3");
        assert(data_dir_holds(self, d@));
        Ok(r)
    }

    /// The directory of downloaded audio under the data directory.
    pub fn audio_dir(&self) -> (r: Result<String, ConfigError>)
        ensures
            match r {
                Ok(p) => exists|d: Seq<char>| #[trigger] data_dir_holds(self, d) && p@ == path_join(d, "audio"@),
                Err(e) => e == ConfigError::NoDataDir && self.general.data_dir is None,
            },
    {
        let d = self.data_dir()?;
        let r = join_path(d.as_str(), "audio");
        assert(data_dir_holds(self, d@));
        Ok(r)
    }

    /// The directory of transcripts under the data directory.
    pub fn transcript_dir(&self) -> (r: Result<String, ConfigError>)
        ensures
            match r {
                Ok(p) => exists|d: Seq<char>| #[trigger] data_dir_holds(self, d) && p@ == path_join(d, "transcripts"@),
                Err(e) => e == ConfigError::NoDataDir && self.general.data_dir is None,
            },
    {
        let d = self.data_dir()?;
        let r = join_path(d.as_str(), "transcripts");
        assert(data_dir_holds(self, d@));
        Ok(r)
    }

    /// The configuration file under the platform's configuration directory.
    pub fn config_path() -> (r: Result<String, ConfigError>)
        ensures
            match r {
                Ok(p) => exists|c: Seq<char>|
                    p@ == path_join(path_join(c, app_dir_name()), "config.toml"@),
                Err(e) => e == ConfigError::NoConfigDir,
            },
    {
        match platform_config_dir() {
            Some(c) => {
                let dir = join_path(c.as_str(), "podcast-summarize");
                let r = join_path(dir.as_str(), "config.toml");
                assert(r@ == path_join(path_join(c@, app_dir_name()), "config.toml"@));
                Ok(r)
            },
            None => Err(ConfigError::NoConfigDir),
        }
    }
}

/// `d` is a data directory that `config` can resolve to.
pub open spec fn data_dir_holds(config: &AppConfig, d: Seq<char>) -> bool {
    exists|home: Option<Seq<char>>, platform: Option<Seq<char>>|
        data_dir_of(opt_view(config.general.data_dir), home, platform) == Some(d)
}

} // verus!
