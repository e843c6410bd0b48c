//! Configuration data: plain settings passed explicitly into the
//! components. Reading and writing configuration files is I/O and lives
//! outside the library.
//!
//! Fractional settings (voice-activity threshold, confidence threshold)
//! are held in hundredths, so a threshold of 80 means four fifths.

use vstd::prelude::*;

verus! {

// ---------------------------------------------------------------------------
// Default values
// ---------------------------------------------------------------------------

pub fn default_input_device() -> (r: String)
    ensures
        r@ == "default"@,
{
    String::from_str("default")
}

pub fn default_sample_rate() -> (r: u32)
    ensures
        r == 16000,
{
    16000
}

/// Voice-activity threshold, in hundredths.
pub fn default_vad_threshold() -> (r: u32)
    ensures
        r == 50,
{
    50
}

pub fn default_stt_provider() -> (r: String)
    ensures
        r@ == "macos-native"@,
{
    String::from_str("macos-native")
}

pub fn default_language() -> (r: String)
    ensures
        r@ == "en-US"@,
{
    String::from_str("en-US")
}

pub fn default_tts_provider() -> (r: String)
    ensures
        r@ == "macos-native"@,
{
    String::from_str("macos-native")
}

pub fn default_voice() -> (r: String)
    ensures
        r@ == "Samantha"@,
{
    String::from_str("Samantha")
}

/// Speech rate in words per minute.
pub fn default_rate() -> (r: u32)
    ensures
        r == 200,
{
    200
}

pub fn default_model() -> (r: String)
    ensures
        r@ == "llama-3.2-3b-instruct"@,
{
    String::from_str("llama-3.2-3b-instruct")
}

/// Confidence threshold, in hundredths.
pub fn default_confidence_threshold() -> (r: u32)
    ensures
        r == 80,
{
    80
}

pub fn default_ensemble_size() -> (r: usize)
    ensures
        r == 3,
{
    3
}

pub fn default_mode() -> (r: String)
    ensures
        r@ == "smart"@,
{
    String::from_str("smart")
}

pub fn default_timeout_ms() -> (r: u64)
    ensures
        r == 1000,
{
    1000
}

/// Default store location, relative to the user's home directory; the
/// embedding application resolves it against the real home.
pub fn default_local_db() -> (r: String)
    ensures
        r@ == ".faster/knowledge.db"@,
{
    String::from_str(".faster/knowledge.db")
}

pub fn default_cli_path() -> (r: String)
    ensures
        r@ == "agent"@,
{
    String::from_str("agent")
}

pub fn default_claude_model() -> (r: String)
    ensures
        r@ == "sonnet"@,
{
    String::from_str("sonnet")
}

pub fn default_sync_mode() -> (r: String)
    ensures
        r@ == "non-sensitive"@,
{
    String::from_str("non-sensitive")
}

// ---------------------------------------------------------------------------
// Sections
// ---------------------------------------------------------------------------

/// Audio capture settings.
pub struct AudioConfig {
    pub input_device: String,
    pub sample_rate: u32,
    /// Voice-activity threshold, in hundredths.
    pub vad_threshold: u32,
}

pub open spec fn is_default_audio(c: AudioConfig) -> bool {
    c.input_device@ == "default"@ && c.sample_rate == 16000 && c.vad_threshold == 50
}

impl Default for AudioConfig {
    fn default() -> (r: AudioConfig)
        ensures
            is_default_audio(r),
    {
        AudioConfig {
            input_device: default_input_device(),
            sample_rate: default_sample_rate(),
            vad_threshold: default_vad_threshold(),
        }
    }
}

/// Speech-to-text settings.
pub struct SttConfig {
    pub provider: String,
    pub language: String,
}

pub open spec fn is_default_stt(c: SttConfig) -> bool {
    c.provider@ == "macos-native"@ && c.language@ == "en-US"@
}

impl Default for SttConfig {
    fn default() -> (r: SttConfig)
        ensures
            is_default_stt(r),
    {
        SttConfig { provider: default_stt_provider(), language: default_language() }
    }
}

/// Text-to-speech settings.
pub struct TtsConfig {
    pub provider: String,
    pub voice: String,
    /// Speech rate in words per minute.
    pub rate: u32,
}

pub open spec fn is_default_tts(c: TtsConfig) -> bool {
    c.provider@ == "macos-native"@ && c.voice@ == "Samantha"@ && c.rate == 200
}

impl Default for TtsConfig {
    fn default() -> (r: TtsConfig)
        ensures
            is_default_tts(r),
    {
        TtsConfig { provider: default_tts_provider(), voice: default_voice(), rate: default_rate() }
    }
}

/// Intent-processing settings.
pub struct IntentConfig {
    pub model: String,
    /// Confidence threshold, in hundredths.
    pub confidence_threshold: u32,
    pub ensemble_size: usize,
}

pub open spec fn is_default_intent(c: IntentConfig) -> bool {
    c.model@ == "llama-3.2-3b-instruct"@ && c.confidence_threshold == 80 && c.ensemble_size == 3
}

impl Default for IntentConfig {
    fn default() -> (r: IntentConfig)
        ensures
            is_default_intent(r),
    {
        IntentConfig {
            model: default_model(),
            confidence_threshold: default_confidence_threshold(),
            ensemble_size: default_ensemble_size(),
        }
    }
}

/// Confirmation-flow settings.
pub struct ConfirmationConfig {
    pub mode: String,
    pub timeout_ms: u64,
}

pub open spec fn is_default_confirmation(c: ConfirmationConfig) -> bool {
    c.mode@ == "smart"@ && c.timeout_ms == 1000
}

impl Default for ConfirmationConfig {
    fn default() -> (r: ConfirmationConfig)
        ensures
            is_default_confirmation(r),
    {
        ConfirmationConfig { mode: default_mode(), timeout_ms: default_timeout_ms() }
    }
}

/// Knowledge-store settings.
pub struct KnowledgeConfig {
    /// Store location, relative to the user's home directory.
    pub local_db: String,
    pub sync_endpoint: Option<String>,
    pub sync_mode: String,
}

pub open spec fn is_default_knowledge(c: KnowledgeConfig) -> bool {
    c.local_db@ == ".faster/knowledge.db"@ && c.sync_endpoint is None && c.sync_mode@
        == "non-sensitive"@
}

impl Default for KnowledgeConfig {
    fn default() -> (r: KnowledgeConfig)
        ensures
            is_default_knowledge(r),
    {
        KnowledgeConfig {
            local_db: default_local_db(),
            sync_endpoint: None,
            sync_mode: default_sync_mode(),
        }
    }
}

/// External-executor settings.
pub struct ClaudeConfig {
    pub cli_path: String,
    pub model: String,
}

pub open spec fn is_default_claude(c: ClaudeConfig) -> bool {
    c.cli_path@ == "agent"@ && c.model@ == "sonnet"@
}

impl Default for ClaudeConfig {
    fn default() -> (r: ClaudeConfig)
        ensures
            is_default_claude(r),
    {
        ClaudeConfig { cli_path: default_cli_path(), model: default_claude_model() }
    }
}

impl ClaudeConfig {
    /// The model handed to the executor: an explicit override wins;
    /// otherwise the configured model, unless it is empty.
    pub fn effective_model(&self, model_override: Option<String>) -> (r: Option<String>)
        ensures
            match model_override {
                Some(m) => r == Some(m),
                None => {
                    if self.model@.len() == 0 {
                        r is None
                    } else {
                        r == Some(self.model)
                    }
                },
            },
    {
        match model_override {
            Some(m) => Some(m),
            None => {
                if self.model.as_str().is_empty() {
                    None
                } else {
                    Some(self.model.clone())
                }
            },
        }
    }
}

/// Observability settings.
pub struct ObservabilityConfig {
    pub conduit_endpoint: Option<String>,
}

pub open spec fn is_default_observability(c: ObservabilityConfig) -> bool {
    c.conduit_endpoint is None
}

impl Default for ObservabilityConfig {
    fn default() -> (r: ObservabilityConfig)
        ensures
            is_default_observability(r),
    {
        ObservabilityConfig { conduit_endpoint: None }
    }
}

/// The whole configuration.
pub struct Config {
    pub audio: AudioConfig,
    pub stt: SttConfig,
    pub tts: TtsConfig,
    pub intent: IntentConfig,
    pub confirmation: ConfirmationConfig,
    pub knowledge: KnowledgeConfig,
    pub claude: ClaudeConfig,
    pub observability: ObservabilityConfig,
}

pub open spec fn is_default_config(c: Config) -> bool {
    &&& is_default_audio(c.audio)
    &&& is_default_stt(c.stt)
    &&& is_default_tts(c.tts)
    &&& is_default_intent(c.intent)
    &&& is_default_confirmation(c.confirmation)
    &&& is_default_knowledge(c.knowledge)
    &&& is_default_claude(c.claude)
    &&& is_default_observability(c.observability)
}

impl Default for Config {
    fn default() -> (r: Config)
        ensures
            is_default_config(r),
    {
        Config {
            audio: AudioConfig {
                input_device: default_input_device(),
                sample_rate: default_sample_rate(),
                vad_threshold: default_vad_threshold(),
            },
            stt: SttConfig { provider: default_stt_provider(), language: default_language() },
            tts: TtsConfig {
                provider: default_tts_provider(),
                voice: default_voice(),
                rate: default_rate(),
            },
            intent: IntentConfig {
                model: default_model(),
                confidence_threshold: default_confidence_threshold(),
                ensemble_size: default_ensemble_size(),
            },
            confirmation: ConfirmationConfig {
                mode: default_mode(),
                timeout_ms: default_timeout_ms(),
            },
            knowledge: KnowledgeConfig {
                local_db: default_local_db(),
                sync_endpoint: None,
                sync_mode: default_sync_mode(),
            },
            claude: ClaudeConfig { cli_path: default_cli_path(), model: default_claude_model() },
            observability: ObservabilityConfig { conduit_endpoint: None },
        }
    }
}

} // verus!
