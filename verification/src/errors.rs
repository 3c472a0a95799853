//! Error taxonomy of the pipeline.  Construction-time failures
//! (vocabulary build) and per-request failures (normalization, generation,
//! audio decode) are separate types; `TtsError` is the union a whole
//! synthesis request can report.

use vstd::prelude::*;

verus! {

/// Failure of text normalization.
#[derive(Debug, PartialEq, Eq)]
pub enum NormalizeError {
    /// The requested language is not in the configured language list.
    LanguageNotSupported { language: String, supported: Vec<String> },
    /// The language is configured but only English text handling exists.
    NonEnglishNotImplemented { language: String },
}

/// Failure of the external tokenizer on a text.
#[derive(Debug, PartialEq, Eq)]
pub enum TokenizeError {
    Failure,
}

/// Failure while building the token-id / audio-code table.
#[derive(Debug, PartialEq, Eq)]
pub enum VocabError {
    /// The tokenizer failed on a canonical audio-code string.
    TokenizeFailed { code: u32 },
    /// A canonical audio-code string did not tokenize to exactly one id.
    NotSingleToken { code: u32, id_count: usize },
    /// Two audio codes were given the same token id by the tokenizer.
    DuplicateToken { code: u32, token: u32 },
}

/// Invalid generation parameters, rejected before the engine runs.
#[derive(Debug, PartialEq, Eq)]
pub enum ConfigError {
    MissingMaxLength,
    MaxLengthExceedsContext { requested: usize, max_seq_length: usize },
}

/// Failure inside one generation call.
#[derive(Debug, PartialEq, Eq)]
pub enum GenerationError {
    /// The encoded prompt already fills the whole length budget.
    PromptTooLong { token_count: usize, max_length: usize },
    /// The engine reported a prefill or decode-step failure; fatal.
    EngineFailure,
}

/// What an engine method reports when it fails.
#[derive(Debug, PartialEq, Eq)]
pub enum EngineError {
    Failure,
}

/// Failure of the audio-decoding or packaging stage.
#[derive(Debug, PartialEq, Eq)]
pub enum AudioError {
    DecoderFailure,
    /// The waveform does not fit the 32-bit RIFF container sizes.
    WaveformTooLarge,
}

/// Failure of a speaker lookup.
#[derive(Debug, PartialEq, Eq)]
pub enum SpeakerError {
    /// No speakers exist for the language; `available` lists the languages
    /// that do have speakers.
    UnknownLanguage { language: String, available: Vec<String> },
    /// The language exists but the speaker name does not; `available` lists
    /// the speaker names of that language.
    UnknownSpeaker { language: String, speaker: String, available: Vec<String> },
}

/// Non-fatal diagnostics produced while building a prompt.
#[derive(Debug, PartialEq, Eq)]
pub enum PromptWarning {
    /// The speaker profile's language differs from the text language.
    SpeakerLanguageMismatch { speaker_language: String, text_language: String },
}

/// Union of everything a whole synthesis request can report.
#[derive(Debug, PartialEq, Eq)]
pub enum TtsError {
    Normalize(NormalizeError),
    Tokenize(TokenizeError),
    Config(ConfigError),
    Generation(GenerationError),
    Audio(AudioError),
}

} // verus!
