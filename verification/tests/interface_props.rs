use outetts::audio::{AudioCodec, AudioDecoder};
use outetts::errors::{
    AudioError, ConfigError, EngineError, GenerationError, NormalizeError, SpeakerError,
    TokenizeError, TtsError,
};
use outetts::generation::{InferenceEngine, SamplingPolicy};
use outetts::interface::{GGUFModelConfig, InterfaceGGUF};
use outetts::prompt::PromptProcessor;
use outetts::vocab::TokenEncoder;

/// Maps `<|n|>` to the single id `n + 500`; any other text (the finished
/// prompt) tokenizes to three ids, two of which carry audio codes.
struct StubEncoder {
    fail_prompts: bool,
}

impl TokenEncoder for StubEncoder {
    fn encode_token_ids(&self, text: &String) -> Result<Vec<u32>, TokenizeError> {
        let inner = text.trim_start_matches("<|").trim_end_matches("|>");
        match inner.parse::<u32>() {
            Ok(n) => Ok(vec![n + 500]),
            Err(_) => {
                if self.fail_prompts {
                    Err(TokenizeError::Failure)
                } else {
                    Ok(vec![500, 9, 501])
                }
            },
        }
    }
}

/// Emits a fixed script of tokens, then its end-of-generation marker.
struct ScriptEngine {
    calls: usize,
    script: Vec<u32>,
    position: usize,
}

impl InferenceEngine for ScriptEngine {
    fn prefill(&mut self, _tokens: &Vec<u32>, _policy: &SamplingPolicy) -> Result<(), EngineError> {
        self.calls += 1;
        Ok(())
    }

    fn sample(&mut self) -> u32 {
        self.calls += 1;
        let t = if self.position < self.script.len() {
            self.script[self.position]
        } else {
            u32::MAX
        };
        self.position += 1;
        t
    }

    fn register(&mut self, _token: u32) {}

    fn is_end_token(&self, token: u32) -> bool {
        token == u32::MAX
    }

    fn decode_step(&mut self, _token: u32, _position: usize) -> Result<(), EngineError> {
        self.calls += 1;
        Ok(())
    }

    fn clear_cache(&mut self) {}
}

struct StubDecoder {
    calls: usize,
    samples: Vec<i16>,
}

impl AudioDecoder for StubDecoder {
    fn decode(&mut self, _codes: &Vec<u32>) -> Result<Vec<i16>, AudioError> {
        self.calls += 1;
        Ok(self.samples.clone())
    }
}

fn config(language: &str, max_seq_length: usize) -> GGUFModelConfig {
    GGUFModelConfig {
        model_path: "model.gguf".to_string(),
        language: language.to_string(),
        verbose: false,
        max_seq_length,
        n_gpu_layers: 0,
    }
}

fn interface(
    language: &str,
    fail_prompts: bool,
    script: Vec<u32>,
) -> InterfaceGGUF<StubEncoder, ScriptEngine, StubDecoder> {
    let languages: Vec<String> = vec!["en".to_string(), "ja".to_string()];
    let processor = PromptProcessor::new(StubEncoder { fail_prompts }, languages).unwrap();
    let engine = ScriptEngine { calls: 0, script, position: 0 };
    let codec = AudioCodec::new(StubDecoder { calls: 0, samples: vec![4, -4, 8] });
    InterfaceGGUF::new(config(language, 4096), processor, engine, codec)
}

#[test]
fn full_pipeline_with_stub_engines() {
    // Prompt encodes to [500, 9, 501]; the engine emits 502 and 3 and then
    // ends generation; tokens 500/501/502 carry audio codes 0/1/2.
    let mut iface = interface("en", false, vec![502, 3]);
    let out = iface.generate("hello world", None, None, None, Some(64)).unwrap();
    assert_eq!(out.sr, 24000);
    assert_eq!(out.audio, vec![4, -4, 8]);
    assert_eq!(iface.audio_codec.decoder.calls, 1);
}

#[test]
fn pipeline_prompt_codes_reach_decoder() {
    // The engine ends generation at once, so only the prompt's own mapped
    // ids survive extraction; they still reach the decoder.
    let mut iface = interface("en", false, Vec::new());
    let out = iface.generate("hello", None, None, None, Some(64)).unwrap();
    // Prompt ids 500 and 501 map to codes; the decoder runs once.
    assert_eq!(out.audio, vec![4, -4, 8]);
    assert_eq!(iface.audio_codec.decoder.calls, 1);
}

#[test]
fn pipeline_rejects_unsupported_language() {
    let mut iface = interface("fr", false, Vec::new());
    let err = iface.generate("hello", None, None, None, Some(64)).err().unwrap();
    assert!(matches!(err, TtsError::Normalize(NormalizeError::LanguageNotSupported { .. })));
}

#[test]
fn pipeline_rejects_missing_max_length() {
    let mut iface = interface("en", false, Vec::new());
    let err = iface.generate("hello", None, None, None, None).err().unwrap();
    assert_eq!(err, TtsError::Config(ConfigError::MissingMaxLength));
}

#[test]
fn pipeline_rejects_oversized_max_length() {
    let mut iface = interface("en", false, Vec::new());
    let err = iface.generate("hello", None, None, None, Some(10000)).err().unwrap();
    assert_eq!(
        err,
        TtsError::Config(ConfigError::MaxLengthExceedsContext {
            requested: 10000,
            max_seq_length: 4096,
        })
    );
}

#[test]
fn pipeline_reports_tokenizer_failure() {
    let mut iface = interface("en", true, Vec::new());
    let err = iface.generate("hello", None, None, None, Some(64)).err().unwrap();
    assert_eq!(err, TtsError::Tokenize(TokenizeError::Failure));
}

#[test]
fn pipeline_prompt_too_long() {
    // The stub prompt is three tokens; a bound of three leaves no room.
    let mut iface = interface("en", false, Vec::new());
    let err = iface.generate("hello", None, None, None, Some(3)).err().unwrap();
    assert_eq!(
        err,
        TtsError::Generation(GenerationError::PromptTooLong { token_count: 3, max_length: 3 })
    );
    assert_eq!(iface.model.calls, 0);
}

#[test]
fn validate_speaker_against_bundled_registry() {
    type Iface = InterfaceGGUF<StubEncoder, ScriptEngine, StubDecoder>;
    assert_eq!(Iface::validate_speaker("en", "male_1"), Ok(true));
    let err = Iface::validate_speaker("xx", "male_1").err().unwrap();
    assert!(matches!(err, SpeakerError::UnknownLanguage { .. }));
    let err = Iface::validate_speaker("en", "nobody").err().unwrap();
    assert!(matches!(err, SpeakerError::UnknownSpeaker { .. }));
}
