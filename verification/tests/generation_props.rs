use outetts::errors::{ConfigError, EngineError, GenerationError};
use outetts::generation::{
    check_generation_max_length, generate, GenerationConfig, InferenceEngine, SamplingPolicy,
    SamplingStage, StopReason,
};

/// Counts every engine call; emits a fixed token; optionally treats one
/// token id as end-of-generation, optionally fails prefill.
struct StubEngine {
    calls: usize,
    emit: u32,
    eog: Option<u32>,
    fail_prefill: bool,
}

impl StubEngine {
    fn new(emit: u32, eog: Option<u32>) -> StubEngine {
        StubEngine { calls: 0, emit, eog, fail_prefill: false }
    }
}

impl InferenceEngine for StubEngine {
    fn prefill(&mut self, _tokens: &Vec<u32>, _policy: &SamplingPolicy) -> Result<(), EngineError> {
        self.calls += 1;
        if self.fail_prefill {
            Err(EngineError::Failure)
        } else {
            Ok(())
        }
    }

    fn sample(&mut self) -> u32 {
        self.calls += 1;
        self.emit
    }

    fn register(&mut self, _token: u32) {
        self.calls += 1;
    }

    fn is_end_token(&self, token: u32) -> bool {
        self.eog == Some(token)
    }

    fn decode_step(&mut self, _token: u32, _position: usize) -> Result<(), EngineError> {
        self.calls += 1;
        Ok(())
    }

    fn clear_cache(&mut self) {
        self.calls += 1;
    }
}

fn config(max_length: usize) -> GenerationConfig {
    GenerationConfig { temperature_milli: 100, repetition_penalty_milli: 1100, max_length }
}

#[test]
fn prompt_filling_budget_fails_before_any_engine_call() {
    let mut engine = StubEngine::new(42, None);
    let prompt: Vec<u32> = vec![1, 2, 3];
    let r = generate(&mut engine, &prompt, &config(3));
    assert_eq!(
        r.err().unwrap(),
        GenerationError::PromptTooLong { token_count: 3, max_length: 3 }
    );
    assert_eq!(engine.calls, 0);
}

#[test]
fn prompt_over_budget_fails_before_any_engine_call() {
    let mut engine = StubEngine::new(42, None);
    let prompt: Vec<u32> = vec![1, 2, 3, 4];
    let r = generate(&mut engine, &prompt, &config(2));
    assert_eq!(
        r.err().unwrap(),
        GenerationError::PromptTooLong { token_count: 4, max_length: 2 }
    );
    assert_eq!(engine.calls, 0);
}

#[test]
fn never_eog_stops_exactly_at_max_length() {
    let mut engine = StubEngine::new(42, None);
    let prompt: Vec<u32> = vec![1, 2];
    let outcome = generate(&mut engine, &prompt, &config(10)).unwrap();
    assert_eq!(outcome.tokens.len(), 10);
    assert_eq!(&outcome.tokens[..2], &[1, 2]);
    assert!(outcome.tokens[2..].iter().all(|&t| t == 42));
    assert!(matches!(outcome.stop, StopReason::MaxLength));
}

#[test]
fn eog_stops_without_appending_the_marker() {
    let mut engine = StubEngine::new(42, Some(42));
    let prompt: Vec<u32> = vec![1, 2];
    let outcome = generate(&mut engine, &prompt, &config(10)).unwrap();
    assert_eq!(outcome.tokens, vec![1, 2]);
    assert!(matches!(outcome.stop, StopReason::EndOfGeneration));
}

#[test]
fn empty_prompt_is_a_valid_edge_case() {
    let mut engine = StubEngine::new(9, None);
    let prompt: Vec<u32> = Vec::new();
    let outcome = generate(&mut engine, &prompt, &config(4)).unwrap();
    assert_eq!(outcome.tokens, vec![9, 9, 9, 9]);
    assert!(matches!(outcome.stop, StopReason::MaxLength));
}

#[test]
fn prefill_failure_is_fatal() {
    let mut engine = StubEngine::new(1, None);
    engine.fail_prefill = true;
    let prompt: Vec<u32> = vec![1];
    let r = generate(&mut engine, &prompt, &config(5));
    assert_eq!(r.err().unwrap(), GenerationError::EngineFailure);
}

#[test]
fn sampling_chain_order_is_penalties_then_temperature() {
    let policy = SamplingPolicy::from_config(&config(5));
    assert_eq!(
        policy.stages,
        vec![
            SamplingStage::RepetitionPenalty { penalty_milli: 1100 },
            SamplingStage::Temperature { temperature_milli: 100 },
        ]
    );
}

#[test]
fn default_generation_config() {
    let c = GenerationConfig::default();
    assert_eq!(c.temperature_milli, 100);
    assert_eq!(c.repetition_penalty_milli, 1100);
    assert_eq!(c.max_length, 4096);
}

#[test]
fn max_length_check_rejects_missing_and_oversized() {
    assert_eq!(
        check_generation_max_length(None, 100).err().unwrap(),
        ConfigError::MissingMaxLength
    );
    assert_eq!(
        check_generation_max_length(Some(101), 100).err().unwrap(),
        ConfigError::MaxLengthExceedsContext { requested: 101, max_seq_length: 100 }
    );
    assert_eq!(check_generation_max_length(Some(100), 100).unwrap(), 100);
    assert_eq!(check_generation_max_length(Some(5), 100).unwrap(), 5);
}
