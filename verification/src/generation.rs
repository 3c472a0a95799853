//! The autoregressive generation loop: sampling policy, stopping
//! conditions and cache management.
//!
//! The inference engine is reached through the narrow `InferenceEngine`
//! capability interface, so the loop is verified for every behaviour of
//! the engine; a test double can stand in for a real model.

use vstd::prelude::*;
use crate::errors::{ConfigError, EngineError, GenerationError};

verus! {

/// After this many decode steps the engine's attention cache is cleared,
/// bounding memory growth on long generations (a needed piece of history
/// may be discarded; accepted limitation).
pub const CACHE_CLEAR_INTERVAL: usize = 1024;

/// Immutable parameters of one generation call.  The two penalty knobs
/// are fixed-point with three decimal places (a value of 1100 means 1.1),
/// keeping the configuration exact.
#[derive(Clone, Debug)]
pub struct GenerationConfig {
    /// Temperature scaling, thousandths; 0 means greedy.
    pub temperature_milli: u32,
    /// Repetition penalty, thousandths; must be positive.
    pub repetition_penalty_milli: u32,
    /// Hard bound on the total (prompt plus generated) token count.
    pub max_length: usize,
}

impl GenerationConfig {
    pub open spec fn valid(self) -> bool {
        self.repetition_penalty_milli > 0 && self.max_length > 0
    }
}

impl Default for GenerationConfig {
    /// Temperature 0.1, repetition penalty 1.1, length bound 4096.
    fn default() -> (r: GenerationConfig)
        ensures
            r.temperature_milli == 100,
            r.repetition_penalty_milli == 1100,
            r.max_length == 4096,
    {
        GenerationConfig { temperature_milli: 100, repetition_penalty_milli: 1100, max_length: 4096 }
    }
}

/// One stage of the sampling chain.
#[derive(Clone, Copy, Debug, PartialEq, Eq, Structural)]
pub enum SamplingStage {
    /// Penalize ids already emitted; thousandths.
    RepetitionPenalty { penalty_milli: u32 },
    /// Scale the logits; thousandths.
    Temperature { temperature_milli: u32 },
}

/// The sampling chain, applied to the logits in order.
#[derive(Clone, Debug)]
pub struct SamplingPolicy {
    pub stages: Vec<SamplingStage>,
}

impl SamplingPolicy {
    /// The fixed chain order is part of the generation contract:
    /// repetition penalties first, then temperature scaling.
    pub fn from_config(config: &GenerationConfig) -> (r: SamplingPolicy)
        ensures
            r.stages@ =~= seq![
                SamplingStage::RepetitionPenalty {
                    penalty_milli: config.repetition_penalty_milli,
                },
                SamplingStage::Temperature { temperature_milli: config.temperature_milli },
            ],
    {
        let mut stages: Vec<SamplingStage> = Vec::new();
        stages.push(
            SamplingStage::RepetitionPenalty { penalty_milli: config.repetition_penalty_milli },
        );
        stages.push(SamplingStage::Temperature { temperature_milli: config.temperature_milli });
        SamplingPolicy { stages }
    }
}

/// The narrow capability interface of the autoregressive inference
/// engine.  No behaviour is assumed of an implementation; the generation
/// loop is verified for every one.
pub trait InferenceEngine {
    /// Submit the full initial token sequence as one prefill step, with
    /// the sampling policy for the whole call.
    fn prefill(&mut self, tokens: &Vec<u32>, policy: &SamplingPolicy) -> Result<(), EngineError>;

    /// Sample the next token id from the current logits.
    fn sample(&mut self) -> u32;

    /// Register a sampled id with the penalty state.
    fn register(&mut self, token: u32);

    /// Whether the id is the engine's end-of-generation marker.
    fn is_end_token(&self, token: u32) -> bool;

    /// Submit a single-token decode step at a position.
    fn decode_step(&mut self, token: u32, position: usize) -> Result<(), EngineError>;

    /// Drop the engine's internal attention cache.
    fn clear_cache(&mut self);
}

/// Why a generation stopped.
#[derive(Clone, Copy, Debug, PartialEq, Eq, Structural)]
pub enum StopReason {
    /// The engine emitted its end-of-generation marker (not appended).
    EndOfGeneration,
    /// The total token count reached the configured bound.
    MaxLength,
}

/// The full (prompt plus generated) id sequence of one call.
pub struct GenerationOutcome {
    pub tokens: Vec<u32>,
    pub stop: StopReason,
}

/// Drives one full generation: prefill, then sample/decode until the
/// engine ends generation or the length bound is reached.
///
/// The prompt is rejected before any engine call when it already fills
/// the length budget; an empty prompt is valid.  On success the result
/// begins with the prompt, never exceeds `max_length` tokens in total,
/// and reaches exactly `max_length` tokens unless the engine ended
/// generation early.
pub fn generate<E: InferenceEngine>(
    engine: &mut E,
    prompt: &Vec<u32>,
    config: &GenerationConfig,
) -> (r: Result<GenerationOutcome, GenerationError>)
    ensures
        (r matches Err(e) && e == (GenerationError::PromptTooLong {
            token_count: prompt@.len() as usize,
            max_length: config.max_length,
        })) <==> prompt@.len() >= config.max_length,
        r matches Err(e) ==> (e == (GenerationError::PromptTooLong {
            token_count: prompt@.len() as usize,
            max_length: config.max_length,
        }) || e == GenerationError::EngineFailure),
        r matches Ok(o) ==> {
            &&& prompt@.len() < config.max_length
            &&& prompt@.len() <= o.tokens@.len() <= config.max_length
            &&& o.tokens@.subrange(0, prompt@.len() as int) == prompt@
            &&& (o.stop == StopReason::MaxLength <==> o.tokens@.len() == config.max_length)
            &&& (o.stop == StopReason::EndOfGeneration ==> o.tokens@.len() < config.max_length)
        },
{
    if prompt.len() >= config.max_length {
        return Err(
            GenerationError::PromptTooLong {
                token_count: prompt.len(),
                max_length: config.max_length,
            },
        );
    }
    let policy = SamplingPolicy::from_config(config);
    match engine.prefill(prompt, &policy) {
        Ok(()) => (),
        Err(_) => {
            return Err(GenerationError::EngineFailure);
        },
    }
    let mut tokens: Vec<u32> = Vec::new();
    let mut i: usize = 0;
    while i < prompt.len()
        invariant
            i <= prompt@.len(),
            tokens@ == prompt@.subrange(0, i as int),
        decreases prompt@.len() - i,
    {
        tokens.push(prompt[i]);
        i = i + 1;
        assert(tokens@ =~= prompt@.subrange(0, i as int));
    }
    assert(tokens@ =~= prompt@);
    let mut steps: usize = 0;
    while tokens.len() < config.max_length
        invariant
            prompt@.len() <= tokens@.len() <= config.max_length,
            tokens@.subrange(0, prompt@.len() as int) == prompt@,
        decreases config.max_length - tokens@.len(),
    {
        let t = engine.sample();
        engine.register(t);
        if engine.is_end_token(t) {
            return Ok(GenerationOutcome { tokens, stop: StopReason::EndOfGeneration });
        }
        let position = tokens.len();
        tokens.push(t);
        assert(tokens@.subrange(0, prompt@.len() as int) =~= prompt@);
        match engine.decode_step(t, position) {
            Ok(()) => (),
            Err(_) => {
                return Err(GenerationError::EngineFailure);
            },
        }
        if steps < CACHE_CLEAR_INTERVAL - 1 {
            steps = steps + 1;
        } else {
            steps = 0;
            engine.clear_cache();
        }
    }
    Ok(GenerationOutcome { tokens, stop: StopReason::MaxLength })
}

/// Rejects a missing or oversized length bound before generation starts.
pub fn check_generation_max_length(max_length: Option<usize>, max_seq_length: usize) -> (r: Result<
    usize,
    ConfigError,
>)
    ensures
        r == (match max_length {
            None => Err::<usize, ConfigError>(ConfigError::MissingMaxLength),
            Some(m) => if m > max_seq_length {
                Err::<usize, ConfigError>(
                    ConfigError::MaxLengthExceedsContext { requested: m, max_seq_length },
                )
            } else {
                Ok::<usize, ConfigError>(m)
            },
        }),
{
    match max_length {
        None => Err(ConfigError::MissingMaxLength),
        Some(m) => {
            if m > max_seq_length {
                Err(ConfigError::MaxLengthExceedsContext { requested: m, max_seq_length })
            } else {
                Ok(m)
            }
        },
    }
}

} // verus!
