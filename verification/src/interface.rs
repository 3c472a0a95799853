//! The orchestration layer of one synthesis request: prompt assembly,
//! length checking, the generation loop, audio-token extraction and
//! waveform synthesis, wired together over the narrow engine interfaces.

use vstd::prelude::*;
use crate::audio::{AudioCodec, AudioDecoder};
use crate::errors::{SpeakerError, TtsError};
use crate::generation::{
    check_generation_max_length, generate, GenerationConfig, InferenceEngine,
};
use crate::prompt::{word_in, PromptProcessor, Speaker};
use crate::speakers::{
    canon, distinct_languages, has_language, has_speaker, lemma_default_registry_distinct,
    registry_model, SpeakerRepository,
};
use crate::vocab::TokenEncoder;
use crate::wave::ModelOutput;

verus! {

/// Static configuration of one loaded model.
pub struct GGUFModelConfig {
    pub model_path: String,
    pub language: String,
    pub verbose: bool,
    pub max_seq_length: usize,
    pub n_gpu_layers: u32,
}

/// Everything one synthesis request needs: the configuration, the prompt
/// processor with its audio-code table, the inference engine and the
/// audio decoder.
pub struct InterfaceGGUF<E: TokenEncoder, M: InferenceEngine, D: AudioDecoder> {
    pub config: GGUFModelConfig,
    pub prompt_processor: PromptProcessor<E>,
    pub model: M,
    pub audio_codec: AudioCodec<D>,
}

/// Whether the text language, and the speaker's profile language when a
/// speaker conditions the call, are accepted by the normalizer.
pub open spec fn languages_accepted<E: TokenEncoder>(
    p: PromptProcessor<E>,
    language: Seq<char>,
    speaker: Option<Speaker>,
) -> bool {
    &&& word_in(p.languages.deep_view(), language)
    &&& language == "en"@
    &&& match speaker {
        Some(s) => word_in(p.languages.deep_view(), s.language@) && s.language@ == "en"@,
        None => true,
    }
}

impl<E: TokenEncoder, M: InferenceEngine, D: AudioDecoder> InterfaceGGUF<E, M, D> {
    /// Assembles a ready interface from already-loaded parts (loading
    /// models and tokenizers from disk is the caller's work).
    pub fn new(
        config: GGUFModelConfig,
        prompt_processor: PromptProcessor<E>,
        model: M,
        audio_codec: AudioCodec<D>,
    ) -> (r: InterfaceGGUF<E, M, D>)
        ensures
            r.config == config,
            r.prompt_processor == prompt_processor,
            r.model == model,
            r.audio_codec == audio_codec,
    {
        InterfaceGGUF { config, prompt_processor, model, audio_codec }
    }

    /// One full synthesis request: build and encode the prompt, check the
    /// length bound, run the generation loop, extract the audio codes and
    /// synthesize the waveform.  Fixed-point knobs are thousandths; the
    /// defaults are temperature 0.1 and repetition penalty 1.1.
    pub fn generate(
        &mut self,
        text: &str,
        speaker: Option<&Speaker>,
        temperature_milli: Option<u32>,
        repetition_penalty_milli: Option<u32>,
        max_length: Option<usize>,
    ) -> (r: Result<ModelOutput, TtsError>)
        ensures
            final(self).config == old(self).config,
            final(self).prompt_processor == old(self).prompt_processor,
            final(self).audio_codec.sr == old(self).audio_codec.sr,
            r matches Ok(o) ==> o.sr == old(self).audio_codec.sr,
            !languages_accepted(
                old(self).prompt_processor,
                old(self).config.language@,
                match speaker {
                    Some(s) => Some(*s),
                    None => None,
                },
            ) ==> (r matches Err(e) && e matches TtsError::Normalize(..)),
            languages_accepted(
                old(self).prompt_processor,
                old(self).config.language@,
                match speaker {
                    Some(s) => Some(*s),
                    None => None,
                },
            ) && max_length is None ==> (r matches Err(e) && e matches TtsError::Config(..)),
            languages_accepted(
                old(self).prompt_processor,
                old(self).config.language@,
                match speaker {
                    Some(s) => Some(*s),
                    None => None,
                },
            ) && (max_length matches Some(m) && m > old(self).config.max_seq_length) ==> (r matches
                Err(e) && e matches TtsError::Config(..)),
            languages_accepted(
                old(self).prompt_processor,
                old(self).config.language@,
                match speaker {
                    Some(s) => Some(*s),
                    None => None,
                },
            ) ==> !(r matches Err(e) && e matches TtsError::Normalize(..)),
            languages_accepted(
                old(self).prompt_processor,
                old(self).config.language@,
                match speaker {
                    Some(s) => Some(*s),
                    None => None,
                },
            ) && (max_length matches Some(m) && m <= old(self).config.max_seq_length) ==> !(r
                matches Err(e) && e matches TtsError::Config(..)),
            languages_accepted(
                old(self).prompt_processor,
                old(self).config.language@,
                match speaker {
                    Some(s) => Some(*s),
                    None => None,
                },
            ) && max_length == Some(0usize) ==> (r matches Err(e) && (e matches
                TtsError::Generation(..) || e matches TtsError::Tokenize(..))),
    {
        let built = match self.prompt_processor.get_completion_prompt(
            text,
            self.config.language.as_str(),
            speaker,
        ) {
            Ok(b) => b,
            Err(e) => {
                return Err(TtsError::Normalize(e));
            },
        };
        let bound = match check_generation_max_length(max_length, self.config.max_seq_length) {
            Ok(m) => m,
            Err(e) => {
                return Err(TtsError::Config(e));
            },
        };
        let input_ids = match self.prompt_processor.encode_prompt(&built.prompt) {
            Ok(ids) => ids,
            Err(e) => {
                return Err(TtsError::Tokenize(e));
            },
        };
        let gen_config = GenerationConfig {
            temperature_milli: temperature_milli.unwrap_or(100),
            repetition_penalty_milli: repetition_penalty_milli.unwrap_or(1100),
            max_length: bound,
        };
        let outcome = match generate(&mut self.model, &input_ids, &gen_config) {
            Ok(o) => o,
            Err(e) => {
                return Err(TtsError::Generation(e));
            },
        };
        let codes = self.prompt_processor.extract_audio_from_tokens(&outcome.tokens);
        match self.audio_codec.synthesize(&codes) {
            Ok(out) => Ok(out),
            Err(e) => Err(TtsError::Audio(e)),
        }
    }

    /// Whether a bundled speaker exists for a language, against the fixed
    /// registry; a miss names the missing key and lists what is there.
    pub fn validate_speaker(language: &str, speaker: &str) -> (r: Result<bool, SpeakerError>)
        ensures
            ({
                let repo = SpeakerRepository::spec_default_model();
                &&& (has_speaker(repo, canon(language@), canon(speaker@)) ==> r == Ok::<
                    bool,
                    SpeakerError,
                >(true))
                &&& (!has_language(repo, canon(language@)) ==> (r matches Err(e) && e matches
                    SpeakerError::UnknownLanguage { .. }))
                &&& (has_language(repo, canon(language@)) && !has_speaker(
                    repo,
                    canon(language@),
                    canon(speaker@),
                ) ==> (r matches Err(e) && e matches SpeakerError::UnknownSpeaker { .. }))
            }),
    {
        let repo = SpeakerRepository::new();
        proof {
            lemma_default_registry_distinct(registry_model(repo));
        }
        repo.validate(language, speaker)
    }
}

} // verus!
