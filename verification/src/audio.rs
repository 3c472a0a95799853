//! Audio codes to waveform, through the external audio-decoder engine.
//!
//! The decoder is reached through the narrow `AudioDecoder` interface; a
//! test double can stand in for the real network.  An empty code sequence
//! yields an explicit empty waveform without invoking the decoder at all.

use vstd::prelude::*;
use crate::errors::AudioError;
use crate::wave::ModelOutput;

verus! {

/// Sample rate of the audio-decoder engine in the current integration.
pub const DEFAULT_SAMPLE_RATE: u32 = 24000;

/// The narrow capability interface of the neural audio decoder: audio
/// codes in, 16-bit PCM samples out.  Nothing is assumed of an
/// implementation.
pub trait AudioDecoder {
    fn decode(&mut self, codes: &Vec<u32>) -> Result<Vec<i16>, AudioError>;
}

/// The audio-decoding stage: owns the decoder and its fixed sample rate.
pub struct AudioCodec<D: AudioDecoder> {
    pub decoder: D,
    pub sr: u32,
}

impl<D: AudioDecoder> AudioCodec<D> {
    pub fn new(decoder: D) -> (r: AudioCodec<D>)
        ensures
            r.sr == DEFAULT_SAMPLE_RATE,
            r.decoder == decoder,
    {
        AudioCodec { decoder, sr: DEFAULT_SAMPLE_RATE }
    }

    pub fn sample_rate(&self) -> (r: i32)
        requires
            self.sr <= 0x7FFFFFFF,
        ensures
            r == self.sr as i32,
    {
        self.sr as i32
    }

    pub fn get_sr(&self) -> (r: u32)
        ensures
            r == self.sr,
    {
        self.sr
    }

    /// One decoder invocation; the sample rate never changes.
    pub fn decode(&mut self, codes: &Vec<u32>) -> (r: Result<Vec<i16>, AudioError>)
        ensures
            final(self).sr == old(self).sr,
    {
        self.decoder.decode(codes)
    }

    /// Waveform of a code sequence.  An empty input is not an error: it
    /// yields an empty waveform at the unchanged sample rate, and the
    /// decoder engine is not invoked.
    pub fn synthesize(&mut self, codes: &Vec<u32>) -> (r: Result<ModelOutput, AudioError>)
        ensures
            final(self).sr == old(self).sr,
            codes@.len() == 0 ==> *final(self) == *old(self),
            codes@.len() == 0 ==> (r matches Ok(o) && o.audio@.len() == 0 && o.sr == old(self).sr),
            r matches Ok(o) ==> o.sr == old(self).sr,
    {
        if codes.len() == 0 {
            let audio: Vec<i16> = Vec::new();
            return Ok(ModelOutput::new(audio, self.sr));
        }
        match self.decoder.decode(codes) {
            Ok(samples) => Ok(ModelOutput::new(samples, self.sr)),
            Err(e) => Err(e),
        }
    }
}

} // verus!
