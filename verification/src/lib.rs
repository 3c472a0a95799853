//! Verified orchestration core of a text-to-speech pipeline.
//!
//! Text is normalized into words, assembled into a special-token prompt,
//! run through an autoregressive inference engine that emits interleaved
//! text and audio-codec tokens, filtered down to audio codes, decoded to a
//! waveform, and packaged as a RIFF/WAVE byte buffer.  The inference engine,
//! the tokenizer and the audio decoder are outside collaborators reached
//! through narrow interfaces; everything that decides or computes here is
//! verified.

#![verifier::loop_isolation(false)]

pub mod chars;
pub mod errors;
pub mod numwords;
pub mod normalize;
pub mod vocab;
pub mod tokenize;
pub mod generation;
pub mod wave;
pub mod audio;
pub mod prompt;
pub mod speakers;
pub mod interface;
