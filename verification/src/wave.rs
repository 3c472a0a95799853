//! Packaging a PCM waveform as an uncompressed RIFF/WAVE byte buffer.
//!
//! Canonical format: single channel, 16-bit little-endian integer
//! samples, the standard 44-byte header followed by the sample data.
//! Every byte of the output is pinned by `wav_bytes`.

use vstd::prelude::*;
use crate::errors::AudioError;

verus! {

/// Little-endian bytes of a value below 2^16.
pub open spec fn le16(n: nat) -> Seq<u8> {
    seq![(n % 256) as u8, ((n / 256) % 256) as u8]
}

/// Little-endian bytes of a value below 2^32.
pub open spec fn le32(n: nat) -> Seq<u8> {
    seq![
        (n % 256) as u8,
        ((n / 256) % 256) as u8,
        ((n / 65536) % 256) as u8,
        ((n / 16777216) % 256) as u8,
    ]
}

/// The two's-complement 16-bit pattern of a sample.
pub open spec fn sample_pattern(s: i16) -> nat {
    if s >= 0 {
        s as nat
    } else {
        (s + 65536) as nat
    }
}

/// The sample data: each sample as 16-bit little-endian, in order.
pub open spec fn sample_bytes(samples: Seq<i16>) -> Seq<u8>
    decreases samples.len(),
{
    if samples.len() == 0 {
        Seq::empty()
    } else {
        sample_bytes(samples.drop_last()) + le16(sample_pattern(samples.last()))
    }
}

/// The 44-byte header: `RIFF` riff-size `WAVE` `fmt ` 16 format=1
/// channels=1 sample-rate byte-rate block-align=2 bits=16 `data`
/// data-size, all little-endian.
pub open spec fn wav_header(n_samples: nat, sample_rate: u32) -> Seq<u8> {
    seq![0x52u8, 0x49u8, 0x46u8, 0x46u8] + le32(36 + 2 * n_samples) + seq![
        0x57u8,
        0x41u8,
        0x56u8,
        0x45u8,
    ] + seq![0x66u8, 0x6du8, 0x74u8, 0x20u8] + le32(16) + le16(1) + le16(1) + le32(
        sample_rate as nat,
    ) + le32(2 * sample_rate as nat) + le16(2) + le16(16) + seq![0x64u8, 0x61u8, 0x74u8, 0x61u8]
        + le32(2 * n_samples)
}

/// The whole RIFF/WAVE buffer: the header, then the samples.
pub open spec fn wav_bytes(samples: Seq<i16>, sample_rate: u32) -> Seq<u8> {
    wav_header(samples.len(), sample_rate) + sample_bytes(samples)
}

fn push_le16(out: &mut Vec<u8>, n: u16)
    ensures
        final(out)@ == old(out)@ + le16(n as nat),
{
    out.push((n % 256) as u8);
    out.push(((n / 256) % 256) as u8);
    assert(out@ =~= old(out)@ + le16(n as nat));
}

fn push_le32(out: &mut Vec<u8>, n: u32)
    ensures
        final(out)@ == old(out)@ + le32(n as nat),
{
    out.push((n % 256) as u8);
    out.push(((n / 256) % 256) as u8);
    out.push(((n / 65536) % 256) as u8);
    out.push(((n / 16777216) % 256) as u8);
    assert(out@ =~= old(out)@ + le32(n as nat));
}

/// Largest sample count whose data still fits the 32-bit RIFF sizes.
pub const MAX_SAMPLES: usize = 0x7FFFFFDD;

/// The canonical RIFF/WAVE encoding of a 16-bit single-channel waveform.
#[verifier::rlimit(60)]
pub fn encode(samples: &Vec<i16>, sample_rate: u32) -> (r: Vec<u8>)
    requires
        samples@.len() <= MAX_SAMPLES,
        sample_rate <= 0x7FFFFFFF,
    ensures
        r@ == wav_bytes(samples@, sample_rate),
        r@.len() == 44 + 2 * samples@.len(),
{
    let mut out: Vec<u8> = Vec::new();
    let data_size: u32 = (samples.len() as u32) * 2;
    out.push(0x52);
    out.push(0x49);
    out.push(0x46);
    out.push(0x46);
    assert(out@ =~= seq![0x52u8, 0x49u8, 0x46u8, 0x46u8]);
    push_le32(&mut out, 36 + data_size);
    out.push(0x57);
    out.push(0x41);
    out.push(0x56);
    out.push(0x45);
    out.push(0x66);
    out.push(0x6d);
    out.push(0x74);
    out.push(0x20);
    push_le32(&mut out, 16);
    push_le16(&mut out, 1);
    push_le16(&mut out, 1);
    push_le32(&mut out, sample_rate);
    push_le32(&mut out, sample_rate * 2);
    push_le16(&mut out, 2);
    push_le16(&mut out, 16);
    out.push(0x64);
    out.push(0x61);
    out.push(0x74);
    out.push(0x61);
    push_le32(&mut out, data_size);
    proof {
        assert(2 * sample_rate as nat == (sample_rate * 2) as nat);
        assert(2 * samples@.len() == data_size as nat);
        assert(out@ =~= wav_header(samples@.len(), sample_rate));
    }
    let ghost header = out@;
    let mut i: usize = 0;
    while i < samples.len()
        invariant
            i <= samples@.len(),
            out@ == header + sample_bytes(samples@.subrange(0, i as int)),
        decreases samples@.len() - i,
    {
        let s = samples[i];
        let pattern: u16 = if s >= 0 {
            s as u16
        } else {
            ((s as i32) + 65536) as u16
        };
        push_le16(&mut out, pattern);
        i = i + 1;
        proof {
            assert(samples@.subrange(0, i as int).drop_last() =~= samples@.subrange(0, i - 1));
            assert(samples@.subrange(0, i as int).last() == samples@[i - 1]);
            assert(out@ =~= header + sample_bytes(samples@.subrange(0, i as int)));
        }
    }
    proof {
        assert(samples@.subrange(0, samples@.len() as int) =~= samples@);
        assert(out@ == wav_bytes(samples@, sample_rate));
        lemma_sample_bytes_len(samples@);
    }
    out
}

pub proof fn lemma_sample_bytes_len(samples: Seq<i16>)
    ensures
        sample_bytes(samples).len() == 2 * samples.len(),
    decreases samples.len(),
{
    if samples.len() > 0 {
        lemma_sample_bytes_len(samples.drop_last());
    }
}

/// A whole waveform with its sample rate, as produced by one generation
/// call; samples are canonical 16-bit PCM.
pub struct ModelOutput {
    pub audio: Vec<i16>,
    pub sr: u32,
}

impl ModelOutput {
    pub fn new(audio: Vec<i16>, sr: u32) -> (r: ModelOutput)
        ensures
            r.audio == audio,
            r.sr == sr,
    {
        ModelOutput { audio, sr }
    }

    /// The RIFF/WAVE bytes of the waveform; an error when the waveform is
    /// too large for the 32-bit container sizes.
    pub fn to_wav_bytes(&self) -> (r: Result<Vec<u8>, AudioError>)
        ensures
            self.audio@.len() <= MAX_SAMPLES && self.sr <= 0x7FFFFFFF ==> (r matches Ok(b)
                && b@ == wav_bytes(self.audio@, self.sr)),
            !(self.audio@.len() <= MAX_SAMPLES && self.sr <= 0x7FFFFFFF) ==> r == Err::<
                Vec<u8>,
                AudioError,
            >(AudioError::WaveformTooLarge),
    {
        if self.audio.len() <= MAX_SAMPLES && self.sr <= 0x7FFFFFFF {
            Ok(encode(&self.audio, self.sr))
        } else {
            Err(AudioError::WaveformTooLarge)
        }
    }
}

} // verus!
