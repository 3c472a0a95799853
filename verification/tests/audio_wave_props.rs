use outetts::audio::{AudioCodec, AudioDecoder, DEFAULT_SAMPLE_RATE};
use outetts::errors::AudioError;
use outetts::wave::{encode, ModelOutput};

/// Counts invocations; hands back fixed samples, or fails.
struct StubDecoder {
    calls: usize,
    samples: Option<Vec<i16>>,
}

impl AudioDecoder for StubDecoder {
    fn decode(&mut self, _codes: &Vec<u32>) -> Result<Vec<i16>, AudioError> {
        self.calls += 1;
        match &self.samples {
            Some(v) => Ok(v.clone()),
            None => Err(AudioError::DecoderFailure),
        }
    }
}

#[test]
fn synthesize_empty_never_invokes_the_decoder() {
    let mut codec = AudioCodec::new(StubDecoder { calls: 0, samples: Some(vec![1, 2]) });
    let out = codec.synthesize(&Vec::new()).unwrap();
    assert_eq!(out.audio, Vec::<i16>::new());
    assert_eq!(out.sr, DEFAULT_SAMPLE_RATE);
    assert_eq!(codec.decoder.calls, 0);
}

#[test]
fn synthesize_nonempty_decodes_once() {
    let mut codec = AudioCodec::new(StubDecoder { calls: 0, samples: Some(vec![5, -5, 7]) });
    let codes: Vec<u32> = vec![3, 1];
    let out = codec.synthesize(&codes).unwrap();
    assert_eq!(out.audio, vec![5, -5, 7]);
    assert_eq!(out.sr, 24000);
    assert_eq!(codec.decoder.calls, 1);
}

#[test]
fn synthesize_reports_decoder_failure() {
    let mut codec = AudioCodec::new(StubDecoder { calls: 0, samples: None });
    let codes: Vec<u32> = vec![3];
    assert_eq!(codec.synthesize(&codes).err().unwrap(), AudioError::DecoderFailure);
}

#[test]
fn codec_sample_rate_accessors() {
    let codec = AudioCodec::new(StubDecoder { calls: 0, samples: None });
    assert_eq!(codec.get_sr(), 24000);
    assert_eq!(codec.sample_rate(), 24000i32);
}

#[test]
fn wav_buffer_matches_reference_layout() {
    // The quantized form of [0.0, 0.5, -1.0] in 16-bit mode.
    let samples: Vec<i16> = [0.0f32, 0.5, -1.0]
        .iter()
        .map(|s| (s * 32767.0).round() as i16)
        .collect();
    assert_eq!(samples, vec![0, 16384, -32767]);
    let bytes = encode(&samples, 24000);
    assert_eq!(bytes.len(), 44 + 6);
    let expected: Vec<u8> = vec![
        0x52, 0x49, 0x46, 0x46, // RIFF
        42, 0, 0, 0, // riff size = 36 + 6
        0x57, 0x41, 0x56, 0x45, // WAVE
        0x66, 0x6d, 0x74, 0x20, // fmt_
        16, 0, 0, 0, // fmt chunk size
        1, 0, // pcm integer
        1, 0, // one channel
        0xc0, 0x5d, 0, 0, // 24000
        0x80, 0xbb, 0, 0, // byte rate 48000
        2, 0, // block align
        16, 0, // bits per sample
        0x64, 0x61, 0x74, 0x61, // data
        6, 0, 0, 0, // data size
        0x00, 0x00, // 0
        0x00, 0x40, // 16384
        0x01, 0x80, // -32767
    ];
    assert_eq!(bytes, expected);
}

#[test]
fn wav_empty_waveform_is_bare_header() {
    let samples: Vec<i16> = Vec::new();
    let bytes = encode(&samples, 24000);
    assert_eq!(bytes.len(), 44);
    assert_eq!(&bytes[0..4], b"RIFF");
    assert_eq!(&bytes[8..12], b"WAVE");
    assert_eq!(&bytes[36..40], b"data");
    assert_eq!(&bytes[40..44], &[0, 0, 0, 0]);
}

#[test]
fn model_output_to_wav_bytes() {
    let out = ModelOutput::new(vec![1, 2], 24000);
    let bytes = out.to_wav_bytes().unwrap();
    assert_eq!(bytes, encode(&vec![1, 2], 24000));
}

#[test]
fn model_output_rejects_oversized_rate() {
    let out = ModelOutput::new(vec![1], 0x80000000u32);
    assert_eq!(out.to_wav_bytes().err().unwrap(), AudioError::WaveformTooLarge);
}
