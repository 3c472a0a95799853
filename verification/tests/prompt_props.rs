use outetts::errors::{NormalizeError, TokenizeError};
use outetts::prompt::{time_tag_exec, PromptProcessor, Speaker, Word};
use outetts::vocab::{audio_code_string, TokenEncoder};

/// Maps `<|n|>` to the single id `n + 500`; any other text tokenizes to a
/// fixed three-id sequence.
struct StubEncoder;

impl TokenEncoder for StubEncoder {
    fn encode_token_ids(&self, text: &String) -> Result<Vec<u32>, TokenizeError> {
        let inner = text.trim_start_matches("<|").trim_end_matches("|>");
        match inner.parse::<u32>() {
            Ok(n) => Ok(vec![n + 500]),
            Err(_) => Ok(vec![500, 501, 502]),
        }
    }
}

fn svec(words: &[&str]) -> Vec<String> {
    words.iter().map(|w| w.to_string()).collect()
}

fn processor() -> PromptProcessor<StubEncoder> {
    PromptProcessor::new(StubEncoder, svec(&["en", "ja", "ko", "zh"])).unwrap()
}

fn speaker(language: &str, text: &str, words: Vec<Word>) -> Speaker {
    Speaker {
        name: "tester".to_string(),
        language: language.to_string(),
        text: text.to_string(),
        words,
    }
}

#[test]
fn time_tag_two_decimal_places() {
    assert_eq!(time_tag_exec(150), "<|t_1.50|>");
    assert_eq!(time_tag_exec(7), "<|t_0.07|>");
    assert_eq!(time_tag_exec(1234), "<|t_12.34|>");
}

#[test]
fn audio_code_string_shape() {
    assert_eq!(audio_code_string(0), "<|0|>");
    assert_eq!(audio_code_string(61), "<|61|>");
    assert_eq!(audio_code_string(4099), "<|4099|>");
}

#[test]
fn audio_prompt_single_word() {
    let p = processor();
    let words = vec![Word { word: "hi".to_string(), duration_centis: 150, codes: vec![1, 2] }];
    assert_eq!(
        p.create_audio_prompt(&words),
        "hi<|t_1.50|><|code_start|><|1|><|2|><|code_end|>"
    );
}

#[test]
fn audio_prompt_words_newline_joined() {
    let p = processor();
    let words = vec![
        Word { word: "hi".to_string(), duration_centis: 150, codes: vec![1] },
        Word { word: "there".to_string(), duration_centis: 25, codes: vec![] },
    ];
    assert_eq!(
        p.create_audio_prompt(&words),
        "hi<|t_1.50|><|code_start|><|1|><|code_end|>\nthere<|t_0.25|><|code_start|><|code_end|>"
    );
}

#[test]
fn process_text_unsupported_language_lists_supported() {
    let p = processor();
    let err = p.process_text("hi", "fr").err().unwrap();
    assert_eq!(
        err,
        NormalizeError::LanguageNotSupported {
            language: "fr".to_string(),
            supported: svec(&["en", "ja", "ko", "zh"]),
        }
    );
}

#[test]
fn process_text_non_english_not_implemented() {
    let p = processor();
    let err = p.process_text("hi", "ja").err().unwrap();
    assert_eq!(err, NormalizeError::NonEnglishNotImplemented { language: "ja".to_string() });
}

#[test]
fn process_text_normalizes_english() {
    let p = processor();
    assert_eq!(p.process_text("Hello, World", "en").unwrap(), svec(&["hello", "world"]));
}

#[test]
fn completion_prompt_without_speaker() {
    let p = processor();
    let built = p.get_completion_prompt("hello world", "en", None).unwrap();
    assert_eq!(
        built.prompt,
        "<|im_start|>\n<|text_start|>hello<|text_sep|>world<|text_end|>\n<|audio_start|>\n"
    );
    assert!(built.warning.is_none());
}

#[test]
fn completion_prompt_with_speaker_appends_audio_prompt() {
    let p = processor();
    let spk = speaker(
        "en",
        "good day",
        vec![Word { word: "good".to_string(), duration_centis: 50, codes: vec![3] }],
    );
    let built = p.get_completion_prompt("hello world", "en", Some(&spk)).unwrap();
    assert_eq!(
        built.prompt,
        "<|im_start|>\n<|text_start|>hello<|text_sep|>world<|text_sep|>good<|text_sep|>day<|text_end|>\n<|audio_start|>\ngood<|t_0.50|><|code_start|><|3|><|code_end|>"
    );
    assert!(built.warning.is_none());
}

#[test]
fn completion_prompt_speaker_language_must_normalize() {
    let p = processor();
    let spk = speaker("ja", "x", Vec::new());
    let err = p.get_completion_prompt("hello", "en", Some(&spk)).err().unwrap();
    assert_eq!(err, NormalizeError::NonEnglishNotImplemented { language: "ja".to_string() });
}

#[test]
fn extract_through_processor() {
    let p = processor();
    let tokens: Vec<u32> = vec![500, 1, 502, 2];
    assert_eq!(p.extract_audio_from_tokens(&tokens), vec![0, 2]);
}

#[test]
fn encode_prompt_through_encoder() {
    let p = processor();
    assert_eq!(p.encode_prompt(&"anything".to_string()).unwrap(), vec![500, 501, 502]);
}
