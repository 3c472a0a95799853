use outetts::errors::{TokenizeError, VocabError};
use outetts::vocab::{TokenEncoder, VocabularyMap};

/// Maps the canonical code string `<|n|>` to the single id `n + offset`.
struct OffsetEncoder {
    offset: u32,
}

impl TokenEncoder for OffsetEncoder {
    fn encode_token_ids(&self, text: &String) -> Result<Vec<u32>, TokenizeError> {
        let inner = text.trim_start_matches("<|").trim_end_matches("|>");
        let n: u32 = inner.parse().unwrap();
        Ok(vec![n + self.offset])
    }
}

struct TwoIdEncoder;

impl TokenEncoder for TwoIdEncoder {
    fn encode_token_ids(&self, _text: &String) -> Result<Vec<u32>, TokenizeError> {
        Ok(vec![1, 2])
    }
}

struct ConstantEncoder;

impl TokenEncoder for ConstantEncoder {
    fn encode_token_ids(&self, _text: &String) -> Result<Vec<u32>, TokenizeError> {
        Ok(vec![7])
    }
}

struct FailingEncoder;

impl TokenEncoder for FailingEncoder {
    fn encode_token_ids(&self, _text: &String) -> Result<Vec<u32>, TokenizeError> {
        Err(TokenizeError::Failure)
    }
}

#[test]
fn decode_round_trip_full_range() {
    let enc = OffsetEncoder { offset: 1000 };
    let vocab = VocabularyMap::build(&enc, 4100).unwrap();
    assert_eq!(vocab.num_codes(), 4100);
    for code in 0..4100usize {
        let token = vocab.token_for(code);
        assert_eq!(token, code as u32 + 1000);
        assert_eq!(vocab.decode(token), Some(code as u32));
    }
}

#[test]
fn decode_unmapped_is_none() {
    let enc = OffsetEncoder { offset: 100 };
    let vocab = VocabularyMap::build(&enc, 10).unwrap();
    assert_eq!(vocab.decode(99), None);
    assert_eq!(vocab.decode(110), None);
    assert_eq!(vocab.decode(105), Some(5));
}

#[test]
fn build_fails_on_multiple_ids() {
    let r = VocabularyMap::build(&TwoIdEncoder, 5);
    assert_eq!(
        r.err().unwrap(),
        VocabError::NotSingleToken { code: 0, id_count: 2 }
    );
}

#[test]
fn build_fails_on_duplicate_token() {
    let r = VocabularyMap::build(&ConstantEncoder, 5);
    assert_eq!(
        r.err().unwrap(),
        VocabError::DuplicateToken { code: 1, token: 7 }
    );
}

#[test]
fn build_fails_on_tokenizer_error() {
    let r = VocabularyMap::build(&FailingEncoder, 5);
    assert_eq!(r.err().unwrap(), VocabError::TokenizeFailed { code: 0 });
}

#[test]
fn extract_is_order_preserving_filter() {
    let enc = OffsetEncoder { offset: 100 };
    let vocab = VocabularyMap::build(&enc, 10).unwrap();
    let tokens: Vec<u32> = vec![100, 5, 109, 7, 100];
    assert_eq!(vocab.extract(&tokens), vec![0, 9, 0]);
}

#[test]
fn extract_empty_and_unmapped() {
    let enc = OffsetEncoder { offset: 100 };
    let vocab = VocabularyMap::build(&enc, 10).unwrap();
    assert_eq!(vocab.extract(&Vec::new()), Vec::<u32>::new());
    let tokens: Vec<u32> = vec![1, 2, 3];
    assert_eq!(vocab.extract(&tokens), Vec::<u32>::new());
}
