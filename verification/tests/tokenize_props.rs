use std::collections::HashMap;
use outetts::tokenize::TextTokenizer;
use outetts::vocab::{TokenEncoder, VocabularyMap};
use tokenizers::models::wordlevel::WordLevel;
use tokenizers::Tokenizer;

/// A real in-process tokenizer whose vocabulary pairs each canonical
/// audio-code string `<|i|>` with the id `i + 3`.
fn small_tokenizer(n: u32) -> Tokenizer {
    let mut vocab: HashMap<String, u32> = HashMap::new();
    vocab.insert("<unk>".to_string(), 0);
    for i in 0..n {
        vocab.insert(format!("<|{}|>", i), i + 3);
    }
    let model = WordLevel::builder()
        .vocab(vocab)
        .unk_token("<unk>".to_string())
        .build()
        .unwrap();
    Tokenizer::new(model)
}

#[test]
fn real_tokenizer_encodes_single_ids() {
    let t = TextTokenizer::new(small_tokenizer(50));
    assert_eq!(t.encode_token_ids(&"<|0|>".to_string()).unwrap(), vec![3]);
    assert_eq!(t.encode_token_ids(&"<|49|>".to_string()).unwrap(), vec![52]);
}

#[test]
fn real_tokenizer_vocabulary_round_trip() {
    let t = TextTokenizer::new(small_tokenizer(50));
    let vocab = VocabularyMap::build(&t, 50).unwrap();
    assert_eq!(vocab.num_codes(), 50);
    for code in 0..50usize {
        let token = vocab.token_for(code);
        assert_eq!(token, code as u32 + 3);
        assert_eq!(vocab.decode(token), Some(code as u32));
    }
    assert_eq!(vocab.decode(0), None);
    assert_eq!(vocab.decode(53), None);
}
