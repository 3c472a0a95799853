//! The external tokenizer, behind a narrow trusted boundary.
//!
//! `TextTokenizer` owns a `tokenizers::Tokenizer` (loaded by the caller,
//! since reading the tokenizer file is I/O) and exposes it as a
//! `TokenEncoder`.  What ids come back depends on the tokenizer data on
//! disk, so nothing is promised about them; everything that consumes the
//! ids is verified for every possible answer.

use vstd::prelude::*;
use crate::errors::TokenizeError;
use crate::vocab::TokenEncoder;

verus! {

#[verifier::external_type_specification]
#[verifier::external_body]
pub struct ExTokenizer(tokenizers::Tokenizer);

/// Relies on `tokenizers::Tokenizer::encode` with `add_special_tokens`
/// false: the token ids of the text, `None` when the tokenizer reports an
/// error.
#[verifier::external_body]
fn encode_ids(t: &tokenizers::Tokenizer, text: &String) -> Option<Vec<u32>> {
    match t.encode(text.as_str(), false) {
        Ok(e) => Some(e.get_ids().to_vec()),
        Err(_) => None,
    }
}

/// The process-wide tokenizer, shared read-only by every caller.
pub struct TextTokenizer {
    pub inner: tokenizers::Tokenizer,
}

impl TextTokenizer {
    pub fn new(inner: tokenizers::Tokenizer) -> (r: TextTokenizer) {
        TextTokenizer { inner }
    }
}

impl TokenEncoder for TextTokenizer {
    fn encode_token_ids(&self, text: &String) -> Result<Vec<u32>, TokenizeError> {
        match encode_ids(&self.inner, text) {
            Some(v) => Ok(v),
            None => Err(TokenizeError::Failure),
        }
    }
}

} // verus!
