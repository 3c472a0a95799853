//! The bidirectional table between tokenizer-vocabulary ids and the
//! compact audio-code space `[0, n)`.
//!
//! Built once from the tokenizer: code `i` is paired with the single token
//! id of the canonical audio-code string `<|i|>`.  Construction fails fast
//! when a code string does not tokenize to exactly one id, or when two
//! codes collide on one token id — either signals a tokenizer/model
//! vocabulary mismatch.

use std::collections::HashMap;
use vstd::prelude::*;
use vstd::seq_lib::*;
use vstd::string::*;
use crate::chars::push_char;
use crate::errors::{TokenizeError, VocabError};
use crate::numwords::{dec_rep, u64_to_string};

verus! {

/// Number of audio codes in the current integration.
pub const DEFAULT_CODE_COUNT: u32 = 4100;

/// What hands back token ids for a text; the real implementation wraps the
/// external tokenizer, tests may substitute a deterministic stub.  A
/// tokenizer failure is reported, never passed off as an empty id list.
pub trait TokenEncoder {
    fn encode_token_ids(&self, text: &String) -> Result<Vec<u32>, TokenizeError>;
}

/// The canonical audio-code token string of code `i`: `<|i|>`.
pub open spec fn audio_code_token(i: nat) -> Seq<char> {
    "<|"@ + dec_rep(i) + "|>"@
}

pub fn audio_code_string(i: u32) -> (r: String)
    ensures
        r@ == audio_code_token(i as nat),
{
    let mut r: String = "<|".to_owned();
    let digits = u64_to_string(i as u64);
    r.append(digits.as_str());
    r.append("|>");
    assert(r@ =~= audio_code_token(i as nat));
    r
}

/// Bijection between code ids `[0, token_of.len())` and token ids.
pub struct VocabularyMap {
    pub token_of: Vec<u32>,
    pub code_of: HashMap<u32, u32>,
}

impl VocabularyMap {
    /// The two directions agree: `token_of` pairs code `i` with a token,
    /// and `code_of` maps exactly those tokens back to their codes.
    pub open spec fn well_formed(self) -> bool {
        &&& self.token_of@.len() <= u32::MAX
        &&& forall|i: int|
            0 <= i < self.token_of@.len() ==> self.code_of@.contains_key(#[trigger] self.token_of@[i])
                && self.code_of@[self.token_of@[i]] == i as u32
        &&& forall|t: u32|
            self.code_of@.contains_key(t) ==> (#[trigger] self.code_of@[t]) < self.token_of@.len()
                && self.token_of@[self.code_of@[t] as int] == t
    }

    pub open spec fn spec_codes(self) -> nat {
        self.token_of@.len()
    }

    pub open spec fn spec_token_for(self, code: int) -> u32 {
        self.token_of@[code]
    }

    /// The audio code of a token id, if the token is one of the paired ones.
    pub open spec fn spec_decode(self, token: u32) -> Option<u32> {
        if self.code_of@.contains_key(token) {
            Some(self.code_of@[token])
        } else {
            None
        }
    }

    /// How many audio codes the table holds.
    pub fn num_codes(&self) -> (n: usize)
        ensures
            n == self.spec_codes(),
    {
        self.token_of.len()
    }

    /// The token id paired with a code.
    pub fn token_for(&self, code: usize) -> (t: u32)
        requires
            code < self.spec_codes(),
        ensures
            t == self.spec_token_for(code as int),
    {
        self.token_of[code]
    }

    /// The audio code of a token id, `None` for text or structural tokens.
    pub fn decode(&self, token: u32) -> (r: Option<u32>)
        ensures
            r == self.spec_decode(token),
    {
        match self.code_of.get(&token) {
            Some(c) => Some(*c),
            None => None,
        }
    }

    /// Builds the table for codes `[0, n_codes)` by tokenizing each
    /// canonical audio-code string through `enc`.
    pub fn build<E: TokenEncoder>(enc: &E, n_codes: u32) -> (r: Result<VocabularyMap, VocabError>)
        ensures
            r matches Ok(v) ==> v.well_formed() && v.spec_codes() == n_codes,
    {
        let mut token_of: Vec<u32> = Vec::new();
        let mut code_of: HashMap<u32, u32> = HashMap::new();
        let mut i: u32 = 0;
        while i < n_codes
            invariant
                i <= n_codes,
                token_of@.len() == i,
                forall|k: int|
                    0 <= k < i ==> code_of@.contains_key(#[trigger] token_of@[k])
                        && code_of@[token_of@[k]] == k as u32,
                forall|t: u32|
                    code_of@.contains_key(t) ==> (#[trigger] code_of@[t]) < i
                        && token_of@[code_of@[t] as int] == t,
            decreases n_codes - i,
        {
            let s = audio_code_string(i);
            let ids = match enc.encode_token_ids(&s) {
                Ok(ids) => ids,
                Err(_) => {
                    return Err(VocabError::TokenizeFailed { code: i });
                },
            };
            if ids.len() != 1 {
                return Err(VocabError::NotSingleToken { code: i, id_count: ids.len() });
            }
            let t = ids[0];
            if code_of.contains_key(&t) {
                return Err(VocabError::DuplicateToken { code: i, token: t });
            }
            code_of.insert(t, i);
            token_of.push(t);
            i = i + 1;
        }
        Ok(VocabularyMap { token_of, code_of })
    }

    /// The ordered audio codes of a raw generated id sequence: every token
    /// with no pairing is dropped, the rest map to their codes in order.
    pub fn extract(&self, tokens: &Vec<u32>) -> (r: Vec<u32>)
        ensures
            r@ == extract_codes(*self, tokens@),
    {
        let mut r: Vec<u32> = Vec::new();
        let mut i: usize = 0;
        while i < tokens.len()
            invariant
                i <= tokens@.len(),
                r@ == extract_codes(*self, tokens@.subrange(0, i as int)),
            decreases tokens@.len() - i,
        {
            proof {
                assert(tokens@.subrange(0, i + 1).drop_last() =~= tokens@.subrange(0, i as int));
            }
            match self.decode(tokens[i]) {
                Some(c) => {
                    r.push(c);
                },
                None => {},
            }
            i = i + 1;
        }
        proof {
            assert(tokens@.subrange(0, tokens@.len() as int) =~= tokens@);
        }
        r
    }
}

/// The input sequence restricted, in order, to the tokens that have an
/// audio code, each replaced by that code.
pub open spec fn extract_codes(m: VocabularyMap, tokens: Seq<u32>) -> Seq<u32>
    decreases tokens.len(),
{
    if tokens.len() == 0 {
        Seq::empty()
    } else {
        let rest = extract_codes(m, tokens.drop_last());
        match m.spec_decode(tokens.last()) {
            Some(c) => rest.push(c),
            None => rest,
        }
    }
}

/// Round trip: decoding the token paired with any code gives that code back.
pub proof fn lemma_decode_round_trip(m: VocabularyMap, code: int)
    requires
        m.well_formed(),
        0 <= code < m.spec_codes(),
    ensures
        m.spec_decode(m.spec_token_for(code)) == Some(code as u32),
{
}

/// Extraction is the order-preserving filter of the input to its mapped
/// ids: it equals the subsequence of tokens that decode, mapped to codes.
pub proof fn lemma_extract_is_filtered_subsequence(m: VocabularyMap, tokens: Seq<u32>)
    ensures
        extract_codes(m, tokens) == tokens.filter(|t: u32| m.spec_decode(t) is Some).map_values(
            |t: u32| m.spec_decode(t)->Some_0,
        ),
    decreases tokens.len(),
{
    reveal(Seq::filter);
    let pred = |t: u32| m.spec_decode(t) is Some;
    let f = |t: u32| m.spec_decode(t)->Some_0;
    if tokens.len() == 0 {
        assert(tokens.filter(pred).map_values(f) =~= Seq::<u32>::empty());
    } else {
        lemma_extract_is_filtered_subsequence(m, tokens.drop_last());
        let sub = tokens.drop_last();
        assert(sub.filter(pred).map_values(f) == extract_codes(m, sub));
        if pred(tokens.last()) {
            assert(tokens.filter(pred) == sub.filter(pred).push(tokens.last()));
            assert(tokens.filter(pred).map_values(f) =~= sub.filter(pred).map_values(f).push(
                f(tokens.last()),
            ));
        } else {
            assert(tokens.filter(pred) == sub.filter(pred));
        }
    }
}

} // verus!
