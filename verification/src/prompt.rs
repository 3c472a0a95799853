//! Prompt assembly: the fixed special-token grammar that delimits text
//! and audio sections of one input sequence to the generation engine.
//!
//! A prompt is the begin marker, the normalized words joined by the text
//! separator between text markers, the audio-start marker, and — when a
//! speaker profile conditions the call — one line per reference word
//! carrying its timing and audio codes.

use vstd::prelude::*;
use vstd::string::*;
use crate::chars::{digit_char, digit_char_exec, push_char};
use crate::errors::{NormalizeError, PromptWarning, TokenizeError, VocabError};
use crate::normalize::{normalize_spec, normalize_text};
use crate::numwords::{dec_rep, u64_to_string};
use crate::vocab::{
    audio_code_string, audio_code_token, extract_codes, TokenEncoder, VocabularyMap,
    DEFAULT_CODE_COUNT,
};

verus! {

/// A timed, codec-annotated token of reference speech.  The duration is
/// in centiseconds, matching the two-decimal precision of the time tag.
pub struct Word {
    pub word: String,
    pub duration_centis: u64,
    pub codes: Vec<u32>,
}

/// A voice-conditioning profile: reference text with its timed words.
pub struct Speaker {
    pub name: String,
    pub language: String,
    pub text: String,
    pub words: Vec<Word>,
}

/// The time tag of a duration: `<|t_S.CC|>`, seconds with exactly two
/// decimal places.
pub open spec fn time_tag(centis: nat) -> Seq<char> {
    "<|t_"@ + dec_rep(centis / 100) + "."@ + seq![
        digit_char((centis / 10) % 10),
        digit_char(centis % 10),
    ] + "|>"@
}

/// The concatenated audio-code tokens of a code list.
pub open spec fn codes_tokens(codes: Seq<u32>) -> Seq<char>
    decreases codes.len(),
{
    if codes.len() == 0 {
        Seq::empty()
    } else {
        codes_tokens(codes.drop_last()) + audio_code_token(codes.last() as nat)
    }
}

/// One audio-prompt line: word, time tag, and its codes between the code
/// markers.
pub open spec fn word_line(w: Word) -> Seq<char> {
    w.word@ + time_tag(w.duration_centis as nat) + "<|code_start|>"@ + codes_tokens(w.codes@)
        + "<|code_end|>"@
}

/// The per-word audio prompt: one line per word, newline-joined.
pub open spec fn audio_prompt(words: Seq<Word>) -> Seq<char>
    decreases words.len(),
{
    if words.len() == 0 {
        Seq::empty()
    } else if words.len() == 1 {
        word_line(words[0])
    } else {
        audio_prompt(words.drop_last()) + "\n"@ + word_line(words.last())
    }
}

/// Words joined by a separator.
pub open spec fn join_words(words: Seq<Seq<char>>, sep: Seq<char>) -> Seq<char>
    decreases words.len(),
{
    if words.len() == 0 {
        Seq::empty()
    } else if words.len() == 1 {
        words[0]
    } else {
        join_words(words.drop_last(), sep) + sep + words.last()
    }
}

/// Whether a word list contains a word.
pub open spec fn word_in(words: Seq<Seq<char>>, w: Seq<char>) -> bool {
    exists|i: int| 0 <= i < words.len() && words[i] == w
}

/// The whole completion prompt of a text and an optional speaker: the
/// normalized text words (then the speaker's normalized reference words)
/// joined by the text separator inside the fixed template, followed by
/// the speaker's per-word audio prompt when a speaker conditions the
/// call.
pub open spec fn completion_prompt(text: Seq<char>, speaker: Option<Speaker>) -> Seq<char> {
    let all_words = match speaker {
        Some(s) => normalize_spec(text) + normalize_spec(s.text@),
        None => normalize_spec(text),
    };
    let tail = match speaker {
        Some(s) => audio_prompt(s.words@),
        None => Seq::empty(),
    };
    "<|im_start|>\n<|text_start|>"@ + join_words(all_words, "<|text_sep|>"@)
        + "<|text_end|>\n<|audio_start|>\n"@ + tail
}

/// A built prompt, with the non-fatal diagnostics gathered on the way.
pub struct PromptBuild {
    pub prompt: String,
    pub warning: Option<PromptWarning>,
}

pub fn time_tag_exec(centis: u64) -> (r: String)
    ensures
        r@ == time_tag(centis as nat),
{
    let mut r: String = "<|t_".to_owned();
    let secs = u64_to_string(centis / 100);
    r.append(secs.as_str());
    r.append(".");
    push_char(&mut r, digit_char_exec(((centis / 10) % 10) as u8));
    push_char(&mut r, digit_char_exec((centis % 10) as u8));
    r.append("|>");
    assert(r@ =~= time_tag(centis as nat));
    r
}

fn codes_tokens_exec(codes: &Vec<u32>) -> (r: String)
    ensures
        r@ == codes_tokens(codes@),
{
    let mut r = String::new();
    let mut i: usize = 0;
    while i < codes.len()
        invariant
            i <= codes@.len(),
            r@ == codes_tokens(codes@.subrange(0, i as int)),
        decreases codes@.len() - i,
    {
        let t = audio_code_string(codes[i]);
        r.append(t.as_str());
        i = i + 1;
        proof {
            assert(codes@.subrange(0, i as int).drop_last() =~= codes@.subrange(0, i - 1));
            assert(codes@.subrange(0, i as int).last() == codes@[i - 1]);
        }
    }
    proof {
        assert(codes@.subrange(0, codes@.len() as int) =~= codes@);
    }
    r
}

fn word_line_exec(w: &Word) -> (r: String)
    ensures
        r@ == word_line(*w),
{
    let mut r = w.word.clone();
    let tag = time_tag_exec(w.duration_centis);
    r.append(tag.as_str());
    r.append("<|code_start|>");
    let toks = codes_tokens_exec(&w.codes);
    r.append(toks.as_str());
    r.append("<|code_end|>");
    assert(r@ =~= word_line(*w));
    r
}

fn join_words_exec(words: &Vec<String>, sep: &str) -> (r: String)
    ensures
        r@ == join_words(words.deep_view(), sep@),
{
    let mut joined = String::new();
    let mut i: usize = 0;
    while i < words.len()
        invariant
            i <= words@.len(),
            joined@ == join_words(words.deep_view().subrange(0, i as int), sep@),
        decreases words@.len() - i,
    {
        if i > 0 {
            joined.append(sep);
        }
        joined.append(words[i].as_str());
        i = i + 1;
        proof {
            assert(words.deep_view().subrange(0, i as int).drop_last() =~= words.deep_view()
                .subrange(0, i - 1));
            assert(words.deep_view().subrange(0, i as int).last() == words.deep_view()[i - 1]);
            assert(joined@ =~= join_words(words.deep_view().subrange(0, i as int), sep@));
        }
    }
    proof {
        assert(words.deep_view().subrange(0, words@.len() as int) =~= words.deep_view());
    }
    joined
}

/// The process-wide prompt processor: the token encoder, the audio-code
/// table built from it, and the configured language list.
pub struct PromptProcessor<E: TokenEncoder> {
    pub encoder: E,
    pub vocab: VocabularyMap,
    pub languages: Vec<String>,
}

impl<E: TokenEncoder> PromptProcessor<E> {
    pub open spec fn well_formed(self) -> bool {
        self.vocab.well_formed()
    }

    /// Builds the audio-code table through the encoder; fails fast on a
    /// tokenizer/model vocabulary mismatch.
    pub fn new(encoder: E, languages: Vec<String>) -> (r: Result<PromptProcessor<E>, VocabError>)
        ensures
            r matches Ok(p) ==> p.well_formed() && p.languages == languages && p.encoder == encoder
                && p.vocab.spec_codes() == DEFAULT_CODE_COUNT,
    {
        match VocabularyMap::build(&encoder, DEFAULT_CODE_COUNT) {
            Ok(vocab) => Ok(PromptProcessor { encoder, vocab, languages }),
            Err(e) => Err(e),
        }
    }

    /// The ordered word sequence of a text.  Only texts in a configured
    /// language are accepted, and only English normalization exists; any
    /// other request is an explicit error, never a silent pass-through.
    pub fn process_text(&self, text: &str, language: &str) -> (r: Result<Vec<String>, NormalizeError>)
        ensures
            !word_in(self.languages.deep_view(), language@) ==> (r matches Err(e) && e matches
                NormalizeError::LanguageNotSupported {
                language: l,
                supported: s,
            } && l@ == language@ && s.deep_view() == self.languages.deep_view()),
            word_in(self.languages.deep_view(), language@) && language@ != "en"@ ==> (r matches Err(
                e,
            ) && e matches NormalizeError::NonEnglishNotImplemented { language: l } && l@
                == language@),
            word_in(self.languages.deep_view(), language@) && language@ == "en"@ ==> (r matches Ok(
                words,
            ) && words.deep_view() == normalize_spec(text@)),
    {
        let lang: String = language.to_owned();
        let mut found = false;
        let mut i: usize = 0;
        while i < self.languages.len()
            invariant
                i <= self.languages@.len(),
                found <==> exists|k: int|
                    0 <= k < i && self.languages@[k]@ == lang@,
            decreases self.languages@.len() - i,
        {
            if self.languages[i] == lang {
                found = true;
            }
            i = i + 1;
        }
        proof {
            let dv = self.languages.deep_view();
            assert(dv.len() == self.languages@.len());
            assert(forall|k: int| 0 <= k < self.languages@.len() ==> dv[k] == self.languages@[k]@);
            if found {
                let k = choose|k: int|
                    0 <= k < self.languages@.len() && self.languages@[k]@ == lang@;
                assert(dv[k] == language@);
            } else if word_in(dv, language@) {
                let k = choose|k: int| 0 <= k < dv.len() && dv[k] == language@;
                assert(self.languages@[k]@ == lang@);
                assert(false);
            }
            assert(found <==> word_in(dv, language@));
        }
        if !found {
            let mut supported: Vec<String> = Vec::new();
            let mut k: usize = 0;
            while k < self.languages.len()
                invariant
                    k <= self.languages@.len(),
                    supported.deep_view() == self.languages.deep_view().subrange(0, k as int),
                decreases self.languages@.len() - k,
            {
                supported.push(self.languages[k].clone());
                k = k + 1;
                assert(supported.deep_view() =~= self.languages.deep_view().subrange(0, k as int));
            }
            assert(supported.deep_view() =~= self.languages.deep_view());
            return Err(NormalizeError::LanguageNotSupported { language: lang, supported });
        }
        let en: String = "en".to_owned();
        if !(lang == en) {
            return Err(NormalizeError::NonEnglishNotImplemented { language: lang });
        }
        Ok(normalize_text(text))
    }

    /// Token ids of a finished prompt, through the external tokenizer; a
    /// tokenizer failure is reported, never treated as an empty prompt.
    pub fn encode_prompt(&self, prompt: &String) -> Result<Vec<u32>, TokenizeError> {
        self.encoder.encode_token_ids(prompt)
    }

    /// The per-word audio prompt of a speaker's reference words.
    pub fn create_audio_prompt(&self, words: &Vec<Word>) -> (r: String)
        ensures
            r@ == audio_prompt(words@),
    {
        let mut r = String::new();
        let mut i: usize = 0;
        while i < words.len()
            invariant
                i <= words@.len(),
                r@ == audio_prompt(words@.subrange(0, i as int)),
            decreases words@.len() - i,
        {
            if i > 0 {
                r.append("\n");
            }
            let line = word_line_exec(&words[i]);
            r.append(line.as_str());
            i = i + 1;
            proof {
                assert(words@.subrange(0, i as int).drop_last() =~= words@.subrange(0, i - 1));
                assert(words@.subrange(0, i as int).last() == words@[i - 1]);
                assert(r@ =~= audio_prompt(words@.subrange(0, i as int)));
            }
        }
        proof {
            assert(words@.subrange(0, words@.len() as int) =~= words@);
        }
        r
    }

    /// The full completion prompt of a text and an optional speaker.  A
    /// speaker whose profile language differs from the text language is
    /// still used, with a non-fatal warning in the result.
    pub fn get_completion_prompt(&self, text: &str, language: &str, speaker: Option<&Speaker>) -> (r:
        Result<PromptBuild, NormalizeError>)
        ensures
            r matches Ok(pb) ==> {
                &&& pb.prompt@ == completion_prompt(
                    text@,
                    match speaker {
                        Some(s) => Some(*s),
                        None => None,
                    },
                )
                &&& (match speaker {
                    Some(s) => (pb.warning matches Some(w) <==> s.language@ != language@) && (
                    pb.warning matches Some(w) ==> (w matches
                        PromptWarning::SpeakerLanguageMismatch {
                        speaker_language: sl,
                        text_language: tl,
                    } && sl@ == s.language@ && tl@ == language@)),
                    None => pb.warning is None,
                })
            },
            word_in(self.languages.deep_view(), language@) && language@ == "en"@ && (match speaker {
                Some(s) => word_in(self.languages.deep_view(), s.language@) && s.language@ == "en"@,
                None => true,
            }) ==> r is Ok,
            r is Err <==> !(word_in(self.languages.deep_view(), language@) && language@ == "en"@
                && (match speaker {
                Some(s) => word_in(self.languages.deep_view(), s.language@) && s.language@ == "en"@,
                None => true,
            })),
    {
        let mut words = match self.process_text(text, language) {
            Ok(w) => w,
            Err(e) => {
                return Err(e);
            },
        };
        let mut warning: Option<PromptWarning> = None;
        match speaker {
            Some(spk) => {
                let lang: String = language.to_owned();
                if !(spk.language == lang) {
                    warning = Some(
                        PromptWarning::SpeakerLanguageMismatch {
                            speaker_language: spk.language.clone(),
                            text_language: lang,
                        },
                    );
                }
                let mut speaker_words = match self.process_text(
                    spk.text.as_str(),
                    spk.language.as_str(),
                ) {
                    Ok(w) => w,
                    Err(e) => {
                        return Err(e);
                    },
                };
                words.append(&mut speaker_words);
                assert(words.deep_view() =~= normalize_spec(text@) + normalize_spec(spk.text@));
            },
            None => {},
        }
        let joined = join_words_exec(&words, "<|text_sep|>");
        let mut prompt: String = "<|im_start|>\n<|text_start|>".to_owned();
        prompt.append(joined.as_str());
        prompt.append("<|text_end|>\n<|audio_start|>\n");
        match speaker {
            Some(spk) => {
                let tail = self.create_audio_prompt(&spk.words);
                prompt.append(tail.as_str());
                assert(prompt@ =~= completion_prompt(text@, Some(*spk)));
            },
            None => {
                assert(prompt@ =~= completion_prompt(text@, None::<Speaker>));
            },
        }
        Ok(PromptBuild { prompt, warning })
    }

    /// The ordered audio codes of a raw generated id sequence.
    pub fn extract_audio_from_tokens(&self, tokens: &Vec<u32>) -> (r: Vec<u32>)
        ensures
            r@ == extract_codes(self.vocab, tokens@),
    {
        self.vocab.extract(tokens)
    }
}

} // verus!
