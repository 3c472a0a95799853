//! Text normalization: raw text to an ordered word sequence.
//!
//! The pipeline lower-cases the text, replaces every maximal digit run
//! (optionally with a decimal point) by its spelled-out English expansion,
//! turns separator punctuation into spaces, strips everything that is
//! neither a lowercase letter nor whitespace, and splits on whitespace,
//! discarding empty fragments.  English only.

use vstd::prelude::*;
use crate::chars::{
    chars_to_string, is_digit, is_digit_exec, is_lower_letter, is_lower_letter_exec, is_space,
    is_space_exec, lower_char, lower_char_exec, str_to_chars,
};
use crate::numwords::{number_words, number_words_exec};
use crate::prompt::join_words;

verus! {

/// Separator punctuation that becomes a space: hyphen, underscore, slash,
/// comma, period, backslash.
pub open spec fn is_separator(c: char) -> bool {
    c == '-' || c == '_' || c == '/' || c == ',' || c == '.' || c == '\\'
}

pub fn is_separator_exec(c: char) -> (r: bool)
    ensures
        r == is_separator(c),
{
    c == '-' || c == '_' || c == '/' || c == ',' || c == '.' || c == '\\'
}

/// Everything lower-cased.
pub open spec fn lower_all(s: Seq<char>) -> Seq<char> {
    s.map_values(|c: char| lower_char(c))
}

/// The end of the digit run starting at `i`: the first position at or
/// after `i` that is past the end or holds a non-digit.
pub open spec fn run_end(s: Seq<char>, i: int) -> int
    decreases s.len() - i,
{
    if 0 <= i < s.len() && is_digit(s[i]) {
        run_end(s, i + 1)
    } else {
        i
    }
}

pub proof fn lemma_run_end(s: Seq<char>, i: int)
    requires
        0 <= i <= s.len(),
    ensures
        i <= run_end(s, i) <= s.len(),
        forall|k: int| i <= k < run_end(s, i) ==> is_digit(s[k]),
        run_end(s, i) < s.len() ==> !is_digit(s[run_end(s, i)]),
        i < s.len() && is_digit(s[i]) ==> run_end(s, i) > i,
    decreases s.len() - i,
{
    if 0 <= i < s.len() && is_digit(s[i]) {
        lemma_run_end(s, i + 1);
    }
}

/// The text with every maximal digit run (optionally `.` and a second run)
/// replaced by its spelled-out words, from position `i` on.
pub open spec fn expand_from(s: Seq<char>, i: int) -> Seq<char>
    decreases s.len() - i,
        when 0 <= i <= s.len()
        via expand_from_decreases
{
    if i >= s.len() {
        Seq::empty()
    } else if is_digit(s[i]) {
        let ie = run_end(s, i);
        if ie < s.len() && s[ie] == '.' && ie + 1 < s.len() && is_digit(s[ie + 1]) {
            let fe = run_end(s, ie + 1);
            number_words(s.subrange(i, ie), s.subrange(ie + 1, fe)) + expand_from(s, fe)
        } else {
            number_words(s.subrange(i, ie), Seq::empty()) + expand_from(s, ie)
        }
    } else {
        seq![s[i]] + expand_from(s, i + 1)
    }
}

#[via_fn]
proof fn expand_from_decreases(s: Seq<char>, i: int) {
    if 0 <= i < s.len() && is_digit(s[i]) {
        lemma_run_end(s, i);
        let ie = run_end(s, i);
        if ie < s.len() && s[ie] == '.' && ie + 1 < s.len() && is_digit(s[ie + 1]) {
            lemma_run_end(s, ie + 1);
        }
    }
}

/// Only lowercase letters and whitespace kept, in order.
pub open spec fn strip_other(s: Seq<char>) -> Seq<char>
    decreases s.len(),
{
    if s.len() == 0 {
        Seq::empty()
    } else if is_lower_letter(s.last()) || is_space(s.last()) {
        strip_other(s.drop_last()).push(s.last())
    } else {
        strip_other(s.drop_last())
    }
}

/// Separator punctuation replaced by spaces.
pub open spec fn seps_to_space(s: Seq<char>) -> Seq<char> {
    s.map_values(|c: char| if is_separator(c) { ' ' } else { c })
}

/// Splitting on whitespace from position `i`, with `cur` the word read so
/// far; empty fragments are discarded.
pub open spec fn split_from(s: Seq<char>, i: int, cur: Seq<char>) -> Seq<Seq<char>>
    decreases s.len() - i,
{
    if i < 0 || i >= s.len() {
        if cur.len() > 0 {
            seq![cur]
        } else {
            Seq::empty()
        }
    } else if is_space(s[i]) {
        if cur.len() > 0 {
            seq![cur] + split_from(s, i + 1, Seq::empty())
        } else {
            split_from(s, i + 1, Seq::empty())
        }
    } else {
        split_from(s, i + 1, cur.push(s[i]))
    }
}

pub open spec fn split_ws(s: Seq<char>) -> Seq<Seq<char>> {
    split_from(s, 0, Seq::empty())
}

/// The whole normalization: the ordered word sequence of a raw text.
pub open spec fn normalize_spec(text: Seq<char>) -> Seq<Seq<char>> {
    split_ws(strip_other(seps_to_space(expand_from(lower_all(text), 0))))
}

fn lower_vec(v: &Vec<char>) -> (r: Vec<char>)
    ensures
        r@ == lower_all(v@),
{
    let mut r: Vec<char> = Vec::new();
    let mut i: usize = 0;
    while i < v.len()
        invariant
            i <= v@.len(),
            r@.len() == i,
            forall|k: int| 0 <= k < i ==> r@[k] == lower_char(v@[k]),
        decreases v@.len() - i,
    {
        r.push(lower_char_exec(v[i]));
        i = i + 1;
    }
    assert(r@ =~= lower_all(v@));
    r
}

/// The end of the digit run starting at `i`.
fn run_end_exec(v: &Vec<char>, i: usize) -> (j: usize)
    requires
        i <= v@.len(),
    ensures
        j == run_end(v@, i as int),
        i <= j <= v@.len(),
{
    let mut j: usize = i;
    while j < v.len() && is_digit_exec(v[j])
        invariant
            i <= j <= v@.len(),
            run_end(v@, i as int) == run_end(v@, j as int),
        decreases v@.len() - j,
    {
        j = j + 1;
    }
    j
}

#[verifier::rlimit(100)]
#[verifier::spinoff_prover]
fn expand_numbers(v: &Vec<char>) -> (r: Vec<char>)
    ensures
        r@ == expand_from(v@, 0),
{
    let mut r: Vec<char> = Vec::new();
    let mut i: usize = 0;
    while i < v.len()
        invariant
            i <= v@.len(),
            expand_from(v@, 0) == r@ + expand_from(v@, i as int),
        decreases v@.len() - i,
    {
        if is_digit_exec(v[i]) {
            let ie = run_end_exec(v, i);
            proof {
                lemma_run_end(v@, i as int);
            }
            let mut fe = ie;
            let mut has_frac = false;
            if ie < v.len() && v[ie] == '.' && ie + 1 < v.len() && is_digit_exec(v[ie + 1]) {
                has_frac = true;
                fe = run_end_exec(v, ie + 1);
                proof {
                    lemma_run_end(v@, ie + 1);
                }
            }
            let words = if has_frac {
                number_words_exec(v, i, ie, ie + 1, fe)
            } else {
                number_words_exec(v, i, ie, 0, 0)
            };
            proof {
                if !has_frac {
                    assert(v@.subrange(0, 0) =~= Seq::<char>::empty());
                }
            }
            let wchars = str_to_chars(words.as_str());
            let ghost r0 = r@;
            let mut k: usize = 0;
            while k < wchars.len()
                invariant
                    k <= wchars@.len(),
                    r@ == r0 + wchars@.subrange(0, k as int),
                decreases wchars@.len() - k,
            {
                r.push(wchars[k]);
                k = k + 1;
                assert(wchars@.subrange(0, k as int) =~= wchars@.subrange(0, k - 1).push(
                    wchars@[k - 1],
                ));
            }
            proof {
                assert(wchars@.subrange(0, wchars@.len() as int) =~= wchars@);
                assert(r@ == r0 + wchars@);
            }
            let next = if has_frac {
                fe
            } else {
                ie
            };
            proof {
                assert(expand_from(v@, i as int) == wchars@ + expand_from(v@, next as int));
                assert(expand_from(v@, 0) == r@ + expand_from(v@, next as int)) by {
                    assert(expand_from(v@, 0) =~= r@ + expand_from(v@, next as int));
                }
            }
            i = next;
        } else {
            r.push(v[i]);
            proof {
                assert(expand_from(v@, i as int) == seq![v@[i as int]] + expand_from(v@, i + 1));
                assert(expand_from(v@, 0) =~= r@ + expand_from(v@, i + 1));
            }
            i = i + 1;
        }
    }
    proof {
        assert(expand_from(v@, v@.len() as int) =~= Seq::<char>::empty());
        assert(r@ =~= expand_from(v@, 0));
    }
    r
}

fn seps_to_space_vec(v: &Vec<char>) -> (r: Vec<char>)
    ensures
        r@ == seps_to_space(v@),
{
    let mut r: Vec<char> = Vec::new();
    let mut i: usize = 0;
    while i < v.len()
        invariant
            i <= v@.len(),
            r@.len() == i,
            forall|k: int|
                0 <= k < i ==> r@[k] == (if is_separator(v@[k]) {
                    ' '
                } else {
                    v@[k]
                }),
        decreases v@.len() - i,
    {
        if is_separator_exec(v[i]) {
            r.push(' ');
        } else {
            r.push(v[i]);
        }
        i = i + 1;
    }
    assert(r@ =~= seps_to_space(v@));
    r
}

fn strip_other_vec(v: &Vec<char>) -> (r: Vec<char>)
    ensures
        r@ == strip_other(v@),
{
    let mut r: Vec<char> = Vec::new();
    let mut i: usize = 0;
    while i < v.len()
        invariant
            i <= v@.len(),
            r@ == strip_other(v@.subrange(0, i as int)),
        decreases v@.len() - i,
    {
        let c = v[i];
        proof {
            assert(v@.subrange(0, i + 1).drop_last() =~= v@.subrange(0, i as int));
            assert(v@.subrange(0, i + 1).last() == v@[i as int]);
        }
        if is_lower_letter_exec(c) || is_space_exec(c) {
            r.push(c);
        }
        i = i + 1;
    }
    proof {
        assert(v@.subrange(0, v@.len() as int) =~= v@);
    }
    r
}

fn split_ws_vec(v: &Vec<char>) -> (words: Vec<String>)
    ensures
        words.deep_view() == split_ws(v@),
{
    let mut words: Vec<String> = Vec::new();
    let mut cur: Vec<char> = Vec::new();
    let mut i: usize = 0;
    while i < v.len()
        invariant
            i <= v@.len(),
            split_ws(v@) == words.deep_view() + split_from(v@, i as int, cur@),
        decreases v@.len() - i,
    {
        let c = v[i];
        if is_space_exec(c) {
            if cur.len() > 0 {
                let ghost dv0 = words.deep_view();
                let ghost cur0 = cur@;
                let w = chars_to_string(&cur);
                words.push(w);
                cur = Vec::new();
                proof {
                    assert(words.deep_view() =~= dv0 + seq![cur0]);
                    assert(cur@ =~= Seq::<char>::empty());
                    assert(split_from(v@, i as int, cur0) == seq![cur0] + split_from(
                        v@,
                        i + 1,
                        Seq::<char>::empty(),
                    ));
                    assert(words.deep_view() + split_from(v@, i + 1, cur@) =~= dv0 + split_from(
                        v@,
                        i as int,
                        cur0,
                    ));
                }
            } else {
                proof {
                    assert(cur@ =~= Seq::<char>::empty());
                }
            }
        } else {
            cur.push(c);
        }
        i = i + 1;
    }
    if cur.len() > 0 {
        let ghost dv0 = words.deep_view();
        let ghost cur0 = cur@;
        let w = chars_to_string(&cur);
        words.push(w);
        proof {
            assert(words.deep_view() =~= dv0 + seq![cur0]);
            assert(split_ws(v@) =~= words.deep_view());
        }
    } else {
        proof {
            assert(cur@ =~= Seq::<char>::empty());
            assert(split_ws(v@) =~= words.deep_view());
        }
    }
    words
}

/// A character that normalization passes through unchanged: a lowercase
/// letter or whitespace.
pub open spec fn is_clean_char(c: char) -> bool {
    is_lower_letter(c) || is_space(c)
}

/// A text of clean characters only: already lowercase, digit-free and
/// punctuation-free.
pub open spec fn is_clean_text(s: Seq<char>) -> bool {
    forall|k: int| 0 <= k < s.len() ==> is_clean_char(#[trigger] s[k])
}

/// A word as normalization emits it: nonempty, lowercase letters only.
pub open spec fn is_clean_word(w: Seq<char>) -> bool {
    w.len() > 0 && forall|k: int| 0 <= k < w.len() ==> is_lower_letter(#[trigger] w[k])
}

pub open spec fn all_clean_words(ws: Seq<Seq<char>>) -> bool {
    forall|k: int| 0 <= k < ws.len() ==> is_clean_word(#[trigger] ws[k])
}

proof fn lemma_clean_not_digit_sep(c: char)
    requires
        is_clean_char(c),
    ensures
        !is_digit(c),
        !is_separator(c),
        lower_char(c) == c,
        is_lower_letter(c) ==> !is_space(c),
{
}

/// On a clean text every stage before splitting is the identity.
proof fn lemma_expand_clean(s: Seq<char>, i: int)
    requires
        is_clean_text(s),
        0 <= i <= s.len(),
    ensures
        expand_from(s, i) == s.skip(i),
    decreases s.len() - i,
{
    if i >= s.len() {
        assert(s.skip(i) =~= Seq::<char>::empty());
    } else {
        lemma_clean_not_digit_sep(s[i]);
        lemma_expand_clean(s, i + 1);
        assert(s.skip(i) =~= seq![s[i]] + s.skip(i + 1));
    }
}

proof fn lemma_strip_clean(s: Seq<char>)
    requires
        is_clean_text(s),
    ensures
        strip_other(s) == s,
    decreases s.len(),
{
    if s.len() > 0 {
        assert(is_clean_text(s.drop_last())) by {
            assert(forall|k: int| 0 <= k < s.len() - 1 ==> s.drop_last()[k] == s[k]);
        }
        lemma_strip_clean(s.drop_last());
        assert(strip_other(s) =~= s);
    }
}

/// The pipeline before splitting leaves a clean text unchanged.
proof fn lemma_stages_clean(s: Seq<char>)
    requires
        is_clean_text(s),
    ensures
        strip_other(seps_to_space(expand_from(lower_all(s), 0))) == s,
{
    assert(lower_all(s) =~= s) by {
        assert(forall|k: int|
            0 <= k < s.len() ==> lower_all(s)[k] == lower_char(#[trigger] s[k]));
        assert(forall|k: int| 0 <= k < s.len() ==> lower_char(#[trigger] s[k]) == s[k]);
    }
    lemma_expand_clean(s, 0);
    assert(s.skip(0) =~= s);
    assert(seps_to_space(s) =~= s) by {
        assert(forall|k: int| 0 <= k < s.len() ==> !is_separator(#[trigger] s[k]));
    }
    lemma_strip_clean(s);
}

/// Splitting looks only at the suffix from the scan position on.
proof fn lemma_split_from_skip(s: Seq<char>, i: int, cur: Seq<char>)
    requires
        0 <= i <= s.len(),
    ensures
        split_from(s, i, cur) == split_from(s.skip(i), 0, cur),
    decreases s.len() - i,
{
    if i >= s.len() {
        assert(s.skip(i) =~= Seq::<char>::empty());
    } else {
        assert(s.skip(i)[0] == s[i]);
        assert(s.skip(i).skip(1) =~= s.skip(i + 1));
        lemma_split_from_skip(s, i + 1, Seq::empty());
        lemma_split_from_skip(s, i + 1, cur.push(s[i]));
        lemma_split_from_skip(s.skip(i), 1, Seq::empty());
        lemma_split_from_skip(s.skip(i), 1, cur.push(s[i]));
    }
}

/// Scanning a whole word accumulates it onto `cur`.
proof fn lemma_split_consume_word(w: Seq<char>, t: Seq<char>, cur: Seq<char>)
    requires
        is_clean_word(w),
    ensures
        split_from(w + t, 0, cur) == split_from(t, 0, cur + w),
    decreases w.len(),
{
    let s = w + t;
    assert(s[0] == w[0]);
    lemma_clean_not_digit_sep(w[0]);
    assert(!is_space(s[0]));
    lemma_split_from_skip(s, 1, cur.push(s[0]));
    assert(s.skip(1) =~= w.skip(1) + t);
    if w.len() == 1 {
        assert(w.skip(1) + t =~= t);
        assert(cur.push(w[0]) =~= cur + w);
    } else {
        assert(is_clean_word(w.skip(1))) by {
            assert(forall|k: int| 0 <= k < w.len() - 1 ==> w.skip(1)[k] == w[k + 1]);
        }
        lemma_split_consume_word(w.skip(1), t, cur.push(w[0]));
        assert(cur.push(w[0]) + w.skip(1) =~= cur + w);
    }
}

/// Joining distributes from the front.
proof fn lemma_join_front(ws: Seq<Seq<char>>, sep: Seq<char>)
    requires
        ws.len() >= 2,
    ensures
        join_words(ws, sep) == ws[0] + sep + join_words(ws.skip(1), sep),
    decreases ws.len(),
{
    if ws.len() == 2 {
        assert(ws.drop_last() =~= seq![ws[0]]);
        assert(ws.skip(1) =~= seq![ws[1]]);
        assert(join_words(seq![ws[0]], sep) == ws[0]);
        assert(join_words(seq![ws[1]], sep) == ws[1]);
        assert(join_words(ws, sep) == join_words(ws.drop_last(), sep) + sep + ws.last());
        assert(join_words(ws, sep) =~= ws[0] + sep + join_words(ws.skip(1), sep));
    } else {
        lemma_join_front(ws.drop_last(), sep);
        assert(ws.drop_last()[0] == ws[0]);
        assert(ws.drop_last().skip(1) =~= ws.skip(1).drop_last());
        assert(ws.skip(1).last() == ws.last());
        assert(ws.skip(1).len() >= 2);
        assert(join_words(ws.skip(1), sep) == join_words(ws.skip(1).drop_last(), sep) + sep
            + ws.skip(1).last());
        assert(join_words(ws, sep) =~= ws[0] + sep + join_words(ws.skip(1), sep));
    }
}

/// Splitting the space-joined clean words gives the words back.
proof fn lemma_split_join(ws: Seq<Seq<char>>)
    requires
        all_clean_words(ws),
    ensures
        split_ws(join_words(ws, " "@)) == ws,
    decreases ws.len(),
{
    reveal_strlit(" ");
    if ws.len() == 0 {
        assert(split_ws(join_words(ws, " "@)) =~= ws);
    } else if ws.len() == 1 {
        let w = ws[0];
        assert(join_words(ws, " "@) == w);
        assert(w + Seq::<char>::empty() =~= w);
        lemma_split_consume_word(w, Seq::empty(), Seq::empty());
        assert(Seq::<char>::empty() + w =~= w);
        assert(split_from(Seq::<char>::empty(), 0, w) =~= seq![w]);
        assert(split_ws(join_words(ws, " "@)) =~= ws);
    } else {
        lemma_join_front(ws, " "@);
        let w = ws[0];
        let rest = " "@ + join_words(ws.skip(1), " "@);
        assert(join_words(ws, " "@) =~= w + rest);
        lemma_split_consume_word(w, rest, Seq::empty());
        assert(Seq::<char>::empty() + w =~= w);
        assert(rest[0] == ' ');
        assert(is_space(rest[0]));
        lemma_split_from_skip(rest, 1, Seq::empty());
        assert(rest.skip(1) =~= join_words(ws.skip(1), " "@));
        assert(all_clean_words(ws.skip(1))) by {
            assert(forall|k: int| 0 <= k < ws.len() - 1 ==> ws.skip(1)[k] == ws[k + 1]);
        }
        lemma_split_join(ws.skip(1));
        assert(split_ws(join_words(ws, " "@)) =~= seq![w] + ws.skip(1));
        assert(seq![w] + ws.skip(1) =~= ws);
    }
}

/// Every word that splitting a clean text emits is clean.
proof fn lemma_split_words_clean(s: Seq<char>, i: int, cur: Seq<char>)
    requires
        is_clean_text(s),
        0 <= i <= s.len(),
        forall|k: int| 0 <= k < cur.len() ==> is_lower_letter(#[trigger] cur[k]),
    ensures
        all_clean_words(split_from(s, i, cur)),
    decreases s.len() - i,
{
    if i >= s.len() {
    } else if is_space(s[i]) {
        lemma_split_words_clean(s, i + 1, Seq::empty());
    } else {
        assert(is_lower_letter(s[i]));
        lemma_split_words_clean(s, i + 1, cur.push(s[i]));
    }
}

/// The characters of space-joined clean words are clean.
proof fn lemma_join_clean(ws: Seq<Seq<char>>)
    requires
        all_clean_words(ws),
    ensures
        is_clean_text(join_words(ws, " "@)),
    decreases ws.len(),
{
    reveal_strlit(" ");
    if ws.len() == 0 {
    } else if ws.len() == 1 {
        assert(is_clean_text(ws[0]));
    } else {
        assert(all_clean_words(ws.drop_last())) by {
            assert(forall|k: int| 0 <= k < ws.len() - 1 ==> ws.drop_last()[k] == ws[k]);
        }
        lemma_join_clean(ws.drop_last());
        let a = join_words(ws.drop_last(), " "@);
        let j = a + " "@ + ws.last();
        assert(is_clean_text(j)) by {
            assert(forall|k: int| 0 <= k < a.len() ==> j[k] == a[k]);
            assert(j[a.len() as int] == ' ');
            assert(forall|k: int|
                a.len() + 1 <= k < j.len() ==> j[k] == ws.last()[k - a.len() - 1]);
        }
    }
}

/// Fixed point: normalizing a text that is already in normalized shape —
/// lowercase, digit-free, punctuation-free — only splits it, and
/// normalizing its space-joined word sequence gives that same sequence.
pub proof fn lemma_normalize_fixed_point(s: Seq<char>)
    requires
        is_clean_text(s),
    ensures
        normalize_spec(s) == split_ws(s),
        normalize_spec(join_words(normalize_spec(s), " "@)) == normalize_spec(s),
{
    lemma_stages_clean(s);
    assert(normalize_spec(s) == split_ws(s));
    lemma_split_words_clean(s, 0, Seq::empty());
    let ws = normalize_spec(s);
    lemma_join_clean(ws);
    lemma_stages_clean(join_words(ws, " "@));
    lemma_split_join(ws);
}

/// The ordered word sequence of a raw English text.
pub fn normalize_text(text: &str) -> (words: Vec<String>)
    ensures
        words.deep_view() == normalize_spec(text@),
{
    let cs = str_to_chars(text);
    let lowered = lower_vec(&cs);
    let expanded = expand_numbers(&lowered);
    let spaced = seps_to_space_vec(&expanded);
    let stripped = strip_other_vec(&spaced);
    split_ws_vec(&stripped)
}

} // verus!
