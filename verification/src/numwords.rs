//! Spelling out decimal numbers as English words, short scale
//! (thousand, million, billion, ...).
//!
//! Digit runs of up to 36 digits are grouped and named through the scale
//! table; longer runs fall back to reading the digits one by one.  A
//! fractional part is read as "point" followed by its digits one by one.

use vstd::prelude::*;
use vstd::string::*;
use crate::chars::{digit_char, digit_char_exec, digit_val, digit_val_exec, is_digit, push_char};

verus! {

/// Number of three-digit groups the scale table covers.
pub const MAX_GROUPS: u32 = 12;

pub open spec fn pow10(n: nat) -> nat
    decreases n,
{
    if n == 0 {
        1
    } else {
        10 * pow10((n - 1) as nat)
    }
}

pub open spec fn pow1000(n: nat) -> nat
    decreases n,
{
    if n == 0 {
        1
    } else {
        1000 * pow1000((n - 1) as nat)
    }
}

pub open spec fn ones_word(d: nat) -> Seq<char> {
    if d == 0 {
        "zero"@
    } else if d == 1 {
        "one"@
    } else if d == 2 {
        "two"@
    } else if d == 3 {
        "three"@
    } else if d == 4 {
        "four"@
    } else if d == 5 {
        "five"@
    } else if d == 6 {
        "six"@
    } else if d == 7 {
        "seven"@
    } else if d == 8 {
        "eight"@
    } else if d == 9 {
        "nine"@
    } else if d == 10 {
        "ten"@
    } else if d == 11 {
        "eleven"@
    } else if d == 12 {
        "twelve"@
    } else if d == 13 {
        "thirteen"@
    } else if d == 14 {
        "fourteen"@
    } else if d == 15 {
        "fifteen"@
    } else if d == 16 {
        "sixteen"@
    } else if d == 17 {
        "seventeen"@
    } else if d == 18 {
        "eighteen"@
    } else {
        "nineteen"@
    }
}

pub open spec fn tens_word(t: nat) -> Seq<char> {
    if t == 2 {
        "twenty"@
    } else if t == 3 {
        "thirty"@
    } else if t == 4 {
        "forty"@
    } else if t == 5 {
        "fifty"@
    } else if t == 6 {
        "sixty"@
    } else if t == 7 {
        "seventy"@
    } else if t == 8 {
        "eighty"@
    } else {
        "ninety"@
    }
}

/// Scale name of three-digit group number `level` (level 1 is thousand).
pub open spec fn scale_word(level: nat) -> Seq<char> {
    if level == 1 {
        "thousand"@
    } else if level == 2 {
        "million"@
    } else if level == 3 {
        "billion"@
    } else if level == 4 {
        "trillion"@
    } else if level == 5 {
        "quadrillion"@
    } else if level == 6 {
        "quintillion"@
    } else if level == 7 {
        "sextillion"@
    } else if level == 8 {
        "septillion"@
    } else if level == 9 {
        "octillion"@
    } else if level == 10 {
        "nonillion"@
    } else {
        "decillion"@
    }
}

/// Words for a value below one hundred.
pub open spec fn two_digit_words(n: nat) -> Seq<char> {
    if n < 20 {
        ones_word(n)
    } else if n % 10 == 0 {
        tens_word(n / 10)
    } else {
        tens_word(n / 10) + " "@ + ones_word(n % 10)
    }
}

/// Words for a value below one thousand; meant for nonzero values.
pub open spec fn three_digit_words(n: nat) -> Seq<char> {
    if n >= 100 {
        if n % 100 == 0 {
            ones_word(n / 100) + " hundred"@
        } else {
            ones_word(n / 100) + " hundred "@ + two_digit_words(n % 100)
        }
    } else {
        two_digit_words(n)
    }
}

/// Words for the three-digit groups of `v`, where `v` still has to be
/// divided by `1000^level` levels of scale; empty for zero.
pub open spec fn group_words(v: nat, level: nat) -> Seq<char>
    decreases v,
{
    if v == 0 {
        Seq::empty()
    } else {
        let rest = group_words(v / 1000, level + 1);
        let g = v % 1000;
        if g == 0 {
            rest
        } else {
            let here = if level == 0 {
                three_digit_words(g)
            } else {
                three_digit_words(g) + " "@ + scale_word(level)
            };
            if rest.len() == 0 {
                here
            } else {
                rest + " "@ + here
            }
        }
    }
}

/// English words of a whole value, short scale.
pub open spec fn int_words(v: nat) -> Seq<char> {
    if v == 0 {
        "zero"@
    } else {
        group_words(v, 0)
    }
}

/// The value of a digit string.
pub open spec fn digits_value(s: Seq<char>) -> nat
    decreases s.len(),
{
    if s.len() == 0 {
        0
    } else {
        digits_value(s.drop_last()) * 10 + digit_val(s.last())
    }
}

/// The digits read one by one, space-separated.
pub open spec fn digit_by_digit(s: Seq<char>) -> Seq<char>
    decreases s.len(),
{
    if s.len() == 0 {
        Seq::empty()
    } else if s.len() == 1 {
        ones_word(digit_val(s[0]))
    } else {
        ones_word(digit_val(s[0])) + " "@ + digit_by_digit(s.skip(1))
    }
}

/// Words for a number run with integer digits `ip` and fractional digits
/// `fp` (empty when there is no fractional part).  Runs too long for the
/// scale table are read digit by digit.
pub open spec fn number_words(ip: Seq<char>, fp: Seq<char>) -> Seq<char> {
    let base = if ip.len() <= 3 * MAX_GROUPS {
        int_words(digits_value(ip))
    } else {
        digit_by_digit(ip)
    };
    if fp.len() == 0 {
        base
    } else {
        base + " point "@ + digit_by_digit(fp)
    }
}

pub proof fn lemma_pow1000_is_pow10(n: nat)
    ensures
        pow1000(n) == pow10(3 * n),
    decreases n,
{
    if n > 0 {
        lemma_pow1000_is_pow10((n - 1) as nat);
        assert(3 * n == 3 * (n - 1) + 3);
        assert(pow10((3 * (n - 1) + 3) as nat) == 10 * pow10((3 * (n - 1) + 2) as nat));
        assert(pow10((3 * (n - 1) + 2) as nat) == 10 * pow10((3 * (n - 1) + 1) as nat));
        assert(pow10((3 * (n - 1) + 1) as nat) == 10 * pow10((3 * (n - 1)) as nat));
    }
}

/// A digit string's value is below ten to its length.
pub proof fn lemma_digits_value_bound(s: Seq<char>)
    ensures
        digits_value(s) < pow10(s.len()),
    decreases s.len(),
{
    if s.len() > 0 {
        lemma_digits_value_bound(s.drop_last());
        assert(digit_val(s.last()) <= 9);
        assert(pow10(s.len()) == 10 * pow10((s.len() - 1) as nat));
    }
}

pub proof fn lemma_pow1000_12_fits()
    ensures
        pow1000(12) == 1000000000000000000000000000000000000,
{
    assert(pow1000(0) == 1);
    assert(pow1000(1) == 1000);
    assert(pow1000(2) == 1000000);
    assert(pow1000(3) == 1000000000);
    assert(pow1000(4) == 1000000000000);
    assert(pow1000(5) == 1000000000000000);
    assert(pow1000(6) == 1000000000000000000);
    assert(pow1000(7) == 1000000000000000000000);
    assert(pow1000(8) == 1000000000000000000000000);
    assert(pow1000(9) == 1000000000000000000000000000);
    assert(pow1000(10) == 1000000000000000000000000000000);
    assert(pow1000(11) == 1000000000000000000000000000000000);
    assert(pow1000(12) == 1000000000000000000000000000000000000);
}

pub fn ones_word_exec(d: u8) -> (r: String)
    requires
        d < 20,
    ensures
        r@ == ones_word(d as nat),
{
    let s: &str = match d {
        0u8 => "zero",
        1u8 => "one",
        2u8 => "two",
        3u8 => "three",
        4u8 => "four",
        5u8 => "five",
        6u8 => "six",
        7u8 => "seven",
        8u8 => "eight",
        9u8 => "nine",
        10u8 => "ten",
        11u8 => "eleven",
        12u8 => "twelve",
        13u8 => "thirteen",
        14u8 => "fourteen",
        15u8 => "fifteen",
        16u8 => "sixteen",
        17u8 => "seventeen",
        18u8 => "eighteen",
        _ => "nineteen",
    };
    s.to_owned()
}

pub fn tens_word_exec(t: u8) -> (r: String)
    requires
        2 <= t <= 9,
    ensures
        r@ == tens_word(t as nat),
{
    let s: &str = match t {
        2u8 => "twenty",
        3u8 => "thirty",
        4u8 => "forty",
        5u8 => "fifty",
        6u8 => "sixty",
        7u8 => "seventy",
        8u8 => "eighty",
        _ => "ninety",
    };
    s.to_owned()
}

pub fn scale_word_exec(level: u32) -> (r: String)
    requires
        1 <= level <= 11,
    ensures
        r@ == scale_word(level as nat),
{
    let s: &str = match level {
        1u32 => "thousand",
        2u32 => "million",
        3u32 => "billion",
        4u32 => "trillion",
        5u32 => "quadrillion",
        6u32 => "quintillion",
        7u32 => "sextillion",
        8u32 => "septillion",
        9u32 => "octillion",
        10u32 => "nonillion",
        _ => "decillion",
    };
    s.to_owned()
}

pub fn two_digit_words_exec(n: u16) -> (r: String)
    requires
        n < 100,
    ensures
        r@ == two_digit_words(n as nat),
{
    if n < 20 {
        ones_word_exec(n as u8)
    } else if n % 10 == 0 {
        tens_word_exec((n / 10) as u8)
    } else {
        let mut r = tens_word_exec((n / 10) as u8);
        r.append(" ");
        let o = ones_word_exec((n % 10) as u8);
        r.append(o.as_str());
        assert(r@ =~= two_digit_words(n as nat));
        r
    }
}

pub fn three_digit_words_exec(n: u16) -> (r: String)
    requires
        n < 1000,
    ensures
        r@ == three_digit_words(n as nat),
{
    if n >= 100 {
        let mut r = ones_word_exec((n / 100) as u8);
        if n % 100 == 0 {
            r.append(" hundred");
        } else {
            r.append(" hundred ");
            let t = two_digit_words_exec(n % 100);
            r.append(t.as_str());
        }
        assert(r@ =~= three_digit_words(n as nat));
        r
    } else {
        two_digit_words_exec(n)
    }
}

pub fn group_words_exec(v: u128, level: u32) -> (r: String)
    requires
        level <= MAX_GROUPS,
        (v as nat) < pow1000((MAX_GROUPS - level) as nat),
    ensures
        r@ == group_words(v as nat, level as nat),
    decreases v,
{
    if v == 0 {
        String::new()
    } else {
        proof {
            assert(pow1000((MAX_GROUPS - level) as nat) == 1000 * pow1000(
                (MAX_GROUPS - level - 1) as nat,
            ));
            assert((v as nat) / 1000 < pow1000((MAX_GROUPS - level - 1) as nat)) by (nonlinear_arith)
                requires
                    (v as nat) < 1000 * pow1000((MAX_GROUPS - level - 1) as nat),
            ;
            assert(v / 1000 < v) by (nonlinear_arith)
                requires
                    v >= 1,
            ;
        }
        let rest = group_words_exec(v / 1000, level + 1);
        let g: u16 = (v % 1000) as u16;
        if g == 0 {
            rest
        } else {
            let mut here = three_digit_words_exec(g);
            if level > 0 {
                here.append(" ");
                let sw = scale_word_exec(level);
                here.append(sw.as_str());
            }
            assert(here@ == if level == 0 {
                three_digit_words(g as nat)
            } else {
                three_digit_words(g as nat) + " "@ + scale_word(level as nat)
            });
            if rest.as_str().is_empty() {
                here
            } else {
                let mut r = rest;
                r.append(" ");
                r.append(here.as_str());
                assert(r@ =~= group_words(v as nat, level as nat));
                r
            }
        }
    }
}

pub fn int_words_exec(v: u128) -> (r: String)
    requires
        (v as nat) < pow1000(MAX_GROUPS as nat),
    ensures
        r@ == int_words(v as nat),
{
    if v == 0 {
        "zero".to_owned()
    } else {
        group_words_exec(v, 0)
    }
}

/// Parses the digit characters `s[from..to]` into their value.
pub fn digits_value_exec(s: &Vec<char>, from: usize, to: usize) -> (v: u128)
    requires
        from <= to <= s@.len(),
        to - from <= 3 * MAX_GROUPS,
        forall|k: int| from <= k < to ==> is_digit(s@[k]),
    ensures
        v as nat == digits_value(s@.subrange(from as int, to as int)),
        (v as nat) < pow1000(MAX_GROUPS as nat),
{
    proof {
        lemma_pow1000_12_fits();
        lemma_pow1000_is_pow10(MAX_GROUPS as nat);
    }
    let mut v: u128 = 0;
    let mut i: usize = from;
    while i < to
        invariant
            from <= i <= to,
            v as nat == digits_value(s@.subrange(from as int, i as int)),
            (v as nat) < pow10((i - from) as nat),
        decreases to - i,
    {
        proof {
            lemma_digits_value_bound(s@.subrange(from as int, i as int));
            lemma_pow10_monotonic((i + 1 - from) as nat, (3 * MAX_GROUPS) as nat);
            lemma_pow1000_12_fits();
            lemma_pow1000_is_pow10(MAX_GROUPS as nat);
            assert(s@.subrange(from as int, i + 1).drop_last() =~= s@.subrange(
                from as int,
                i as int,
            ));
        }
        let d = digit_val_exec(s[i]);
        v = v * 10 + (d as u128);
        i = i + 1;
    }
    proof {
        lemma_pow10_monotonic((to - from) as nat, (3 * MAX_GROUPS) as nat);
    }
    v
}

pub proof fn lemma_pow10_monotonic(a: nat, b: nat)
    requires
        a <= b,
    ensures
        pow10(a) <= pow10(b),
    decreases b,
{
    if a < b {
        lemma_pow10_monotonic(a, (b - 1) as nat);
        assert(pow10(b) == 10 * pow10((b - 1) as nat));
    }
}

/// Reads the digit characters `s[from..to]` one by one.
pub fn digit_by_digit_exec(s: &Vec<char>, from: usize, to: usize) -> (r: String)
    requires
        from <= to <= s@.len(),
        forall|k: int| from <= k < to ==> is_digit(s@[k]),
    ensures
        r@ == digit_by_digit(s@.subrange(from as int, to as int)),
    decreases to - from,
{
    if from >= to {
        String::new()
    } else {
        let d = digit_val_exec(s[from]);
        let mut r = ones_word_exec(d);
        if from + 1 < to {
            r.append(" ");
            let rest = digit_by_digit_exec(s, from + 1, to);
            r.append(rest.as_str());
            proof {
                assert(s@.subrange(from as int, to as int).skip(1) =~= s@.subrange(
                    from + 1,
                    to as int,
                ));
                assert(s@.subrange(from as int, to as int)[0] == s@[from as int]);
                assert(r@ =~= digit_by_digit(s@.subrange(from as int, to as int)));
            }
        }
        proof {
            assert(s@.subrange(from as int, to as int)[0] == s@[from as int]);
        }
        r
    }
}

/// Words for the number run whose integer digits are `s[ifrom..ito]` and
/// whose fractional digits are `s[ffrom..fto]` (an empty range when the
/// run has no fractional part).
pub fn number_words_exec(s: &Vec<char>, ifrom: usize, ito: usize, ffrom: usize, fto: usize) -> (r:
    String)
    requires
        ifrom < ito <= s@.len(),
        ffrom <= fto <= s@.len(),
        forall|k: int| ifrom <= k < ito ==> is_digit(s@[k]),
        forall|k: int| ffrom <= k < fto ==> is_digit(s@[k]),
    ensures
        r@ == number_words(
            s@.subrange(ifrom as int, ito as int),
            s@.subrange(ffrom as int, fto as int),
        ),
{
    let mut base: String = if ito - ifrom <= (3 * MAX_GROUPS) as usize {
        let v = digits_value_exec(s, ifrom, ito);
        int_words_exec(v)
    } else {
        digit_by_digit_exec(s, ifrom, ito)
    };
    if ffrom < fto {
        base.append(" point ");
        let fw = digit_by_digit_exec(s, ffrom, fto);
        base.append(fw.as_str());
        assert(base@ =~= number_words(
            s@.subrange(ifrom as int, ito as int),
            s@.subrange(ffrom as int, fto as int),
        ));
    }
    base
}

/// Decimal digits of a value, most significant first.
pub open spec fn dec_rep(n: nat) -> Seq<char>
    decreases n,
{
    if n < 10 {
        seq![digit_char(n)]
    } else {
        dec_rep(n / 10) + seq![digit_char(n % 10)]
    }
}

/// The usual decimal rendering of a value.
pub fn u64_to_string(n: u64) -> (r: String)
    ensures
        r@ == dec_rep(n as nat),
    decreases n,
{
    if n < 10 {
        let mut r = String::new();
        push_char(&mut r, digit_char_exec(n as u8));
        assert(r@ =~= dec_rep(n as nat));
        r
    } else {
        proof {
            assert(n / 10 < n) by (nonlinear_arith)
                requires
                    n >= 10,
            ;
        }
        let mut r = u64_to_string(n / 10);
        push_char(&mut r, digit_char_exec((n % 10) as u8));
        assert(r@ =~= dec_rep(n as nat));
        r
    }
}

} // verus!
