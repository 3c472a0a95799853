use outetts::normalize::normalize_text;
use outetts::numwords::{int_words_exec, u64_to_string};

fn svec(words: &[&str]) -> Vec<String> {
    words.iter().map(|w| w.to_string()).collect()
}

#[test]
fn normalize_zero_is_zero() {
    assert_eq!(normalize_text("0"), svec(&["zero"]));
}

#[test]
fn normalize_ten_digits_short_scale() {
    assert_eq!(
        normalize_text("1234567890"),
        svec(&[
            "one", "billion", "two", "hundred", "thirty", "four", "million", "five", "hundred",
            "sixty", "seven", "thousand", "eight", "hundred", "ninety",
        ])
    );
}

#[test]
fn normalize_digit_free_passthrough() {
    assert_eq!(normalize_text("hello world"), svec(&["hello", "world"]));
}

#[test]
fn normalize_fixed_point() {
    let first = normalize_text("some already clean words");
    let joined = first.join(" ");
    assert_eq!(normalize_text(&joined), first);
}

#[test]
fn normalize_separators_become_spaces() {
    assert_eq!(
        normalize_text("a-b_c/d,e.f\\g"),
        svec(&["a", "b", "c", "d", "e", "f", "g"])
    );
}

#[test]
fn normalize_lowercases_and_strips() {
    assert_eq!(normalize_text("Hello, World!"), svec(&["hello", "world"]));
}

#[test]
fn normalize_decimal_fraction() {
    assert_eq!(
        normalize_text("3.14"),
        svec(&["three", "point", "one", "four"])
    );
}

#[test]
fn normalize_small_numbers() {
    assert_eq!(normalize_text("13"), svec(&["thirteen"]));
    assert_eq!(normalize_text("21"), svec(&["twenty", "one"]));
    assert_eq!(normalize_text("100"), svec(&["one", "hundred"]));
    assert_eq!(normalize_text("1000"), svec(&["one", "thousand"]));
    assert_eq!(
        normalize_text("105"),
        svec(&["one", "hundred", "five"])
    );
}

#[test]
fn normalize_number_glued_to_letters() {
    assert_eq!(normalize_text("abc123def"), svec(&["abcone", "hundred", "twenty", "threedef"]));
}

#[test]
fn normalize_overlong_run_read_digit_by_digit() {
    let run: String = "12".repeat(20);
    let mut expected: Vec<String> = Vec::new();
    for _ in 0..20 {
        expected.push("one".to_string());
        expected.push("two".to_string());
    }
    assert_eq!(normalize_text(&run), expected);
}

#[test]
fn normalize_empty_and_whitespace() {
    assert_eq!(normalize_text(""), Vec::<String>::new());
    assert_eq!(normalize_text("  \t\n "), Vec::<String>::new());
}

#[test]
fn int_words_exact_values() {
    assert_eq!(int_words_exec(0), "zero");
    assert_eq!(int_words_exec(19), "nineteen");
    assert_eq!(int_words_exec(40), "forty");
    assert_eq!(int_words_exec(999), "nine hundred ninety nine");
    assert_eq!(int_words_exec(1000000), "one million");
    assert_eq!(
        int_words_exec(1234567890),
        "one billion two hundred thirty four million five hundred sixty seven thousand eight hundred ninety"
    );
}

#[test]
fn decimal_rendering() {
    assert_eq!(u64_to_string(0), "0");
    assert_eq!(u64_to_string(4100), "4100");
    assert_eq!(u64_to_string(1234567890), "1234567890");
}
