use spoke::string_lit::{string_as_string_literal, verify_quoted};
use std::collections::VecDeque;

#[test]
fn empty_literal_is_error() {
    assert_eq!(string_as_string_literal(""), err("string too short"));
}

#[test]
fn literal_without_quotes_is_error() {
    assert_eq!(
        string_as_string_literal("asss"),
        err("unexpected character a")
    );
}

#[test]
fn single_double_quote_is_error() {
    assert_eq!(
        string_as_string_literal(r#"""#),
        err("string too short")
    );
}

#[test]
fn paired_double_quote_is_empty_string() {
    assert_eq!(string_as_string_literal(r#""""#), ok(""))
}

#[test]
fn quoted_character_is_string() {
    assert_eq!(string_as_string_literal(r#""a""#), ok("a"));
}

#[test]
fn quoted_string_is_string() {
    assert_eq!(
        string_as_string_literal(r#""some string""#),
        ok("some string")
    );
}

#[test]
fn quoted_string_with_internal_quote_is_error() {
    assert_eq!(
        string_as_string_literal(r#""some " string""#),
        err("literal contains unescaped quote character(s)")
    );
}

#[test]
fn single_r_raw_string_empty_ok() {
    assert_eq!(string_as_string_literal(r#"r"""#), ok(""));
}

#[test]
fn single_r_raw_string_char_ok() {
    assert_eq!(string_as_string_literal(r#"r"a""#), ok("a"));
}

#[test]
fn raw_string_with_balanced_hashes_is_ok() {
    assert_eq!(
        string_as_string_literal(r#####"r####"a"####"#####),
        ok("a")
    );
}

#[test]
fn raw_string_with_quotes_is_ok() {
    assert_eq!(
        string_as_string_literal(r#####"r####"a"b"####"#####),
        ok("a\"b")
    );
}

#[test]
fn raw_string_with_hashes_is_ok() {
    assert_eq!(
        string_as_string_literal(r#####"r####"a"#b"####"#####),
        ok("a\"#b")
    );
}

#[test]
fn string_with_suffix_is_error() {
    assert_eq!(
        string_as_string_literal(r#""str"suffix"#),
        err("unmatched suffix detected, `suffix`, did you miss a space?")
    );
}

#[test]
fn r_at_position_other_than_start() {
    assert_eq!(
        string_as_string_literal(r###"r#r""##"###),
        err("found r at a position other than the start")
    );
}
#[test]
fn unbalanced_hashes() {
    assert_eq!(
        string_as_string_literal(r###"r##""#"###),
        err("missing closing hash on raw string")
    );
}
#[test]
fn unmatched_suffix_with_hashes() {
    assert_eq!(
        string_as_string_literal(r###"r##""r##"###),
        err("unmatched suffix detected, `r`, did you miss a space?")
    );
}

#[test]
fn missing_closing_hash() {
    assert_eq!(
        string_as_string_literal(r###"r##""#"###),
        err("missing closing hash on raw string")
    );
}
#[test]
fn unmatched_raw_suffix() {
    assert_eq!(
        string_as_string_literal(r###"r##""#c"###),
        err("unmatched raw suffix detected, `c`, did you miss a space?")
    );
}
#[test]
fn bad_raw_string_format() {
    assert_eq!(
        string_as_string_literal(r###"r##"" #c"###),
        err("bad raw string format")
    );
}

fn err<T>(error: impl Into<String>) -> Result<T, String> {
    Err(error.into())
}

fn ok<T>(error: impl Into<String>) -> Result<String, T> {
    Ok(error.into())
}

#[test]
fn escaped_quotes_are_kept_with_their_backslash() {
    assert_eq!(
        string_as_string_literal(r#""say \"hi\"""#),
        ok(r#"say \"hi\""#)
    );
}

#[test]
fn a_quote_behind_an_escaped_quote_counts_as_escaped() {
    assert_eq!(string_as_string_literal(r#""a\""b""#), ok(r#"a\""b"#));
}

#[test]
fn a_hash_outside_a_raw_string_is_unexpected() {
    assert_eq!(
        string_as_string_literal(r###"#"a"#"###),
        err("unexpected character #")
    );
}

#[test]
fn a_quoted_string_without_its_closing_quote() {
    assert_eq!(
        string_as_string_literal(r#""abc"#),
        err("missing closing quote on string")
    );
}

#[test]
fn a_single_character_is_too_short() {
    assert_eq!(string_as_string_literal("r"), err("string too short"));
    assert_eq!(string_as_string_literal("x"), err("string too short"));
}

#[test]
fn a_raw_string_with_too_few_closing_hashes() {
    assert_eq!(
        string_as_string_literal(r###"r#"a""###),
        err("missing closing hash on raw string")
    );
}

#[test]
fn verify_quoted_hands_the_text_out() {
    let chars: VecDeque<char> = "plain text".chars().collect();
    assert_eq!(verify_quoted(chars), ok("plain text"));
    let chars: VecDeque<char> = VecDeque::new();
    assert_eq!(verify_quoted(chars), ok(""));
}

#[test]
fn verify_quoted_rejects_a_bare_quote() {
    let chars: VecDeque<char> = "a\"b".chars().collect();
    assert_eq!(
        verify_quoted(chars),
        err("literal contains unescaped quote character(s)")
    );
    let chars: VecDeque<char> = "\"".chars().collect();
    assert_eq!(
        verify_quoted(chars),
        err("literal contains unescaped quote character(s)")
    );
}
