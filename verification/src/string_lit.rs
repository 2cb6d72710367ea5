//! Reading the text of a string literal from the way it is written in the
//! source.
//!
//! Two forms are read: the quoted form `"text"` and the raw form
//! `r"text"`, `r#"text"#`, with any number of hashes that is the same on
//! both sides. The text between the quotes is handed out as it stands;
//! escape sequences are not replaced.
use std::collections::VecDeque;
use vstd::prelude::*;
use crate::text::{chars_of, push_chars, push_text, string_of};

verus! {

/// The nearest character before position `i` that is not a quote.
pub open spec fn before_quotes(body: Seq<char>, i: int) -> Option<char>
    decreases i,
{
    if i <= 0 || i > body.len() {
        None
    } else if body[i - 1] != '"' {
        Some(body[i - 1])
    } else {
        before_quotes(body, i - 1)
    }
}

/// Whether the quote at position `i` is escaped: the nearest character
/// before it that is not itself a quote is a backslash.
pub open spec fn escaped(body: Seq<char>, i: int) -> bool {
    before_quotes(body, i) == Some('\\')
}

/// Whether the text between the quotes of a quoted literal is acceptable:
/// each quote in it is escaped.
pub open spec fn quotes_escaped(body: Seq<char>) -> bool {
    forall|i: int| 0 <= i < body.len() && body[i] == '"' ==> #[trigger] escaped(body, i)
}

/// What [`verify_quoted`] makes of the text between the quotes.
pub open spec fn quoted(body: Seq<char>) -> Result<Seq<char>, Seq<char>> {
    if quotes_escaped(body) {
        Ok(body)
    } else {
        Err("literal contains unescaped quote character(s)"@)
    }
}

/// The greatest position at which `s` holds `c`.
pub open spec fn last_index(s: Seq<char>, c: char) -> Option<int>
    decreases s.len(),
{
    if s.len() == 0 {
        None
    } else if s.last() == c {
        Some(s.len() - 1)
    } else {
        last_index(s.drop_last(), c)
    }
}

/// The message for text that follows the closing quote.
pub open spec fn unmatched_suffix(suffix: Seq<char>) -> Seq<char> {
    "unmatched suffix detected, `"@ + suffix + "`, did you miss a space?"@
}

/// The message for text that follows the closing hashes of a raw literal.
pub open spec fn unmatched_raw_suffix(suffix: Seq<char>) -> Seq<char> {
    "unmatched raw suffix detected, `"@ + suffix + "`, did you miss a space?"@
}

/// The message for a character that cannot begin a literal.
pub open spec fn unexpected_character(c: char) -> Seq<char> {
    "unexpected character "@.push(c)
}

/// What is read when `rest` is still to be matched from both ends. `full` is
/// the length of the whole input, and `raw` says that a leading `r` has been
/// seen.
pub open spec fn strip(rest: Seq<char>, full: nat, raw: bool) -> Result<Seq<char>, Seq<char>>
    decreases rest.len(),
{
    if rest.len() < 2 {
        Err("string too short"@)
    } else {
        let body = rest.subrange(1, rest.len() - 1);
        if rest[0] == 'r' {
            if rest.len() == full {
                strip(rest.subrange(1, rest.len() as int), full, true)
            } else {
                Err("found r at a position other than the start"@)
            }
        } else if rest[0] == '"' {
            if rest.last() == '"' {
                if raw {
                    Ok(body)
                } else {
                    quoted(body)
                }
            } else {
                match last_index(body, '"') {
                    Some(q) => Err(
                        unmatched_suffix(body.subrange(q + 1, body.len() as int).push(rest.last())),
                    ),
                    None => Err("missing closing quote on string"@),
                }
            }
        } else if rest[0] == '#' && raw {
            if rest.last() == '#' {
                strip(body, full, raw)
            } else {
                match last_index(body, '#') {
                    Some(q) => if q > 0 && body[q - 1] == '"' {
                        Err(
                            unmatched_raw_suffix(
                                body.subrange(q + 1, body.len() as int).push(rest.last()),
                            ),
                        )
                    } else {
                        Err("bad raw string format"@)
                    },
                    None => Err("missing closing hash on raw string"@),
                }
            }
        } else {
            Err(unexpected_character(rest[0]))
        }
    }
}

/// The text of the literal that is written as `input`, or the reason why
/// `input` is no string literal.
pub open spec fn literal_text(input: Seq<char>) -> Result<Seq<char>, Seq<char>> {
    strip(input, input.len(), false)
}

/// `n` hashes.
pub open spec fn hashes(n: nat) -> Seq<char> {
    Seq::new(n, |i: int| '#')
}

/// Text between two quotes.
pub open spec fn in_quotes(body: Seq<char>) -> Seq<char> {
    seq!['"'] + body + seq!['"']
}

/// The quoted form `"body"` is read as `body`, as far as each quote inside
/// it is escaped.
pub proof fn quoted_form_is_read(body: Seq<char>)
    ensures
        literal_text(in_quotes(body)) == quoted(body),
{
    let input = in_quotes(body);
    assert(input.subrange(1, input.len() - 1) =~= body);
}

/// Hashes around a quoted text are matched pair by pair from the outside.
proof fn hashes_are_stripped(body: Seq<char>, n: nat, full: nat)
    ensures
        strip(hashes(n) + in_quotes(body) + hashes(n), full, true) == Ok::<Seq<char>, Seq<char>>(
            body,
        ),
    decreases n,
{
    let inner = in_quotes(body);
    let rest = hashes(n) + inner + hashes(n);
    if n == 0 {
        assert(rest =~= inner);
        assert(inner.subrange(1, inner.len() - 1) =~= body);
    } else {
        let less = (n - 1) as nat;
        hashes_are_stripped(body, less, full);
        assert(rest[0] == '#');
        assert(rest.last() == '#');
        assert(rest.subrange(1, rest.len() - 1) =~= hashes(less) + inner + hashes(less));
    }
}

/// The raw form, `r"body"` with the same number of hashes on both sides of
/// the quotes, is read as `body`, whatever `body` holds.
pub proof fn raw_form_is_read(body: Seq<char>, n: nat)
    ensures
        literal_text(seq!['r'] + hashes(n) + in_quotes(body) + hashes(n)) == Ok::<
            Seq<char>,
            Seq<char>,
        >(body),
{
    let input = seq!['r'] + hashes(n) + in_quotes(body) + hashes(n);
    hashes_are_stripped(body, n, input.len());
    assert(input.subrange(1, input.len() as int) =~= hashes(n) + in_quotes(body) + hashes(n));
}

/// The view of a result that holds strings.
pub open spec fn result_view(r: Result<String, String>) -> Result<Seq<char>, Seq<char>> {
    match r {
        Ok(s) => Ok(s@),
        Err(e) => Err(e@),
    }
}

/// The failure with the message `msg`.
fn failure(msg: &str) -> (r: Result<String, String>)
    ensures
        result_view(r) == Err::<Seq<char>, Seq<char>>(msg@),
{
    Err(String::from_str(msg))
}

/// The failure whose message shows `middle` between two fixed texts.
fn failure_around(before: &str, middle: &Vec<char>, after: &str) -> (r: Result<String, String>)
    ensures
        result_view(r) == Err::<Seq<char>, Seq<char>>(before@ + middle@ + after@),
{
    let mut msg: Vec<char> = Vec::new();
    push_text(&mut msg, before);
    push_chars(&mut msg, middle);
    push_text(&mut msg, after);
    assert(msg@ =~= before@ + middle@ + after@);
    Err(string_of(&msg))
}

/// Checks the text between the quotes of a quoted literal and hands it out.
pub fn verify_quoted(chars: VecDeque<char>) -> (r: Result<String, String>)
    ensures
        result_view(r) == quoted(chars@),
{
    let mut result: Vec<char> = Vec::new();
    let mut previous: Option<char> = None;
    let mut i: usize = 0;
    while i < chars.len()
        invariant
            i <= chars.len(),
            result@ == chars@.subrange(0, i as int),
            previous == before_quotes(chars@, i as int),
            forall|k: int| 0 <= k < i && chars@[k] == '"' ==> #[trigger] escaped(chars@, k),
        decreases chars.len() - i,
    {
        let c = chars[i];
        if c == '"' {
            if previous != Some('\\') {
                assert(!escaped(chars@, i as int));
                return failure("literal contains unescaped quote character(s)");
            }
        } else {
            previous = Some(c);
        }
        result.push(c);
        i += 1;
        assert(result@ =~= chars@.subrange(0, i as int));
    }
    assert(chars@.subrange(0, chars.len() as int) =~= chars@);
    Ok(string_of(&result))
}

/// The characters of `chars`, in order, as a string.
fn deque_text(chars: &VecDeque<char>) -> (s: String)
    ensures
        s@ == chars@,
{
    let mut text: Vec<char> = Vec::new();
    let mut k: usize = 0;
    while k < chars.len()
        invariant
            k <= chars.len(),
            text@ == chars@.subrange(0, k as int),
        decreases chars.len() - k,
    {
        text.push(chars[k]);
        k += 1;
        assert(text@ =~= chars@.subrange(0, k as int));
    }
    assert(chars@.subrange(0, chars.len() as int) =~= chars@);
    string_of(&text)
}

/// Takes characters from the back of `chars` up to and with the last `mark`,
/// and puts those behind the mark in front of `suffix`. Without a mark all of
/// `chars` moves over.
fn cut_after_last(chars: &mut VecDeque<char>, mark: char, suffix: &mut Vec<char>) -> (found: bool)
    ensures
        match last_index(old(chars)@, mark) {
            Some(q) => {
                &&& found
                &&& 0 <= q < old(chars)@.len()
                &&& old(chars)@[q] == mark
                &&& final(chars)@ == old(chars)@.subrange(0, q)
                &&& final(suffix)@ == old(chars)@.subrange(q + 1, old(chars)@.len() as int) + old(
                    suffix,
                )@
            },
            None => {
                &&& !found
                &&& final(chars)@.len() == 0
                &&& final(suffix)@ == old(chars)@ + old(suffix)@
            },
        },
{
    let ghost start = chars@;
    let ghost tail = suffix@;
    loop
        invariant
            start == old(chars)@,
            tail == old(suffix)@,
            chars@.len() <= start.len(),
            chars@ == start.subrange(0, chars@.len() as int),
            suffix@ == start.subrange(chars@.len() as int, start.len() as int) + tail,
            last_index(start, mark) == last_index(chars@, mark),
        decreases chars@.len(),
    {
        let ghost now = chars@;
        match chars.pop_back() {
            Some(x) => {
                assert(chars@ =~= now.drop_last());
                assert(chars@ =~= start.subrange(0, chars@.len() as int));
                if x == mark {
                    assert(suffix@ =~= start.subrange(chars@.len() as int + 1, start.len() as int) + tail);
                    return true;
                }
                suffix.insert(0, x);
                assert(suffix@ =~= start.subrange(chars@.len() as int, start.len() as int) + tail);
            },
            None => {
                assert(suffix@ =~= start + tail);
                return false;
            },
        }
    }
}

/// Reads the text of the string literal that is written as `input`.
pub fn string_as_string_literal(input: &str) -> (r: Result<String, String>)
    ensures
        result_view(r) == literal_text(input@),
{
    let all = chars_of(input);
    let mut chars: VecDeque<char> = VecDeque::new();
    let mut n: usize = 0;
    while n < all.len()
        invariant
            n <= all.len(),
            chars@ == all@.subrange(0, n as int),
        decreases all.len() - n,
    {
        chars.push_back(all[n]);
        n += 1;
        assert(chars@ =~= all@.subrange(0, n as int));
    }
    assert(all@.subrange(0, all.len() as int) =~= all@);

    let full_len = chars.len();
    let mut is_raw = false;

    loop
        invariant
            full_len == input@.len(),
            literal_text(input@) == strip(chars@, full_len as nat, is_raw),
        decreases chars@.len(),
    {
        if chars.len() < 2 {
            return failure("string too short");
        }
        let ghost rest = chars@;
        let ghost body = rest.subrange(1, rest.len() - 1);
        match chars.pop_front() {
            None => {
                return failure("no first character");
            },
            Some(c) => {
                if c == 'r' {
                    if chars.len() + 1 == full_len {
                        is_raw = true;
                    } else {
                        return failure("found r at a position other than the start");
                    }
                } else if c == '"' {
                    match chars.pop_back() {
                        Some(b) => {
                            assert(chars@ =~= body);
                            if b == '"' {
                                if is_raw {
                                    return Ok(deque_text(&chars));
                                } else {
                                    return verify_quoted(chars);
                                }
                            } else {
                                let mut suffix: Vec<char> = Vec::new();
                                suffix.push(b);
                                let found = cut_after_last(&mut chars, '"', &mut suffix);
                                if found {
                                    proof {
                                        let q = last_index(body, '"')->0;
                                        assert(suffix@ =~= body.subrange(
                                            q + 1,
                                            body.len() as int,
                                        ).push(b));
                                    }
                                    return failure_around(
                                        "unmatched suffix detected, `",
                                        &suffix,
                                        "`, did you miss a space?",
                                    );
                                }
                                return failure("missing closing quote on string");
                            }
                        },
                        None => {
                            return failure("unbalanced surrounding quotes");
                        },
                    }
                } else if c == '#' && is_raw {
                    match chars.pop_back() {
                        Some(b) => {
                            assert(chars@ =~= body);
                            if b != '#' {
                                let mut suffix: Vec<char> = Vec::new();
                                suffix.push(b);
                                let found = cut_after_last(&mut chars, '#', &mut suffix);
                                if found {
                                    proof {
                                        let q = last_index(body, '#')->0;
                                        assert(suffix@ =~= body.subrange(
                                            q + 1,
                                            body.len() as int,
                                        ).push(b));
                                    }
                                    let before = chars.pop_back();
                                    if before == Some('"') {
                                        return failure_around(
                                            "unmatched raw suffix detected, `",
                                            &suffix,
                                            "`, did you miss a space?",
                                        );
                                    } else {
                                        return failure("bad raw string format");
                                    }
                                }
                                return failure("missing closing hash on raw string");
                            }
                        },
                        None => {
                            return failure("unbalanced surrounding hashes");
                        },
                    }
                } else {
                    let mut msg: Vec<char> = Vec::new();
                    push_text(&mut msg, "unexpected character ");
                    msg.push(c);
                    assert(msg@ =~= unexpected_character(c));
                    return Err(string_of(&msg));
                }
            },
        }
    }
}

} // verus!
