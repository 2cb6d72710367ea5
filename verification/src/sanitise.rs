//! Turning free text into text that can stand inside an identifier.
//!
//! The text is scanned once from the left. Runs of white space and
//! underscores become one underscore, none at the very beginning and none at
//! the very end. Punctuation is spelled out as a word between underscores, and
//! an opening bracket or quote waits for the next character: together with
//! its closer it is spelled as one word for the pair, otherwise as a word for
//! the opener alone. Characters that may stand in an identifier are kept and
//! all others are dropped.
use vstd::prelude::*;
use crate::ident_chars::{ident_char, is_ident_char};
use crate::text::{chars_of, is_whitespace, push_text, string_of, white_space};

verus! {

/// The word that spells a punctuation character, if it has one.
pub open spec fn symbol_word(c: char) -> Option<Seq<char>> {
    if c == ',' {
        Some("comma"@)
    } else if c == '&' {
        Some("ampersand"@)
    } else if c == '.' {
        Some("dot"@)
    } else if c == '=' {
        Some("equals"@)
    } else if c == '/' {
        Some("slash"@)
    } else if c == '*' {
        Some("star"@)
    } else if c == '+' {
        Some("plus"@)
    } else if c == '-' {
        Some("minus"@)
    } else if c == '^' {
        Some("hat"@)
    } else if c == '%' {
        Some("percent"@)
    } else if c == '@' {
        Some("at"@)
    } else if c == '?' {
        Some("question_mark"@)
    } else if c == '!' {
        Some("exclamation"@)
    } else if c == ']' {
        Some("close_bracket"@)
    } else if c == ')' {
        Some("close_paren"@)
    } else if c == '}' {
        Some("close_brace"@)
    } else if c == '>' {
        Some("close_angle_bracket"@)
    } else if c == ':' {
        Some("colon"@)
    } else if c == ';' {
        Some("semicolon"@)
    } else if c == '|' {
        Some("pipe"@)
    } else if c == '#' {
        Some("hash"@)
    } else if c == '$' {
        Some("dollars"@)
    } else if c == '`' {
        Some("backtick"@)
    } else if c == '~' {
        Some("tilde"@)
    } else if c == '\\' {
        Some("backslash"@)
    } else {
        None
    }
}

/// Whether the character opens a pair and so waits for its successor.
pub open spec fn is_opener(c: char) -> bool {
    c == '[' || c == '(' || c == '{' || c == '<' || c == '\'' || c == '"'
}

/// The character that closes the pair that `opening` opens.
pub open spec fn closer_of(opening: char) -> char
    recommends
        is_opener(opening),
{
    if opening == '[' {
        ']'
    } else if opening == '(' {
        ')'
    } else if opening == '{' {
        '}'
    } else if opening == '<' {
        '>'
    } else {
        opening
    }
}

/// The word for an opener directly followed by its closer.
pub open spec fn pair_word(opening: char) -> Seq<char>
    recommends
        is_opener(opening),
{
    if opening == '[' {
        "brackets"@
    } else if opening == '(' {
        "parens"@
    } else if opening == '{' {
        "braces"@
    } else if opening == '<' {
        "angle_brackets"@
    } else if opening == '\'' {
        "single_quotes"@
    } else {
        "quotes"@
    }
}

/// The word for an opener that is not directly followed by its closer.
pub open spec fn single_word(opening: char) -> Seq<char>
    recommends
        is_opener(opening),
{
    if opening == '[' {
        "open_bracket"@
    } else if opening == '(' {
        "open_paren"@
    } else if opening == '{' {
        "open_brace"@
    } else if opening == '<' {
        "open_angle_bracket"@
    } else if opening == '\'' {
        "single_quote"@
    } else {
        "quote"@
    }
}

/// The state of a scan, as a mathematical value.
pub struct Words {
    /// An opener that waits for the next character.
    pub pending: Option<char>,
    /// Whether the text so far ends in a boundary between words.
    pub in_white: bool,
    /// The text assembled so far.
    pub out: Seq<char>,
}

impl Words {
    /// The state before the first character.
    pub open spec fn start() -> Words {
        Words { pending: None, in_white: false, out: Seq::empty() }
    }

    /// Begins a boundary: an underscore, unless nothing has been written yet.
    pub open spec fn start_white(self) -> Words {
        Words {
            pending: self.pending,
            in_white: true,
            out: if self.out.len() > 0 {
                self.out.push('_')
            } else {
                self.out
            },
        }
    }

    /// Writes a word between boundaries.
    pub open spec fn push_word(self, word: Seq<char>) -> Words {
        let begun = self.push_space();
        Words { pending: begun.pending, in_white: true, out: begun.out + word }.start_white()
    }

    /// Writes a character of a word.
    pub open spec fn push_char(self, c: char) -> Words {
        Words { pending: self.pending, in_white: false, out: self.out.push(c) }
    }

    /// Takes a white space character: it begins a boundary or continues one.
    pub open spec fn push_space(self) -> Words {
        if self.in_white {
            self
        } else {
            self.start_white()
        }
    }

    /// Takes an underscore: like white space, it begins a boundary or
    /// continues one.
    pub open spec fn push_underscore(self) -> Words {
        self.push_space()
    }

    /// Lets an opener wait for the next character.
    pub open spec fn push_pending(self, c: char) -> Words {
        Words { pending: Some(c), in_white: self.in_white, out: self.out }
    }

    /// Settles a waiting opener against the character `c` that follows it.
    /// The flag says whether `c` was the closer and is used up.
    pub open spec fn consume_with_pending(self, c: char) -> (Words, bool) {
        let rest = Words { pending: None, in_white: self.in_white, out: self.out };
        match self.pending {
            Some(opening) => if is_opener(opening) {
                if c == closer_of(opening) {
                    (rest.push_word(pair_word(opening)), true)
                } else {
                    (rest.push_word(single_word(opening)), false)
                }
            } else {
                (rest, false)
            },
            None => (self, false),
        }
    }

    /// Takes one character when no opener waits.
    pub open spec fn consume_char(self, c: char) -> Words {
        if c == '_' {
            self.push_underscore()
        } else if symbol_word(c) is Some {
            self.push_word(symbol_word(c)->0)
        } else if is_opener(c) {
            self.push_pending(c)
        } else if white_space(c) {
            self.push_space()
        } else if is_ident_char(c) {
            self.push_char(c)
        } else {
            self
        }
    }

    /// Takes the next character of the text.
    pub open spec fn step(self, c: char) -> Words {
        let (settled, used) = self.consume_with_pending(c);
        if used {
            settled
        } else {
            settled.consume_char(c)
        }
    }

    /// The state after the first `n` characters of `text` were taken from
    /// this state on.
    pub open spec fn run(self, text: Seq<char>, n: nat) -> Words
        decreases n,
    {
        if n == 0 || n > text.len() {
            self
        } else {
            self.run(text, (n - 1) as nat).step(text[n - 1])
        }
    }

    /// The state after the first `n` characters of `text`.
    pub open spec fn scan(text: Seq<char>, n: nat) -> Words {
        Words::start().run(text, n)
    }

    /// The assembled text, without the boundary it may end in. An opener that
    /// still waits is dropped.
    pub open spec fn build(self) -> Seq<char> {
        if self.in_white && self.out.len() > 0 {
            self.out.drop_last()
        } else {
            self.out
        }
    }

    /// What every state of a scan satisfies: only openers wait, and text that
    /// ends in a boundary ends in an underscore.
    pub open spec fn wf(self) -> bool {
        &&& self.pending matches Some(c) ==> is_opener(c)
        &&& self.in_white && self.out.len() > 0 ==> self.out.last() == '_'
    }
}

/// The sanitised form of `text`.
pub open spec fn sanitised(text: Seq<char>) -> Seq<char> {
    Words::scan(text, text.len()).build()
}

/// Scanning goes by the characters that were taken: two texts that begin
/// with the same `n` characters lead to the same state after them.
pub proof fn run_prefix(from: Words, left: Seq<char>, right: Seq<char>, n: nat)
    requires
        n <= left.len(),
        n <= right.len(),
        left.subrange(0, n as int) == right.subrange(0, n as int),
    ensures
        from.run(left, n) == from.run(right, n),
    decreases n,
{
    if n > 0 {
        assert(left.subrange(0, n - 1) =~= left.subrange(0, n as int).subrange(0, n - 1));
        assert(right.subrange(0, n - 1) =~= right.subrange(0, n as int).subrange(0, n - 1));
        run_prefix(from, left, right, (n - 1) as nat);
        assert(left[n - 1] == left.subrange(0, n as int)[n - 1]);
        assert(right[n - 1] == right.subrange(0, n as int)[n - 1]);
    }
}

/// Scanning two texts in a row is scanning the first and then, from where
/// that ended, the second.
pub proof fn run_append(from: Words, front: Seq<char>, back: Seq<char>, n: nat)
    requires
        n <= back.len(),
    ensures
        from.run(front + back, front.len() + n) == from.run(front, front.len()).run(back, n),
    decreases n,
{
    if n == 0 {
        assert((front + back).subrange(0, front.len() as int) =~= front);
        assert(front.subrange(0, front.len() as int) =~= front);
        run_prefix(from, front + back, front, front.len());
    } else {
        run_append(from, front, back, (n - 1) as nat);
        assert((front + back)[front.len() + n - 1] == back[n - 1]);
    }
}

/// Whether the character is kept as it is: it may stand in an identifier
/// and is no underscore.
pub open spec fn kept_as_is(c: char) -> bool {
    &&& c != '_'
    &&& symbol_word(c) is None
    &&& !is_opener(c)
    &&& !white_space(c)
    &&& is_ident_char(c)
}

/// Whether the character only separates words: an underscore, or white
/// space that is nothing else to the scan.
pub open spec fn blank(c: char) -> bool {
    c == '_' || (symbol_word(c) is None && !is_opener(c) && white_space(c))
}

/// Whether each character of the text is kept as it is.
pub open spec fn word(text: Seq<char>) -> bool {
    forall|i: int| 0 <= i < text.len() ==> kept_as_is(#[trigger] text[i])
}

/// Whether each character of the text only separates words.
pub open spec fn blanks(text: Seq<char>) -> bool {
    forall|i: int| 0 <= i < text.len() ==> blank(#[trigger] text[i])
}

/// Characters that may stand in an identifier pass through unchanged.
pub proof fn word_is_kept(from: Words, text: Seq<char>, n: nat)
    requires
        word(text),
        from.pending is None,
        0 < n <= text.len(),
    ensures
        from.run(text, n) == (Words {
            pending: None,
            in_white: false,
            out: from.out + text.subrange(0, n as int),
        }),
    decreases n,
{
    assert(kept_as_is(text[n - 1]));
    if n == 1 {
        assert(from.run(text, 0) == from);
        assert(from.out.push(text[0]) =~= from.out + text.subrange(0, 1));
    } else {
        word_is_kept(from, text, (n - 1) as nat);
        assert((from.out + text.subrange(0, n - 1)).push(text[n - 1]) =~= from.out
            + text.subrange(0, n as int));
    }
}

/// White space and underscores behind a word become one underscore,
/// however many of them there are.
pub proof fn blanks_collapse(from: Words, text: Seq<char>, n: nat)
    requires
        blanks(text),
        from.pending is None,
        !from.in_white,
        from.out.len() > 0,
        0 < n <= text.len(),
    ensures
        from.run(text, n) == (Words { pending: None, in_white: true, out: from.out.push('_') }),
    decreases n,
{
    assert(blank(text[n - 1]));
    if n == 1 {
        assert(from.run(text, 0) == from);
    } else {
        blanks_collapse(from, text, (n - 1) as nat);
    }
}

/// A text of characters that may stand in an identifier is its own
/// sanitised form.
pub proof fn word_is_clean(text: Seq<char>)
    requires
        word(text),
    ensures
        sanitised(text) == text,
{
    if text.len() > 0 {
        word_is_kept(Words::start(), text, text.len());
        assert(Seq::<char>::empty() + text.subrange(0, text.len() as int) =~= text);
    }
}

/// Two words with white space or underscores between them are joined by
/// exactly one underscore.
pub proof fn white_space_joins_words(first: Seq<char>, between: Seq<char>, second: Seq<char>)
    requires
        word(first),
        first.len() > 0,
        blanks(between),
        between.len() > 0,
        word(second),
        second.len() > 0,
    ensures
        sanitised(first + between + second) == first.push('_') + second,
{
    let start = Words::start();
    run_append(start, first, between, between.len());
    word_is_kept(start, first, first.len());
    assert(Seq::<char>::empty() + first.subrange(0, first.len() as int) =~= first);
    let after_first = Words { pending: None, in_white: false, out: first };
    blanks_collapse(after_first, between, between.len());
    let after_blanks = Words { pending: None, in_white: true, out: first.push('_') };
    run_append(start, first + between, second, second.len());
    word_is_kept(after_blanks, second, second.len());
    assert(second.subrange(0, second.len() as int) =~= second);
}

/// White space and underscores in front of a word and behind it leave no
/// trace.
pub proof fn white_space_is_trimmed(front: Seq<char>, text: Seq<char>, back: Seq<char>)
    requires
        blanks(front),
        word(text),
        text.len() > 0,
        blanks(back),
    ensures
        sanitised(front + text + back) == text,
{
    let start = Words::start();
    let waiting = Words { pending: None, in_white: true, out: Seq::empty() };
    let after_front = start.run(front, front.len());
    assert(after_front == start || after_front == waiting) by {
        leading_blanks(front, front.len());
    }
    run_append(start, front, text, text.len());
    word_is_kept(after_front, text, text.len());
    assert(Seq::<char>::empty() + text.subrange(0, text.len() as int) =~= text);
    let after_text = Words { pending: None, in_white: false, out: text };
    run_append(start, front + text, back, back.len());
    if back.len() > 0 {
        blanks_collapse(after_text, back, back.len());
        assert(text.push('_').drop_last() =~= text);
    }
}

/// A punctuation character between two words is spelled out as its word,
/// with one underscore on either side.
pub proof fn symbol_is_spelled(first: Seq<char>, symbol: char, second: Seq<char>)
    requires
        word(first),
        first.len() > 0,
        symbol_word(symbol) is Some,
        word(second),
        second.len() > 0,
    ensures
        sanitised(first + seq![symbol] + second) == first.push('_') + symbol_word(symbol)->0.push(
            '_',
        ) + second,
{
    let start = Words::start();
    let spelled = symbol_word(symbol)->0;
    run_append(start, first, seq![symbol], 1);
    word_is_kept(start, first, first.len());
    assert(Seq::<char>::empty() + first.subrange(0, first.len() as int) =~= first);
    let after_first = Words { pending: None, in_white: false, out: first };
    assert(after_first.run(seq![symbol], 0) == after_first);
    let after_symbol = Words {
        pending: None,
        in_white: true,
        out: (first.push('_') + spelled).push('_'),
    };
    assert(after_first.run(seq![symbol], 1) == after_symbol);
    run_append(start, first + seq![symbol], second, second.len());
    word_is_kept(after_symbol, second, second.len());
    assert(second.subrange(0, second.len() as int) =~= second);
    assert((first.push('_') + spelled).push('_') + second =~= first.push('_') + spelled.push('_')
        + second);
}

/// An opener that is directly followed by its closer is spelled out as one
/// word for the pair.
pub proof fn pair_is_spelled(first: Seq<char>, opening: char, second: Seq<char>)
    requires
        word(first),
        first.len() > 0,
        is_opener(opening),
        word(second),
        second.len() > 0,
    ensures
        sanitised(first + seq![opening, closer_of(opening)] + second) == first.push('_')
            + pair_word(opening).push('_') + second,
{
    let start = Words::start();
    let pair = seq![opening, closer_of(opening)];
    let spelled = pair_word(opening);
    run_append(start, first, pair, 2);
    word_is_kept(start, first, first.len());
    assert(Seq::<char>::empty() + first.subrange(0, first.len() as int) =~= first);
    let after_first = Words { pending: None, in_white: false, out: first };
    assert(after_first.run(pair, 0) == after_first);
    assert(symbol_word(opening) is None);
    assert(after_first.run(pair, 1) == (Words {
        pending: Some(opening),
        in_white: false,
        out: first,
    }));
    let after_pair = Words {
        pending: None,
        in_white: true,
        out: (first.push('_') + spelled).push('_'),
    };
    assert(after_first.run(pair, 2) == after_pair);
    run_append(start, first + pair, second, second.len());
    word_is_kept(after_pair, second, second.len());
    assert(second.subrange(0, second.len() as int) =~= second);
    assert((first.push('_') + spelled).push('_') + second =~= first.push('_') + spelled.push('_')
        + second);
}

/// An opener that is followed by a character of a word is spelled out as
/// the word for the opener alone.
pub proof fn opener_is_spelled(first: Seq<char>, opening: char, second: Seq<char>)
    requires
        word(first),
        first.len() > 0,
        is_opener(opening),
        word(second),
        second.len() > 0,
    ensures
        sanitised(first + seq![opening] + second) == first.push('_') + single_word(opening).push(
            '_',
        ) + second,
{
    let start = Words::start();
    let spelled = single_word(opening);
    run_append(start, first, seq![opening], 1);
    word_is_kept(start, first, first.len());
    assert(Seq::<char>::empty() + first.subrange(0, first.len() as int) =~= first);
    let after_first = Words { pending: None, in_white: false, out: first };
    assert(after_first.run(seq![opening], 0) == after_first);
    assert(symbol_word(opening) is None);
    let waiting = Words { pending: Some(opening), in_white: false, out: first };
    assert(after_first.run(seq![opening], 1) == waiting);
    run_append(start, first + seq![opening], second, second.len());
    assert(kept_as_is(second[0]));
    assert(second[0] != closer_of(opening));
    let settled = Words { pending: None, in_white: true, out: (first.push('_') + spelled).push('_') };
    let begun = Words { pending: None, in_white: false, out: settled.out.push(second[0]) };
    assert(waiting.run(second, 0) == waiting);
    assert(waiting.run(second, 1) == begun);
    if second.len() > 1 {
        let rest = second.subrange(1, second.len() as int);
        assert(second =~= seq![second[0]] + rest);
        assert(word(rest)) by {
            assert forall|i: int| 0 <= i < rest.len() implies kept_as_is(#[trigger] rest[i]) by {
                assert(rest[i] == second[i + 1]);
            }
        }
        run_append(waiting, seq![second[0]], rest, rest.len());
        assert(waiting.run(seq![second[0]], 0) == waiting);
        assert(waiting.run(seq![second[0]], 1) == begun);
        word_is_kept(begun, rest, rest.len());
        assert(rest.subrange(0, rest.len() as int) =~= rest);
        assert(settled.out.push(second[0]) + rest =~= first.push('_') + spelled.push('_') + second);
    } else {
        assert(settled.out.push(second[0]) =~= first.push('_') + spelled.push('_') + second);
    }
}

/// White space and underscores at the very beginning write nothing.
proof fn leading_blanks(text: Seq<char>, n: nat)
    requires
        blanks(text),
        n <= text.len(),
    ensures
        n == 0 ==> Words::start().run(text, n) == Words::start(),
        n > 0 ==> Words::start().run(text, n) == (Words {
            pending: None,
            in_white: true,
            out: Seq::empty(),
        }),
    decreases n,
{
    if n > 0 {
        assert(blank(text[n - 1]));
        leading_blanks(text, (n - 1) as nat);
    }
}

/// Whether the character is a small letter of the alphabet or an
/// underscore.
pub open spec fn is_word_char(c: char) -> bool {
    c == '_' || ('a' <= c && c <= 'z')
}

/// Whether the text is made of small letters and single underscores
/// between them.
pub open spec fn is_spelling(text: Seq<char>) -> bool {
    &&& text.len() > 0
    &&& text[0] != '_'
    &&& text.last() != '_'
    &&& forall|i: int| 0 <= i < text.len() ==> is_word_char(#[trigger] text[i])
    &&& forall|i: int| 0 < i < text.len() ==> !(text[i - 1] == '_' && #[trigger] text[i] == '_')
}

/// Each word that spells a character or a pair is made of small letters and
/// single underscores between them.
pub proof fn words_are_spellings(c: char)
    ensures
        symbol_word(c) matches Some(w) ==> is_spelling(w),
        is_spelling(pair_word(c)),
        is_spelling(single_word(c)),
{
    reveal_strlit("comma");
    reveal_strlit("ampersand");
    reveal_strlit("dot");
    reveal_strlit("equals");
    reveal_strlit("slash");
    reveal_strlit("star");
    reveal_strlit("plus");
    reveal_strlit("minus");
    reveal_strlit("hat");
    reveal_strlit("percent");
    reveal_strlit("at");
    reveal_strlit("question_mark");
    reveal_strlit("exclamation");
    reveal_strlit("close_bracket");
    reveal_strlit("close_paren");
    reveal_strlit("close_brace");
    reveal_strlit("close_angle_bracket");
    reveal_strlit("colon");
    reveal_strlit("semicolon");
    reveal_strlit("pipe");
    reveal_strlit("hash");
    reveal_strlit("dollars");
    reveal_strlit("backtick");
    reveal_strlit("tilde");
    reveal_strlit("backslash");
    reveal_strlit("brackets");
    reveal_strlit("parens");
    reveal_strlit("braces");
    reveal_strlit("angle_brackets");
    reveal_strlit("single_quotes");
    reveal_strlit("quotes");
    reveal_strlit("open_bracket");
    reveal_strlit("open_paren");
    reveal_strlit("open_brace");
    reveal_strlit("open_angle_bracket");
    reveal_strlit("single_quote");
    reveal_strlit("quote");
}

/// Whether the text is fit to be part of an identifier: it is made of
/// small letters, characters that may stand in an identifier and single
/// underscores between them, with no underscore in front or behind.
pub open spec fn is_clean(text: Seq<char>) -> bool {
    &&& forall|i: int|
        0 <= i < text.len() ==> is_word_char(#[trigger] text[i]) || is_ident_char(text[i])
    &&& text.len() > 0 ==> text[0] != '_' && text.last() != '_'
    &&& forall|i: int| 0 < i < text.len() ==> !(text[i - 1] == '_' && #[trigger] text[i] == '_')
}

impl Words {
    /// What holds of the text of every state of a scan: it is clean but
    /// for the underscore of the boundary that it may end in.
    pub open spec fn tidy(self) -> bool {
        &&& self.wf()
        &&& forall|i: int|
            0 <= i < self.out.len() ==> is_word_char(#[trigger] self.out[i]) || is_ident_char(
                self.out[i],
            )
        &&& self.out.len() > 0 ==> self.out[0] != '_'
        &&& forall|i: int|
            0 < i < self.out.len() ==> !(self.out[i - 1] == '_' && #[trigger] self.out[i] == '_')
        &&& !self.in_white && self.out.len() > 0 ==> self.out.last() != '_'
    }
}

/// Writing a word keeps the text tidy.
proof fn word_keeps_tidy(from: Words, word: Seq<char>)
    requires
        from.tidy(),
        is_spelling(word),
    ensures
        from.push_word(word).tidy(),
{
    let begun = from.push_space();
    let written = begun.out + word;
    assert forall|i: int| 0 <= i < written.len() implies is_word_char(#[trigger] written[i])
        || is_ident_char(written[i]) by {
        if i >= begun.out.len() {
            assert(written[i] == word[i - begun.out.len()]);
        }
    }
    assert forall|i: int| 0 < i < written.len() implies !(written[i - 1] == '_'
        && #[trigger] written[i] == '_') by {
        if i > begun.out.len() {
            assert(written[i] == word[i - begun.out.len()]);
            assert(written[i - 1] == word[i - 1 - begun.out.len()]);
        } else if i == begun.out.len() {
            assert(written[i] == word[0]);
        }
    }
    assert(written.last() == word.last());
}

/// Taking a character keeps the text tidy.
proof fn step_keeps_tidy(from: Words, c: char)
    requires
        from.tidy(),
    ensures
        from.step(c).tidy(),
{
    words_are_spellings(c);
    let (settled, used) = from.consume_with_pending(c);
    match from.pending {
        Some(opening) => {
            words_are_spellings(opening);
            let rest = Words { pending: None, in_white: from.in_white, out: from.out };
            word_keeps_tidy(rest, pair_word(opening));
            word_keeps_tidy(rest, single_word(opening));
        },
        None => {},
    }
    assert(settled.tidy());
    if !used {
        if c != '_' && symbol_word(c) is Some {
            word_keeps_tidy(settled, symbol_word(c)->0);
        }
    }
}

/// Taking characters keeps the text tidy.
proof fn run_keeps_tidy(from: Words, text: Seq<char>, n: nat)
    requires
        from.tidy(),
    ensures
        from.run(text, n).tidy(),
    decreases n,
{
    if n == 0 || n > text.len() {
    } else {
        run_keeps_tidy(from, text, (n - 1) as nat);
        step_keeps_tidy(from.run(text, (n - 1) as nat), text[n - 1]);
    }
}

/// Whatever the text, its sanitised form is fit to be part of an
/// identifier: it holds nothing but small letters, characters that may
/// stand in an identifier and single underscores between them.
pub proof fn sanitised_is_clean(text: Seq<char>)
    ensures
        is_clean(sanitised(text)),
{
    run_keeps_tidy(Words::start(), text, text.len());
}

/// The most characters that a scanner sets room aside for before it has
/// seen any.
pub const ROOM_AT_ONCE: usize = 1024;

/// The scanner that assembles a sanitised name.
pub struct WhitespaceSeparatedWords {
    pending: Option<char>,
    in_white: bool,
    out: Vec<char>,
}

impl View for WhitespaceSeparatedWords {
    type V = Words;

    closed spec fn view(&self) -> Words {
        Words { pending: self.pending, in_white: self.in_white, out: self.out@ }
    }
}

/// The word that spells a punctuation character, if it has one.
fn word_for(c: char) -> (r: Option<&'static str>)
    ensures
        r matches Some(w) ==> symbol_word(c) == Some(w@),
        r is None ==> symbol_word(c) is None,
{
    if c == ',' {
        Some("comma")
    } else if c == '&' {
        Some("ampersand")
    } else if c == '.' {
        Some("dot")
    } else if c == '=' {
        Some("equals")
    } else if c == '/' {
        Some("slash")
    } else if c == '*' {
        Some("star")
    } else if c == '+' {
        Some("plus")
    } else if c == '-' {
        Some("minus")
    } else if c == '^' {
        Some("hat")
    } else if c == '%' {
        Some("percent")
    } else if c == '@' {
        Some("at")
    } else if c == '?' {
        Some("question_mark")
    } else if c == '!' {
        Some("exclamation")
    } else if c == ']' {
        Some("close_bracket")
    } else if c == ')' {
        Some("close_paren")
    } else if c == '}' {
        Some("close_brace")
    } else if c == '>' {
        Some("close_angle_bracket")
    } else if c == ':' {
        Some("colon")
    } else if c == ';' {
        Some("semicolon")
    } else if c == '|' {
        Some("pipe")
    } else if c == '#' {
        Some("hash")
    } else if c == '$' {
        Some("dollars")
    } else if c == '`' {
        Some("backtick")
    } else if c == '~' {
        Some("tilde")
    } else if c == '\\' {
        Some("backslash")
    } else {
        None
    }
}

/// Whether the character opens a pair.
fn opener(c: char) -> (r: bool)
    ensures
        r == is_opener(c),
{
    c == '[' || c == '(' || c == '{' || c == '<' || c == '\'' || c == '"'
}

/// The character that closes the pair that `opening` opens.
fn closer(opening: char) -> (r: char)
    ensures
        r == closer_of(opening),
{
    if opening == '[' {
        ']'
    } else if opening == '(' {
        ')'
    } else if opening == '{' {
        '}'
    } else if opening == '<' {
        '>'
    } else {
        opening
    }
}

/// The word for an opener directly followed by its closer.
fn pair_word_for(opening: char) -> (r: &'static str)
    ensures
        r@ == pair_word(opening),
{
    if opening == '[' {
        "brackets"
    } else if opening == '(' {
        "parens"
    } else if opening == '{' {
        "braces"
    } else if opening == '<' {
        "angle_brackets"
    } else if opening == '\'' {
        "single_quotes"
    } else {
        "quotes"
    }
}

/// The word for an opener that is not directly followed by its closer.
fn single_word_for(opening: char) -> (r: &'static str)
    ensures
        r@ == single_word(opening),
{
    if opening == '[' {
        "open_bracket"
    } else if opening == '(' {
        "open_paren"
    } else if opening == '{' {
        "open_brace"
    } else if opening == '<' {
        "open_angle_bracket"
    } else if opening == '\'' {
        "single_quote"
    } else {
        "quote"
    }
}

impl WhitespaceSeparatedWords {
    /// A scanner that has seen nothing. `size` is the length of the text to
    /// come: room for as much is set aside at once, up to
    /// [`ROOM_AT_ONCE`] characters. It does not change what is assembled.
    pub fn new(size: usize) -> (r: Self)
        ensures
            r@ == Words::start(),
    {
        let room = if size < ROOM_AT_ONCE {
            size
        } else {
            ROOM_AT_ONCE
        };
        Self { pending: None, in_white: false, out: Vec::with_capacity(room) }
    }

    /// Begins a boundary: an underscore, unless nothing has been written yet.
    pub fn start_white(&mut self)
        ensures
            final(self)@ == old(self)@.start_white(),
    {
        if self.out.len() > 0 {
            self.out.push('_');
        }
        self.in_white = true;
    }

    /// Writes a word between boundaries.
    pub fn push_word(&mut self, word: &str)
        ensures
            final(self)@ == old(self)@.push_word(word@),
    {
        self.push_space();
        push_text(&mut self.out, word);
        self.start_white();
    }

    /// Writes a character of a word.
    pub fn push_char(&mut self, c: char)
        ensures
            final(self)@ == old(self)@.push_char(c),
    {
        if self.in_white {
            self.in_white = false;
        }
        self.out.push(c);
    }

    /// Takes a white space character: it begins a boundary or continues one.
    pub fn push_space(&mut self)
        ensures
            final(self)@ == old(self)@.push_space(),
    {
        if !self.in_white {
            self.start_white();
        }
    }

    /// Takes an underscore: like white space, it begins a boundary or
    /// continues one.
    pub fn push_underscore(&mut self)
        ensures
            final(self)@ == old(self)@.push_underscore(),
    {
        self.push_space();
    }

    /// Lets an opener wait for the next character.
    pub fn push_pending(&mut self, c: char)
        ensures
            final(self)@ == old(self)@.push_pending(c),
    {
        self.pending = Some(c);
    }

    /// Writes the word for a pair; the answer says that the closer is used
    /// up.
    pub fn push_pair_word(&mut self, word: &str) -> (used: bool)
        ensures
            used,
            final(self)@ == old(self)@.push_word(word@),
    {
        self.push_word(word);
        true
    }

    /// Writes the word for an opener alone; the answer says that the
    /// character after it is still to be taken.
    pub fn push_single_word(&mut self, word: &str) -> (used: bool)
        ensures
            !used,
            final(self)@ == old(self)@.push_word(word@),
    {
        self.push_word(word);
        false
    }

    /// Settles a waiting opener against the character `c` that follows it.
    /// The answer says whether `c` was the closer and is used up.
    pub fn consume_with_pending(&mut self, c: char) -> (used: bool)
        ensures
            (final(self)@, used) == old(self)@.consume_with_pending(c),
    {
        let waiting = self.pending;
        match waiting {
            Some(opening) => {
                self.pending = None;
                if opener(opening) {
                    if c == closer(opening) {
                        self.push_pair_word(pair_word_for(opening))
                    } else {
                        self.push_single_word(single_word_for(opening))
                    }
                } else {
                    false
                }
            },
            None => false,
        }
    }

    /// Takes one character when no opener waits.
    pub fn consume_char(&mut self, c: char)
        ensures
            final(self)@ == old(self)@.consume_char(c),
    {
        if c == '_' {
            self.push_underscore();
        } else {
            match word_for(c) {
                Some(word) => {
                    self.push_word(word);
                },
                None => {
                    if opener(c) {
                        self.push_pending(c);
                    } else if is_whitespace(c) {
                        self.push_space();
                    } else if ident_char(c) {
                        self.push_char(c);
                    }
                },
            }
        }
    }

    /// Hands out the assembled text and leaves the scanner with none.
    pub fn build(&mut self) -> (r: String)
        ensures
            r@ == old(self)@.build(),
            final(self)@ == (Words { pending: old(self)@.pending, in_white: false, out: Seq::empty() }),
    {
        if self.in_white {
            let _ = self.out.pop();
        }
        self.in_white = false;
        let r = string_of(&self.out);
        self.out = Vec::new();
        r
    }
}

/// Sanitises `text`.
pub fn sanitise(text: &str) -> (r: String)
    ensures
        r@ == sanitised(text@),
{
    let chars = chars_of(text);
    let mut builder = WhitespaceSeparatedWords::new(chars.len());
    let mut i: usize = 0;
    while i < chars.len()
        invariant
            i <= chars.len(),
            chars@ == text@,
            builder@ == Words::scan(text@, i as nat),
        decreases chars.len() - i,
    {
        let c = chars[i];
        if !builder.consume_with_pending(c) {
            builder.consume_char(c);
        }
        i += 1;
    }
    builder.build()
}

} // verus!
