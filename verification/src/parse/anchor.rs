//! What may follow an anchor.
use vstd::prelude::*;
use crate::string_lit::{literal_text, string_as_string_literal};
use crate::text::{chars_of, string_of};
use crate::token::{shown, Token, TokenView};

verus! {

/// The kinds of assertion that a second anchor can ask for.
#[derive(Clone, Copy, PartialEq, Eq, Structural, Debug)]
pub enum Dollars {
    /// `$eq`: both sides are equal.
    AssertEq,
    /// `$ne`: the sides differ.
    AssertNotEq,
}

impl Dollars {
    /// The word that asks for this kind.
    pub open spec fn word(self) -> Seq<char> {
        match self {
            Dollars::AssertEq => "eq"@,
            Dollars::AssertNotEq => "ne"@,
        }
    }

    /// The word that asks for this kind.
    pub fn name(&self) -> (r: &'static str)
        ensures
            r@ == self.word(),
    {
        match self {
            Dollars::AssertEq => "eq",
            Dollars::AssertNotEq => "ne",
        }
    }

    /// The words for all kinds, as they are listed in a message.
    pub open spec fn spec_list() -> Seq<char> {
        "eq,ne"@
    }

    /// The words for all kinds, as they are listed in a message.
    pub fn list() -> (r: &'static str)
        ensures
            r@ == Dollars::spec_list(),
    {
        "eq,ne"
    }
}

/// The kind of assertion that the word `ident` asks for.
pub open spec fn dollars_of(ident: Seq<char>) -> Option<Dollars> {
    if ident == seq!['e', 'q'] {
        Some(Dollars::AssertEq)
    } else if ident == seq!['n', 'e'] {
        Some(Dollars::AssertNotEq)
    } else {
        None
    }
}

/// The lower case form of an ASCII capital; other characters as they are.
pub open spec fn lower_char(c: char) -> char {
    if 'A' <= c && c <= 'Z' {
        ((c as u8) + 32) as char
    } else {
        c
    }
}

/// The text with its ASCII capitals in lower case.
pub open spec fn lower(text: Seq<char>) -> Seq<char> {
    text.map_values(|c: char| lower_char(c))
}

/// The text with its ASCII capitals in lower case.
pub fn ascii_lowercase(text: &str) -> (r: String)
    ensures
        r@ == lower(text@),
{
    let chars = chars_of(text);
    let mut out: Vec<char> = Vec::new();
    let mut i: usize = 0;
    while i < chars.len()
        invariant
            i <= chars.len(),
            out@ == lower(chars@.subrange(0, i as int)),
        decreases chars.len() - i,
    {
        let c = chars[i];
        let l = if 'A' <= c && c <= 'Z' {
            ((c as u8) + 32) as char
        } else {
            c
        };
        out.push(l);
        i += 1;
        assert(out@ =~= lower(chars@.subrange(0, i as int)));
    }
    assert(chars@.subrange(0, chars.len() as int) =~= chars@);
    string_of(&out)
}

/// The view of the outcome of [`dollars_ident_match`].
pub open spec fn ident_match_view(r: Result<Dollars, String>) -> Result<Dollars, Seq<char>> {
    match r {
        Ok(d) => Ok(d),
        Err(s) => Err(s@),
    }
}

/// Tells which kind of assertion the word asks for; a word that asks for
/// none is handed back.
pub fn dollars_ident_match(ident: String) -> (r: Result<Dollars, String>)
    ensures
        ident_match_view(r) == match dollars_of(ident@) {
            Some(d) => Ok::<Dollars, Seq<char>>(d),
            None => Err::<Dollars, Seq<char>>(ident@),
        },
{
    let chars = chars_of(ident.as_str());
    if chars.len() == 2 {
        if chars[0] == 'e' && chars[1] == 'q' {
            assert(chars@ =~= seq!['e', 'q']);
            return Ok(Dollars::AssertEq);
        }
        if chars[0] == 'n' && chars[1] == 'e' {
            assert(chars@ =~= seq!['n', 'e']);
            return Ok(Dollars::AssertNotEq);
        }
    }
    assert(dollars_of(ident@) is None) by {
        if ident@ == seq!['e', 'q'] {
            assert(chars@.len() == 2 && chars@[0] == 'e' && chars@[1] == 'q');
        }
        if ident@ == seq!['n', 'e'] {
            assert(chars@.len() == 2 && chars@[0] == 'n' && chars@[1] == 'e');
        }
    }
    Err(ident)
}

/// What the token behind an anchor is taken for, as a mathematical value.
pub enum MatchView {
    /// A name, with its text.
    Name(Seq<char>),
    /// A literal that is no string literal, as it is written and why not.
    InvalidName(Seq<char>, Seq<char>),
    /// The word for an assertion.
    ValidDollars(Dollars),
    /// The word for an assertion, but not in lower case.
    InvalidDollars(Dollars),
    /// Something else, as it is shown.
    OtherInvalid(Seq<char>),
    /// The end of the declaration.
    SemiColon,
}

/// What the token behind an anchor is taken for.
#[derive(Debug)]
pub enum MatchResult {
    /// A name, with its text.
    Name(String),
    /// A literal that is no string literal, as it is written and why not.
    InvalidName(String, String),
    /// The word for an assertion.
    ValidDollars(Dollars),
    /// The word for an assertion, but not in lower case.
    InvalidDollars(Dollars),
    /// Something else, as it is shown.
    OtherInvalid(String),
    /// The end of the declaration.
    SemiColon,
}

impl View for MatchResult {
    type V = MatchView;

    open spec fn view(&self) -> MatchView {
        match self {
            MatchResult::Name(text) => MatchView::Name(text@),
            MatchResult::InvalidName(written, why) => MatchView::InvalidName(written@, why@),
            MatchResult::ValidDollars(d) => MatchView::ValidDollars(*d),
            MatchResult::InvalidDollars(d) => MatchView::InvalidDollars(*d),
            MatchResult::OtherInvalid(found) => MatchView::OtherInvalid(found@),
            MatchResult::SemiColon => MatchView::SemiColon,
        }
    }
}

/// What a word behind an anchor is taken for. A word that asks for no
/// assertion is reported in lower case.
pub open spec fn word_match(text: Seq<char>) -> MatchView {
    match dollars_of(text) {
        Some(d) => MatchView::ValidDollars(d),
        None => match dollars_of(lower(text)) {
            Some(d) => MatchView::InvalidDollars(d),
            None => MatchView::OtherInvalid(lower(text)),
        },
    }
}

/// What a literal behind an anchor is taken for, from the way it is
/// written.
pub open spec fn literal_match(written: Seq<char>) -> MatchView {
    match literal_text(written) {
        Ok(text) => MatchView::Name(text),
        Err(why) => MatchView::InvalidName(written, why),
    }
}

/// What the token behind an anchor is taken for.
pub open spec fn dollars_matched(token: TokenView) -> MatchView {
    match token {
        TokenView::Literal { text, span } => literal_match(text),
        TokenView::Str { value, span } => literal_match(shown(token)),
        TokenView::Ident { text, span } => word_match(text),
        TokenView::Punct { ch, joint, span } => if ch == ';' {
            MatchView::SemiColon
        } else {
            MatchView::OtherInvalid(shown(token))
        },
        TokenView::Group { delimiter, stream, span } => MatchView::OtherInvalid(shown(token)),
    }
}

/// What a literal behind an anchor is taken for.
fn match_literal(written: String) -> (r: MatchResult)
    ensures
        r@ == literal_match(written@),
{
    match string_as_string_literal(written.as_str()) {
        Ok(text) => MatchResult::Name(text),
        Err(why) => MatchResult::InvalidName(written, why),
    }
}

/// Tells what the token behind an anchor is taken for.
pub fn dollars_match(tok: &Token) -> (r: MatchResult)
    ensures
        r@ == dollars_matched(tok@),
{
    match tok {
        Token::Literal { text, .. } => match_literal(text.clone()),
        Token::Str { .. } => match_literal(tok.to_text()),
        Token::Ident { text, .. } => match dollars_ident_match(text.clone()) {
            Ok(dollars) => MatchResult::ValidDollars(dollars),
            Err(rejected) => match dollars_ident_match(ascii_lowercase(rejected.as_str())) {
                Ok(dollars) => MatchResult::InvalidDollars(dollars),
                Err(rejected) => MatchResult::OtherInvalid(rejected),
            },
        },
        Token::Punct { ch, .. } => {
            if *ch == ';' {
                MatchResult::SemiColon
            } else {
                MatchResult::OtherInvalid(tok.to_text())
            }
        },
        Token::Group { .. } => MatchResult::OtherInvalid(tok.to_text()),
    }
}

} // verus!
