//! The tokens that the expansion reads and writes.
//!
//! A token is a leaf (an identifier, a punctuation character, a literal) or
//! a group: a delimiter around a sequence of tokens. The expansion never
//! looks into what a token means. It reads the anchors, names and braces of
//! the notation and hands everything else on.
use vstd::prelude::*;
use crate::span::Span;
use crate::text::{push_text, string_of};

verus! {

/// The brackets of a group.
#[derive(Clone, Copy, PartialEq, Eq, Structural, Debug)]
pub enum Delimiter {
    /// `( ... )`
    Parenthesis,
    /// `{ ... }`
    Brace,
    /// `[ ... ]`
    Bracket,
}

/// A token.
#[derive(Debug)]
pub enum Token {
    /// An identifier or a keyword.
    Ident { text: String, span: Span },
    /// One punctuation character. `joint` says that the next token follows
    /// it directly and forms one operator with it.
    Punct { ch: char, joint: bool, span: Span },
    /// A literal, kept as it is written in the source.
    Literal { text: String, span: Span },
    /// A string literal that is given by the text it stands for. How it is
    /// written in the source is left to whoever writes the tokens out.
    Str { value: String, span: Span },
    /// A delimited sequence of tokens.
    Group { delimiter: Delimiter, stream: Vec<Token>, span: Span },
}

/// A token, as a mathematical value.
pub enum TokenView {
    Ident { text: Seq<char>, span: Span },
    Punct { ch: char, joint: bool, span: Span },
    Literal { text: Seq<char>, span: Span },
    Str { value: Seq<char>, span: Span },
    Group { delimiter: Delimiter, stream: Seq<TokenView>, span: Span },
}

/// The views of a sequence of tokens.
pub open spec fn stream_view(tokens: Seq<Token>) -> Seq<TokenView>
    decreases tokens, 0nat,
{
    if tokens.len() == 0 {
        Seq::empty()
    } else {
        stream_view(tokens.drop_last()).push(token_view(tokens.last()))
    }
}

/// The view of a token.
pub open spec fn token_view(token: Token) -> TokenView
    decreases token, 1nat,
{
    match token {
        Token::Ident { text, span } => TokenView::Ident { text: text@, span },
        Token::Punct { ch, joint, span } => TokenView::Punct { ch, joint, span },
        Token::Literal { text, span } => TokenView::Literal { text: text@, span },
        Token::Str { value, span } => TokenView::Str { value: value@, span },
        Token::Group { delimiter, stream, span } => TokenView::Group {
            delimiter,
            stream: stream_view(stream@),
            span,
        },
    }
}

impl View for Token {
    type V = TokenView;

    open spec fn view(&self) -> TokenView {
        token_view(*self)
    }
}

/// The views of a sequence are as many as the tokens, and each is the view
/// of the token at its place.
pub proof fn stream_view_index(tokens: Seq<Token>)
    ensures
        stream_view(tokens).len() == tokens.len(),
        forall|i: int| 0 <= i < tokens.len() ==> (#[trigger] stream_view(tokens)[i]) == tokens[i]@,
    decreases tokens.len(),
{
    if tokens.len() > 0 {
        stream_view_index(tokens.drop_last());
    }
}

/// Sequences of tokens that agree in the views of their tokens have the same
/// views.
pub proof fn stream_view_same(left: Seq<Token>, right: Seq<Token>)
    requires
        left.len() == right.len(),
        forall|i: int| 0 <= i < left.len() ==> left[i]@ == right[i]@,
    ensures
        stream_view(left) == stream_view(right),
{
    stream_view_index(left);
    stream_view_index(right);
    assert(stream_view(left) =~= stream_view(right));
}

/// Adding a token to a sequence adds its view to the views.
pub proof fn stream_view_push(tokens: Seq<Token>, token: Token)
    ensures
        stream_view(tokens.push(token)) == stream_view(tokens).push(token@),
{
    assert(tokens.push(token).drop_last() =~= tokens);
}

/// The views of two sequences in a row are the views of the first and then
/// those of the second.
pub proof fn stream_view_add(front: Seq<Token>, back: Seq<Token>)
    ensures
        stream_view(front + back) == stream_view(front) + stream_view(back),
{
    stream_view_index(front);
    stream_view_index(back);
    stream_view_index(front + back);
    assert(stream_view(front + back) =~= stream_view(front) + stream_view(back));
}

impl TokenView {
    /// Where the token stood.
    pub open spec fn span(self) -> Span {
        match self {
            TokenView::Ident { text, span } => span,
            TokenView::Punct { ch, joint, span } => span,
            TokenView::Literal { text, span } => span,
            TokenView::Str { value, span } => span,
            TokenView::Group { delimiter, stream, span } => span,
        }
    }

    /// Whether the token is the punctuation character `c`.
    pub open spec fn is_punct(self, c: char) -> bool {
        self matches TokenView::Punct { ch, .. } && ch == c
    }

    /// Whether the token is a group in braces.
    pub open spec fn is_braced(self) -> bool {
        self matches TokenView::Group { delimiter, .. } && delimiter == Delimiter::Brace
    }
}

impl Clone for Token {
    fn clone(&self) -> (r: Self)
        ensures
            r@ == self@,
        decreases self,
    {
        match self {
            Token::Ident { text, span } => Token::Ident { text: text.clone(), span: *span },
            Token::Punct { ch, joint, span } => Token::Punct {
                ch: *ch,
                joint: *joint,
                span: *span,
            },
            Token::Literal { text, span } => Token::Literal { text: text.clone(), span: *span },
            Token::Str { value, span } => Token::Str { value: value.clone(), span: *span },
            Token::Group { delimiter, stream, span } => {
                let mut copy: Vec<Token> = Vec::new();
                let mut i: usize = 0;
                while i < stream.len()
                    invariant
                        i <= stream.len(),
                        decreases_to!(self => stream),
                        copy@.len() == i,
                        forall|k: int| 0 <= k < i ==> copy@[k]@ == stream@[k]@,
                    decreases stream.len() - i,
                {
                    proof {
                        vstd::std_specs::vec::axiom_vec_index_decreases(*stream, i as int);
                    }
                    copy.push(stream[i].clone());
                    i += 1;
                }
                proof {
                    stream_view_same(copy@, stream@);
                }
                Token::Group { delimiter: *delimiter, stream: copy, span: *span }
            },
        }
    }
}

/// A copy of the tokens.
pub fn copy_tokens(tokens: &Vec<Token>) -> (r: Vec<Token>)
    ensures
        stream_view(r@) == stream_view(tokens@),
{
    let mut copy: Vec<Token> = Vec::new();
    let mut i: usize = 0;
    while i < tokens.len()
        invariant
            i <= tokens.len(),
            copy@.len() == i,
            forall|k: int| 0 <= k < i ==> copy@[k]@ == tokens@[k]@,
        decreases tokens.len() - i,
    {
        copy.push(tokens[i].clone());
        i += 1;
    }
    proof {
        stream_view_same(copy@, tokens@);
    }
    copy
}

/// Moves the tokens of `more` to the end of `tokens`.
pub fn extend_tokens(tokens: &mut Vec<Token>, more: Vec<Token>)
    ensures
        stream_view(final(tokens)@) == stream_view(old(tokens)@) + stream_view(more@),
{
    let mut more = more;
    let ghost before = tokens@;
    let ghost added = more@;
    tokens.append(&mut more);
    proof {
        stream_view_add(before, added);
    }
}

impl Token {
    /// Where the token stood.
    pub fn span(&self) -> (r: Span)
        ensures
            r == self@.span(),
    {
        match self {
            Token::Ident { span, .. } => *span,
            Token::Punct { span, .. } => *span,
            Token::Literal { span, .. } => *span,
            Token::Str { span, .. } => *span,
            Token::Group { span, .. } => *span,
        }
    }

    /// Whether the token is the punctuation character `c`.
    pub fn is_punct(&self, c: char) -> (r: bool)
        ensures
            r == self@.is_punct(c),
    {
        match self {
            Token::Punct { ch, .. } => *ch == c,
            _ => false,
        }
    }

    /// Whether the token is a group in braces.
    pub fn is_braced(&self) -> (r: bool)
        ensures
            r == self@.is_braced(),
    {
        match self {
            Token::Group { delimiter, .. } => match delimiter {
                Delimiter::Brace => true,
                _ => false,
            },
            _ => false,
        }
    }
}

/// The opening bracket of a group, as it is shown.
pub open spec fn opening(delimiter: Delimiter) -> Seq<char> {
    match delimiter {
        Delimiter::Parenthesis => seq!['('],
        Delimiter::Brace => seq!['{', ' '],
        Delimiter::Bracket => seq!['['],
    }
}

/// The closing bracket of a group.
pub open spec fn closing(delimiter: Delimiter) -> char {
    match delimiter {
        Delimiter::Parenthesis => ')',
        Delimiter::Brace => '}',
        Delimiter::Bracket => ']',
    }
}

/// What stands between the token at place `i` and the one before it when a
/// sequence is shown: a blank, but nothing at the front and nothing behind
/// a punctuation character that is joined to its successor.
pub open spec fn gap(tokens: Seq<TokenView>, i: int) -> Seq<char> {
    if i <= 0 || i > tokens.len() {
        Seq::empty()
    } else {
        match tokens[i - 1] {
            TokenView::Punct { ch, joint, span } => if joint {
                Seq::empty()
            } else {
                seq![' ']
            },
            _ => seq![' '],
        }
    }
}

/// The first `n` tokens of a sequence as they are shown in a message.
pub open spec fn shown_stream(tokens: Seq<TokenView>, n: nat) -> Seq<char>
    decreases tokens, n,
{
    if n == 0 || n > tokens.len() {
        Seq::empty()
    } else {
        shown_stream(tokens, (n - 1) as nat) + gap(tokens, n - 1) + shown(tokens[n - 1])
    }
}

/// A token as it is shown in a message: a leaf as it is written, a string
/// by its text between quotes, a group by its brackets around its tokens.
/// Braces keep a blank inside on either side.
pub open spec fn shown(token: TokenView) -> Seq<char>
    decreases token, 0nat,
{
    match token {
        TokenView::Ident { text, span } => text,
        TokenView::Punct { ch, joint, span } => seq![ch],
        TokenView::Literal { text, span } => text,
        TokenView::Str { value, span } => seq!['"'] + value + seq!['"'],
        TokenView::Group { delimiter, stream, span } => {
            let inside = opening(delimiter) + shown_stream(stream, stream.len());
            if delimiter == Delimiter::Brace && stream.len() > 0 {
                inside.push(' ').push(closing(delimiter))
            } else {
                inside.push(closing(delimiter))
            }
        },
    }
}

/// Appends the token, as it is shown in a message, to `out`.
fn show_into(token: &Token, out: &mut Vec<char>)
    ensures
        final(out)@ == old(out)@ + shown(token@),
    decreases token,
{
    let ghost before = out@;
    match token {
        Token::Ident { text, .. } => {
            push_text(out, text.as_str());
        },
        Token::Punct { ch, .. } => {
            out.push(*ch);
            assert(out@ =~= before + seq![*ch]);
        },
        Token::Literal { text, .. } => {
            push_text(out, text.as_str());
        },
        Token::Str { value, .. } => {
            out.push('"');
            push_text(out, value.as_str());
            out.push('"');
            assert(out@ =~= before + (seq!['"'] + value@ + seq!['"']));
        },
        Token::Group { delimiter, stream, .. } => {
            match delimiter {
                Delimiter::Parenthesis => {
                    out.push('(');
                },
                Delimiter::Brace => {
                    out.push('{');
                    out.push(' ');
                },
                Delimiter::Bracket => {
                    out.push('[');
                },
            }
            assert(out@ =~= before + opening(*delimiter));
            let ghost views = stream_view(stream@);
            let mut i: usize = 0;
            proof {
                stream_view_index(stream@);
            }
            while i < stream.len()
                invariant
                    i <= stream.len(),
                    decreases_to!(token => stream),
                    views == stream_view(stream@),
                    views.len() == stream.len(),
                    forall|k: int| 0 <= k < stream.len() ==> (#[trigger] views[k]) == stream@[k]@,
                    out@ == before + opening(*delimiter) + shown_stream(views, i as nat),
                decreases stream.len() - i,
            {
                proof {
                    vstd::std_specs::vec::axiom_vec_index_decreases(*stream, i as int);
                }
                let ghost so_far = out@;
                if i > 0 {
                    let joined = match &stream[i - 1] {
                        Token::Punct { joint, .. } => *joint,
                        _ => false,
                    };
                    assert(views[i - 1] == stream@[i - 1]@);
                    if !joined {
                        out.push(' ');
                    }
                }
                assert(out@ =~= so_far + gap(views, i as int));
                show_into(&stream[i], out);
                assert(views[i as int] == stream@[i as int]@);
                i += 1;
                assert(out@ =~= before + opening(*delimiter) + shown_stream(views, i as nat));
            }
            let braces = match delimiter {
                Delimiter::Brace => true,
                _ => false,
            };
            if braces && stream.len() > 0 {
                out.push(' ');
            }
            match delimiter {
                Delimiter::Parenthesis => {
                    out.push(')');
                },
                Delimiter::Brace => {
                    out.push('}');
                },
                Delimiter::Bracket => {
                    out.push(']');
                },
            }
            assert(out@ =~= before + shown(token@));
        },
    }
}

impl Token {
    /// The token as it is shown in a message.
    pub fn to_text(&self) -> (r: String)
        ensures
            r@ == shown(self@),
    {
        let mut out: Vec<char> = Vec::new();
        show_into(self, &mut out);
        assert(out@ =~= shown(self@));
        string_of(&out)
    }
}

/// The punctuation character `c`, standing alone.
pub fn punct(c: char, sp: Span) -> (r: Token)
    ensures
        r@ == (TokenView::Punct { ch: c, joint: false, span: sp }),
{
    Token::Punct { ch: c, joint: false, span: sp }
}

/// The identifier `id`.
pub fn ident(id: &str, sp: Span) -> (r: Token)
    ensures
        r@ == (TokenView::Ident { text: id@, span: sp }),
{
    Token::Ident { text: String::from_str(id), span: sp }
}

/// The string literal that stands for the text `s`.
pub fn lit_string(s: &str, sp: Span) -> (r: Token)
    ensures
        r@ == (TokenView::Str { value: s@, span: sp }),
{
    Token::Str { value: String::from_str(s), span: sp }
}

/// The tokens `toks` in braces.
pub fn braced(toks: Vec<Token>, sp: Span) -> (r: Token)
    ensures
        r@ == (TokenView::Group {
            delimiter: Delimiter::Brace,
            stream: stream_view(toks@),
            span: sp,
        }),
{
    group(Delimiter::Brace, toks, sp)
}

/// The tokens `stream` in braces, at the place of the expansion.
pub fn braced_stream(stream: Vec<Token>) -> (r: Token)
    ensures
        r@ == (TokenView::Group {
            delimiter: Delimiter::Brace,
            stream: stream_view(stream@),
            span: Span::call_site(),
        }),
{
    group(Delimiter::Brace, stream, Span::call_site())
}

/// The tokens `toks` in parentheses.
pub fn parenthesised(toks: Vec<Token>, sp: Span) -> (r: Token)
    ensures
        r@ == (TokenView::Group {
            delimiter: Delimiter::Parenthesis,
            stream: stream_view(toks@),
            span: sp,
        }),
{
    group(Delimiter::Parenthesis, toks, sp)
}

/// The tokens `toks` in square brackets.
pub fn bracketed(toks: Vec<Token>, sp: Span) -> (r: Token)
    ensures
        r@ == (TokenView::Group {
            delimiter: Delimiter::Bracket,
            stream: stream_view(toks@),
            span: sp,
        }),
{
    group(Delimiter::Bracket, toks, sp)
}

/// The tokens `toks` between the brackets `delim`.
pub fn group(delim: Delimiter, toks: Vec<Token>, sp: Span) -> (r: Token)
    ensures
        r@ == (TokenView::Group { delimiter: delim, stream: stream_view(toks@), span: sp }),
{
    Token::Group { delimiter: delim, stream: toks, span: sp }
}

} // verus!
