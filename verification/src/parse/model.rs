//! What reading a token does, over mathematical values.
//!
//! A scope is the suite or a braced body; the scopes around a body hang on
//! it, the suite outermost. A rule is either a scope that waits for its next
//! token or a declaration that has been read in part, with the scope it
//! stands in. Reading never fails: what cannot be understood becomes a
//! diagnostic, the tokens up to the next `;` or the end of the group are
//! passed over, and the scope goes on with what follows.
use vstd::prelude::*;
use crate::generator::{group_of, ident_of, punct_of, SuiteView, TestView};
use crate::name::{function_name, FactoryView, NameView, PartView};
use crate::parse::anchor::{dollars_matched, dollars_of, lower, Dollars, MatchView};
use crate::span::Span;
use crate::string_lit::literal_text;
use crate::token::{shown, Delimiter, TokenView};

verus! {

/// Whether an equality assertion asks for equal or for different sides.
#[derive(Clone, Copy, PartialEq, Eq, Structural, Debug)]
pub enum Negation {
    /// The sides are to be equal.
    Positive,
    /// The sides are to differ.
    Negative,
}

/// A scope, with the scopes around it.
pub enum ScopeView {
    /// The outermost scope.
    Suite { factory: FactoryView },
    /// A braced body.
    Body {
        parent: Box<ScopeView>,
        /// The name that opened the body.
        name: NameView,
        /// Numbers the names inside the body.
        factory: FactoryView,
        /// The tokens of the body outside its tests, so far.
        code: Seq<TokenView>,
        /// Whether an anchor has been seen in the body.
        has_children: bool,
    },
}

impl ScopeView {
    /// The suite before anything is read.
    pub open spec fn suite() -> ScopeView {
        ScopeView::Suite { factory: FactoryView { title: None, counter: 0 } }
    }

    /// The body that `name` opens in the scope `parent`, before anything of
    /// it is read.
    pub open spec fn body(parent: ScopeView, name: NameView) -> ScopeView {
        ScopeView::Body {
            parent: Box::new(parent),
            name,
            factory: FactoryView { title: Some(name.text), counter: 0 },
            code: Seq::empty(),
            has_children: false,
        }
    }

    /// The factory for the names in this scope.
    pub open spec fn factory(self) -> FactoryView {
        match self {
            ScopeView::Suite { factory } => factory,
            ScopeView::Body { factory, .. } => factory,
        }
    }

    /// How many names the scope has so far.
    pub open spec fn count(self) -> nat {
        self.factory().counter
    }

    /// The scope with another factory.
    pub open spec fn with_factory(self, factory: FactoryView) -> ScopeView {
        match self {
            ScopeView::Suite { .. } => ScopeView::Suite { factory },
            ScopeView::Body { parent, name, code, has_children, .. } => ScopeView::Body {
                parent,
                name,
                factory,
                code,
                has_children,
            },
        }
    }

    /// The scope after it has named one more test.
    pub open spec fn minted(self) -> ScopeView {
        self.with_factory(self.factory().counted())
    }

    /// The name that the scope gives next to `text` at `location`.
    pub open spec fn next_name(self, location: Span, text: Seq<char>) -> NameView {
        NameView { location, text, index: self.minted().count() }
    }

    /// The names from the outermost scope down to this one, each with the
    /// count of names that its scope has by now.
    pub open spec fn chain(self) -> Seq<PartView>
        decreases self,
    {
        match self {
            ScopeView::Suite { .. } => Seq::empty(),
            ScopeView::Body { parent, name, .. } => parent.chain().push(
                PartView { name, siblings: parent.count() },
            ),
        }
    }

    /// The code that a test in this scope begins with: that of the scopes
    /// around it, outermost first, and then its own.
    pub open spec fn inherited(self) -> Seq<TokenView>
        decreases self,
    {
        match self {
            ScopeView::Suite { .. } => Seq::empty(),
            ScopeView::Body { parent, code, .. } => parent.inherited() + code,
        }
    }
}

/// What has been read of a declaration, and where.
pub enum RuleView {
    /// Nothing: the scope waits for its next token.
    Scope(ScopeView),
    /// An anchor; a name is due.
    Anchor { parent: ScopeView, anchor: Span },
    /// An anchor and a name; a body or an assertion is due.
    Named { parent: ScopeView, name: NameView },
    /// An anchor and something that is no name; a body may still follow.
    NamingError { parent: ScopeView, name: NameView },
    /// A name and the tokens of an assertion so far.
    Assert { parent: ScopeView, name: NameView, left: Seq<TokenView> },
    /// The left side of an assertion and a second anchor; the kind of the
    /// assertion is due.
    AssertAnchor { parent: ScopeView, anchor: Span, name: NameView, left: Seq<TokenView> },
    /// An assertion that is given up; it ends at the next `;`.
    AssertError { parent: ScopeView },
    /// The left side and the kind of an equality assertion, and the tokens
    /// of its right side so far.
    AssertEq {
        parent: ScopeView,
        name: NameView,
        negation: Negation,
        anchor: Span,
        left: Seq<TokenView>,
        right: Seq<TokenView>,
    },
}

impl RuleView {
    /// The scope that the rule stands in.
    pub open spec fn scope(self) -> ScopeView {
        match self {
            RuleView::Scope(scope) => scope,
            RuleView::Anchor { parent, .. } => parent,
            RuleView::Named { parent, .. } => parent,
            RuleView::NamingError { parent, .. } => parent,
            RuleView::Assert { parent, .. } => parent,
            RuleView::AssertAnchor { parent, .. } => parent,
            RuleView::AssertError { parent } => parent,
            RuleView::AssertEq { parent, .. } => parent,
        }
    }
}

/// The lists after a test was made of `code` under the names `chain`: one
/// more test, or a diagnostic where a name on the way is empty.
pub open spec fn emitted(out: SuiteView, chain: Seq<PartView>, code: Seq<TokenView>) -> SuiteView {
    match function_name(chain) {
        Ok((name, anchor)) => out.with_test(TestView { name, anchor, code }),
        Err(e) => out.with_error(e->location, e.spec_message()),
    }
}

/// The lists after the test `name` was made in the scope `parent`, with
/// `own` behind the code that it has from the scopes around it.
pub open spec fn leaf(
    out: SuiteView,
    parent: ScopeView,
    name: NameView,
    own: Seq<TokenView>,
) -> SuiteView {
    emitted(
        out,
        parent.chain().push(PartView { name, siblings: parent.count() }),
        parent.inherited() + own,
    )
}

/// The call of a macro on some tokens, as a statement: `name!(inside);`.
pub open spec fn macro_call(name: Seq<char>, inside: Seq<TokenView>, at: Span) -> Seq<TokenView> {
    seq![
        ident_of(name, at),
        punct_of('!', at),
        group_of(Delimiter::Parenthesis, inside, at),
        punct_of(';', at),
    ]
}

/// The name of the macro for an equality assertion.
pub open spec fn equality_macro(negation: Negation) -> Seq<char> {
    match negation {
        Negation::Positive => "assert_eq"@,
        Negation::Negative => "assert_ne"@,
    }
}

/// The kind of equality assertion that a word asks for.
pub open spec fn negation_of(dollars: Dollars) -> Negation {
    match dollars {
        Dollars::AssertEq => Negation::Positive,
        Dollars::AssertNotEq => Negation::Negative,
    }
}

/// The beginning of the message for something that is no name.
pub open spec fn name_expected(parent: ScopeView) -> Seq<char> {
    match parent {
        ScopeView::Suite { .. } =>
            "expected a valid test case name in quotes following the dollars, but "@,
        ScopeView::Body { .. } => "expected a valid test name following the dollars, but "@,
    }
}

/// The rest of the message for something that is no name.
pub open spec fn name_found(parent: ScopeView, found: MatchView) -> Seq<char> {
    match found {
        MatchView::Name(text) => Seq::empty(),
        MatchView::InvalidName(written, why) => "found `"@ + written + "`\n"@ + why,
        MatchView::ValidDollars(d) => "found an assertion '"@ + d.word() + match parent {
            ScopeView::Suite { .. } => "' which isn't allowed as a top level test"@,
            ScopeView::Body { .. } => "' which isn't allowed inside the braced body of a test"@,
        },
        MatchView::InvalidDollars(d) => "found a badly formatted assertion '"@ + d.word() + match parent {
            ScopeView::Suite { .. } =>
                "' which isn't allowed as a top level test and should be lowercase"@,
            ScopeView::Body { .. } =>
                "' which isn't allowed inside the braced body of a test and should be lowercase"@,
        },
        MatchView::OtherInvalid(shown) => match parent {
            ScopeView::Suite { .. } => "found `"@ + shown + "`"@,
            ScopeView::Body { .. } => "but found "@ + shown,
        },
        MatchView::SemiColon => match parent {
            ScopeView::Suite { .. } => "found `;` before any body was provided"@,
            ScopeView::Body { .. } =>
                "found a truncated assertion - found `;` before any code was provided"@,
        },
    }
}

/// The message for something that is no kind of assertion.
pub open spec fn assert_expected(detail: Seq<char>) -> Seq<char> {
    "expected a valid assertion type ["@ + Dollars::spec_list() + "] following the dollars, but "@
        + detail
}

/// The message for a name that nothing follows but a `;`.
pub open spec fn nothing_named(parent: ScopeView) -> Seq<char> {
    match parent {
        ScopeView::Suite { .. } =>
            "expected a test body in braces {} after the name but found `;`"@,
        ScopeView::Body { .. } =>
            "expected an assertion or test body after the name, but found `;`"@,
    }
}

/// What a token does to a body or an assertion that may follow something
/// that was no name: a braced group is taken for the body, a `;` ends the
/// declaration, anything else is passed over.
pub open spec fn accept_naming_error(
    parent: ScopeView,
    name: NameView,
    token: TokenView,
    out: SuiteView,
) -> (RuleView, SuiteView)
    decreases token, 0nat,
{
    match token {
        TokenView::Group { delimiter, stream, span } => if delimiter == Delimiter::Brace {
            process_group(parent, name, stream, out)
        } else {
            (RuleView::NamingError { parent, name }, out)
        },
        TokenView::Punct { ch, joint, span } => if ch == ';' {
            (RuleView::Scope(parent), out)
        } else {
            (RuleView::NamingError { parent, name }, out)
        },
        _ => (RuleView::NamingError { parent, name }, out),
    }
}

/// What a token does to an assertion whose left side is being read: a `;`
/// ends it, an anchor announces its kind, anything else belongs to it.
pub open spec fn accept_assert(
    parent: ScopeView,
    name: NameView,
    left: Seq<TokenView>,
    token: TokenView,
    out: SuiteView,
) -> (RuleView, SuiteView) {
    if token.is_punct('$') {
        (RuleView::AssertAnchor { parent, anchor: token.span(), name, left }, out)
    } else if token.is_punct(';') {
        if left.len() == 0 {
            (RuleView::Scope(parent), out.with_error(name.location, nothing_named(parent)))
        } else {
            (
                RuleView::Scope(parent),
                leaf(out, parent, name, macro_call("assert"@, left, name.location)),
            )
        }
    } else {
        (RuleView::Assert { parent, name, left: left.push(token) }, out)
    }
}

/// What the token behind the anchor of an assertion does: `eq` or `ne` is
/// the kind of the assertion, the same word in other case is taken for it
/// with a warning, a `;` ends the declaration, and anything else gives the
/// assertion up.
pub open spec fn accept_assert_anchor(
    parent: ScopeView,
    anchor: Span,
    name: NameView,
    left: Seq<TokenView>,
    token: TokenView,
    out: SuiteView,
) -> (RuleView, SuiteView) {
    let at = token.span();
    match token {
        TokenView::Ident { text, span } => match dollars_of(text) {
            Some(d) => (
                RuleView::AssertEq {
                    parent,
                    name,
                    negation: negation_of(d),
                    anchor: at,
                    left,
                    right: Seq::empty(),
                },
                out,
            ),
            None => match dollars_of(lower(text)) {
                Some(d) => (
                    RuleView::AssertEq {
                        parent,
                        name,
                        negation: negation_of(d),
                        anchor: at,
                        left,
                        right: Seq::empty(),
                    },
                    out.with_error(
                        at,
                        assert_expected(
                            "found an incorrectly cased match `"@ + text
                                + "` - asserts are all lowercase"@,
                        ),
                    ),
                ),
                None => (
                    RuleView::AssertError { parent },
                    out.with_error(at, assert_expected("found `"@ + lower(text) + "`"@)),
                ),
            },
        },
        TokenView::Punct { ch, joint, span } => if ch == ';' {
            (RuleView::Scope(parent), out.with_error(at, assert_expected("found `;`"@)))
        } else {
            (
                RuleView::AssertError { parent },
                out.with_error(at, assert_expected("found `"@ + shown(token) + "`"@)),
            )
        },
        TokenView::Group { delimiter, stream, span } => (
            RuleView::AssertError { parent },
            out.with_error(at, assert_expected("found `"@ + shown(token) + "`"@)),
        ),
        _ => match literal_text(shown(token)) {
            Ok(text) => (
                RuleView::AssertError { parent },
                out.with_error(
                    at,
                    assert_expected(
                        "found `"@ + shown(token)
                            + "` which looks like a test defintion. Tests cannot be nested inside asserts."@,
                    ),
                ),
            ),
            Err(why) => (
                RuleView::AssertError { parent },
                out.with_error(at, assert_expected("found `"@ + shown(token) + "`"@)),
            ),
        },
    }
}

/// The lists after an equality assertion was closed: a diagnostic for each
/// side that is empty, and the test only where none is.
pub open spec fn equality_closed(
    parent: ScopeView,
    name: NameView,
    negation: Negation,
    anchor: Span,
    left: Seq<TokenView>,
    right: Seq<TokenView>,
    out: SuiteView,
) -> SuiteView {
    let first = if left.len() == 0 {
        out.with_error(anchor, "no code found for the left side of the equality assertion"@)
    } else {
        out
    };
    let second = if right.len() == 0 {
        first.with_error(
            anchor,
            "no code found for the right hand side of the equality assertion"@,
        )
    } else {
        first
    };
    if left.len() > 0 && right.len() > 0 {
        leaf(
            second,
            parent,
            name,
            macro_call(
                equality_macro(negation),
                left.push(punct_of(',', anchor)) + right,
                anchor,
            ),
        )
    } else {
        second
    }
}

/// What a token does to a rule, and to the lists.
pub open spec fn accept(rule: RuleView, token: TokenView, out: SuiteView) -> (RuleView, SuiteView)
    decreases token, 1nat,
{
    match rule {
        RuleView::Scope(scope) => match scope {
            ScopeView::Suite { factory } => if token.is_punct('$') {
                (RuleView::Anchor { parent: scope, anchor: token.span() }, out)
            } else {
                (rule, out.with_preamble(token))
            },
            ScopeView::Body { parent, name, factory, code, has_children } => if token.is_punct(
                '$',
            ) {
                (
                    RuleView::Anchor {
                        parent: ScopeView::Body { parent, name, factory, code, has_children: true },
                        anchor: token.span(),
                    },
                    out,
                )
            } else {
                (
                    RuleView::Scope(
                        ScopeView::Body {
                            parent,
                            name,
                            factory,
                            code: code.push(token),
                            has_children,
                        },
                    ),
                    out,
                )
            },
        },
        RuleView::Anchor { parent, anchor } => match dollars_matched(token) {
            MatchView::Name(text) => (
                RuleView::Named {
                    parent: parent.minted(),
                    name: parent.next_name(token.span(), text),
                },
                out,
            ),
            MatchView::SemiColon => (
                RuleView::Scope(parent),
                out.with_error(
                    token.span(),
                    name_expected(parent) + name_found(parent, MatchView::SemiColon),
                ),
            ),
            found => {
                let told = out.with_error(
                    token.span(),
                    name_expected(parent) + name_found(parent, found),
                );
                accept_naming_error(
                    parent.minted(),
                    parent.next_name(token.span(), told.missing_name(token.span()).text),
                    token,
                    told.with_missing(),
                )
            },
        },
        RuleView::Named { parent, name } => match token {
            TokenView::Group { delimiter, stream, span } => if delimiter == Delimiter::Brace {
                process_group(parent, name, stream, out)
            } else {
                accept_assert(parent, name, Seq::empty(), token, out)
            },
            _ => accept_assert(parent, name, Seq::empty(), token, out),
        },
        RuleView::NamingError { parent, name } => accept_naming_error(parent, name, token, out),
        RuleView::Assert { parent, name, left } => accept_assert(parent, name, left, token, out),
        RuleView::AssertAnchor { parent, anchor, name, left } => accept_assert_anchor(
            parent,
            anchor,
            name,
            left,
            token,
            out,
        ),
        RuleView::AssertError { parent } => if token.is_punct(';') {
            (RuleView::Scope(parent), out)
        } else {
            (rule, out)
        },
        RuleView::AssertEq { parent, name, negation, anchor, left, right } => if token.is_punct(
            ';',
        ) {
            (
                RuleView::Scope(parent),
                equality_closed(parent, name, negation, anchor, left, right, out),
            )
        } else {
            (
                RuleView::AssertEq { parent, name, negation, anchor, left, right: right.push(token) },
                out,
            )
        },
    }
}

/// The rule and the lists after the first `n` of the tokens were read.
pub open spec fn feed(rule: RuleView, tokens: Seq<TokenView>, n: nat, out: SuiteView) -> (
    RuleView,
    SuiteView,
)
    decreases tokens, n,
{
    if n == 0 || n > tokens.len() {
        (rule, out)
    } else {
        let (before, lists) = feed(rule, tokens, (n - 1) as nat, out);
        accept(before, tokens[n - 1], lists)
    }
}

/// What the braced group behind the name `name` does in the scope `parent`:
/// its tokens are read as a body of their own, the body is closed, and the
/// scope goes on.
pub open spec fn process_group(
    parent: ScopeView,
    name: NameView,
    stream: Seq<TokenView>,
    out: SuiteView,
) -> (RuleView, SuiteView)
    decreases stream, stream.len() + 1,
{
    let (inside, lists) = feed(
        RuleView::Scope(ScopeView::body(parent, name)),
        stream,
        stream.len(),
        out,
    );
    close_group(inside, lists)
}

/// What the end of a group does to a rule: a declaration that is not
/// finished becomes a diagnostic and its scope goes on; a body makes its
/// test, unless it holds tests of its own, and hands over to the scope
/// around it. The suite stands in no group and stays as it is.
pub open spec fn end_of_group(rule: RuleView, out: SuiteView) -> (RuleView, SuiteView) {
    match rule {
        RuleView::Scope(scope) => match scope {
            ScopeView::Suite { .. } => (rule, out),
            ScopeView::Body { parent, name, factory, code, has_children } => (
                RuleView::Scope(*parent),
                body_closed(scope, out),
            ),
        },
        RuleView::Anchor { parent, anchor } => (
            RuleView::Scope(parent),
            out.with_error(
                anchor,
                "reached end of group input before reaching the end of the test definition"@,
            ),
        ),
        RuleView::Named { parent, name } => (
            RuleView::Scope(parent),
            out.with_error(
                name.location,
                "reached end of group input before finding the test body for named test"@,
            ),
        ),
        RuleView::NamingError { parent, name } => (
            RuleView::Scope(parent),
            out.with_error(
                Span::call_site(),
                "reached end of group input before reaching the end of the test definition"@,
            ),
        ),
        RuleView::Assert { parent, name, left } => (
            RuleView::Scope(parent),
            out.with_error(
                name.location,
                "reached end of group input before finding details of the named assertion. Missing ; ?"@,
            ),
        ),
        RuleView::AssertAnchor { parent, anchor, name, left } => (
            RuleView::Scope(parent),
            out.with_error(
                anchor,
                "reached end of group input before reaching the end of the assertion definition"@,
            ),
        ),
        RuleView::AssertError { parent } => (
            RuleView::Scope(parent),
            out.with_error(
                Span::call_site(),
                "reached end of group input before reaching the end of the assertion definition"@,
            ),
        ),
        RuleView::AssertEq { parent, name, negation, anchor, left, right } => (
            RuleView::Scope(parent),
            out.with_error(
                Span::call_site(),
                "reached end of group input before reaching the end of the equality assertion definition"@,
            ),
        ),
    }
}

/// The lists after a body was closed: with its test, unless the body holds
/// tests of its own.
pub open spec fn body_closed(body: ScopeView, out: SuiteView) -> SuiteView {
    match body {
        ScopeView::Suite { .. } => out,
        ScopeView::Body { has_children, .. } => if has_children {
            out
        } else {
            emitted(out, body.chain(), body.inherited())
        },
    }
}

/// What the closing bracket of a body does: a declaration that is not
/// finished is given up first, then the body is closed.
pub open spec fn close_group(rule: RuleView, out: SuiteView) -> (RuleView, SuiteView) {
    match rule {
        RuleView::Scope(scope) => end_of_group(rule, out),
        _ => {
            let (scope, lists) = end_of_group(rule, out);
            end_of_group(scope, lists)
        },
    }
}

/// The lists after the input ended on a rule: a declaration that is not
/// finished becomes a diagnostic, and a body makes its test as at its
/// closing bracket.
pub open spec fn end_of_stream(rule: RuleView, out: SuiteView) -> SuiteView {
    match rule {
        RuleView::Scope(scope) => body_closed(scope, out),
        RuleView::Anchor { parent, anchor } => out.with_error(
            anchor,
            "reached end of input before reaching the end of the test definition"@,
        ),
        RuleView::Named { parent, name } => out.with_error(
            name.location,
            "reached end of input before finding the test body for named test"@,
        ),
        RuleView::NamingError { parent, name } => out.with_error(
            Span::call_site(),
            "reached end of input before reaching the end of the test definition"@,
        ),
        RuleView::Assert { parent, name, left } => out.with_error(
            name.location,
            "reached end of input before finding details of the named assertion. Missing ; ?"@,
        ),
        RuleView::AssertAnchor { parent, anchor, name, left } => out.with_error(
            anchor,
            "reached end of input before reaching the end of the assertion definition"@,
        ),
        RuleView::AssertError { parent } => out.with_error(
            Span::call_site(),
            "reached end of input before reaching the end of the assertion definition"@,
        ),
        RuleView::AssertEq { parent, name, negation, anchor, left, right } => out.with_error(
            Span::call_site(),
            "reached end of input before reaching the end of the equality assertion definition"@,
        ),
    }
}

/// The lists that the whole input leaves behind.
pub open spec fn collected(input: Seq<TokenView>) -> SuiteView {
    let (rule, out) = feed(
        RuleView::Scope(ScopeView::suite()),
        input,
        input.len(),
        SuiteView::empty(),
    );
    end_of_stream(rule, out)
}

} // verus!
