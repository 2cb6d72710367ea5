//! The rules of the notation: what has been read of a declaration, and what
//! the next token does to it.
use vstd::prelude::*;
use crate::generator::SuiteGenerator;
use crate::name::Name;
use crate::parse::anchor::{
    ascii_lowercase, dollars_ident_match, dollars_match, dollars_matched, Dollars, MatchResult,
};
use crate::parse::model::{
    accept, accept_assert, accept_naming_error, assert_expected,
    close_group, end_of_group, end_of_stream, equality_closed, equality_macro, macro_call,
    name_expected, name_found, negation_of, Negation, RuleView, };
use crate::parse::scope::{AnchorParent, Body, Suite};
use crate::span::Span;
use crate::string_lit::string_as_string_literal;
use crate::text::{push_chars, push_text, string_of};
use crate::token::{
    extend_tokens, ident, parenthesised, punct, stream_view, stream_view_index,
    stream_view_push, Delimiter, Token, TokenView,
};

verus! {

/// An anchor has been read; a name is due.
#[derive(Debug)]
pub struct TransientAnchor {
    parent: AnchorParent,
    anchor: Span,
}

/// An anchor and a name have been read; a body or an assertion is due.
#[derive(Debug)]
pub struct TransientNamed {
    parent: AnchorParent,
    name: Name,
}

/// An anchor and something that is no name have been read; a body may still
/// follow, and gets a placeholder for its name.
#[derive(Debug)]
pub struct TransientNamingError {
    parent: AnchorParent,
    name: Name,
}

/// A name and the tokens of an assertion so far.
#[derive(Debug)]
pub struct Assert {
    parent: AnchorParent,
    name: Name,
    left_code: Vec<Token>,
}

/// The left side of an assertion and a second anchor have been read; the
/// kind of the assertion is due.
#[derive(Debug)]
pub struct TransientAssertAnchor {
    parent: AnchorParent,
    anchor: Span,
    name: Name,
    left_code: Vec<Token>,
}

/// An assertion that is given up; it ends at the next `;`.
#[derive(Debug)]
pub struct TransientAssertError {
    parent: AnchorParent,
}

/// The left side and the kind of an equality assertion, and the tokens of
/// its right side so far.
#[derive(Debug)]
pub struct AssertEq {
    parent: AnchorParent,
    name: Name,
    negation: Negation,
    anchor: Span,
    left_code: Vec<Token>,
    right_code: Vec<Token>,
}

/// What has been read of a declaration.
#[derive(Debug)]
pub enum CurrentRule {
    Suite(Suite),
    Body(Body),
    Anchor(TransientAnchor),
    Named(TransientNamed),
    NamingError(TransientNamingError),
    Assert(Assert),
    AssertAnchor(TransientAssertAnchor),
    AssertError(TransientAssertError),
    AssertEq(AssertEq),
}

impl View for TransientAnchor {
    type V = RuleView;

    closed spec fn view(&self) -> RuleView {
        RuleView::Anchor { parent: self.parent@, anchor: self.anchor }
    }
}

impl View for TransientNamed {
    type V = RuleView;

    closed spec fn view(&self) -> RuleView {
        RuleView::Named { parent: self.parent@, name: self.name@ }
    }
}

impl View for TransientNamingError {
    type V = RuleView;

    closed spec fn view(&self) -> RuleView {
        RuleView::NamingError { parent: self.parent@, name: self.name@ }
    }
}

impl View for Assert {
    type V = RuleView;

    closed spec fn view(&self) -> RuleView {
        RuleView::Assert {
            parent: self.parent@,
            name: self.name@,
            left: stream_view(self.left_code@),
        }
    }
}

impl View for TransientAssertAnchor {
    type V = RuleView;

    closed spec fn view(&self) -> RuleView {
        RuleView::AssertAnchor {
            parent: self.parent@,
            anchor: self.anchor,
            name: self.name@,
            left: stream_view(self.left_code@),
        }
    }
}

impl View for TransientAssertError {
    type V = RuleView;

    closed spec fn view(&self) -> RuleView {
        RuleView::AssertError { parent: self.parent@ }
    }
}

impl View for AssertEq {
    type V = RuleView;

    closed spec fn view(&self) -> RuleView {
        RuleView::AssertEq {
            parent: self.parent@,
            name: self.name@,
            negation: self.negation,
            anchor: self.anchor,
            left: stream_view(self.left_code@),
            right: stream_view(self.right_code@),
        }
    }
}

impl View for CurrentRule {
    type V = RuleView;

    open spec fn view(&self) -> RuleView {
        match self {
            CurrentRule::Suite(suite) => RuleView::Scope(suite@),
            CurrentRule::Body(body) => RuleView::Scope(body@),
            CurrentRule::Anchor(rule) => rule@,
            CurrentRule::Named(rule) => rule@,
            CurrentRule::NamingError(rule) => rule@,
            CurrentRule::Assert(rule) => rule@,
            CurrentRule::AssertAnchor(rule) => rule@,
            CurrentRule::AssertError(rule) => rule@,
            CurrentRule::AssertEq(rule) => rule@,
        }
    }
}

/// The words for what was found in the place of a name.
fn name_found_text(parent: &AnchorParent, found: &MatchResult) -> (r: Vec<char>)
    ensures
        r@ == name_found(parent@, found@),
{
    let top = parent.is_suite();
    let mut msg: Vec<char> = Vec::new();
    match found {
        MatchResult::Name(text) => {},
        MatchResult::InvalidName(written, why) => {
            push_text(&mut msg, "found `");
            push_text(&mut msg, written.as_str());
            push_text(&mut msg, "`\n");
            push_text(&mut msg, why.as_str());
        },
        MatchResult::ValidDollars(d) => {
            push_text(&mut msg, "found an assertion '");
            push_text(&mut msg, d.name());
            if top {
                push_text(&mut msg, "' which isn't allowed as a top level test");
            } else {
                push_text(&mut msg, "' which isn't allowed inside the braced body of a test");
            }
        },
        MatchResult::InvalidDollars(d) => {
            push_text(&mut msg, "found a badly formatted assertion '");
            push_text(&mut msg, d.name());
            if top {
                push_text(
                    &mut msg,
                    "' which isn't allowed as a top level test and should be lowercase",
                );
            } else {
                push_text(
                    &mut msg,
                    "' which isn't allowed inside the braced body of a test and should be lowercase",
                );
            }
        },
        MatchResult::OtherInvalid(shown) => {
            if top {
                push_text(&mut msg, "found `");
                push_text(&mut msg, shown.as_str());
                push_text(&mut msg, "`");
            } else {
                push_text(&mut msg, "but found ");
                push_text(&mut msg, shown.as_str());
            }
        },
        MatchResult::SemiColon => {
            if top {
                push_text(&mut msg, "found `;` before any body was provided");
            } else {
                push_text(
                    &mut msg,
                    "found a truncated assertion - found `;` before any code was provided",
                );
            }
        },
    }
    assert(msg@ =~= name_found(parent@, found@));
    msg
}

/// The message for what was found in the place of a name.
fn name_expected_message(parent: &AnchorParent, found: &MatchResult) -> (r: String)
    ensures
        r@ == name_expected(parent@) + name_found(parent@, found@),
{
    let mut msg: Vec<char> = Vec::new();
    if parent.is_suite() {
        push_text(
            &mut msg,
            "expected a valid test case name in quotes following the dollars, but ",
        );
    } else {
        push_text(&mut msg, "expected a valid test name following the dollars, but ");
    }
    let detail = name_found_text(parent, found);
    push_chars(&mut msg, &detail);
    assert(msg@ =~= name_expected(parent@) + name_found(parent@, found@));
    string_of(&msg)
}

/// Adds the diagnostic for something that is no kind of assertion.
fn expected_assert(location: &Span, detail: &Vec<char>, target: &mut SuiteGenerator)
    ensures
        final(target)@ == old(target)@.with_error(*location, assert_expected(detail@)),
{
    let mut msg: Vec<char> = Vec::new();
    push_text(&mut msg, "expected a valid assertion type [");
    push_text(&mut msg, Dollars::list());
    push_text(&mut msg, "] following the dollars, but ");
    push_chars(&mut msg, detail);
    assert(msg@ =~= assert_expected(detail@));
    let msg = string_of(&msg);
    target.push_new_error(location, msg.as_str());
}

/// The words of a detail that shows something between two fixed texts.
fn around(before: &str, shown: &str, after: &str) -> (r: Vec<char>)
    ensures
        r@ == before@ + shown@ + after@,
{
    let mut msg: Vec<char> = Vec::new();
    push_text(&mut msg, before);
    push_text(&mut msg, shown);
    push_text(&mut msg, after);
    assert(msg@ =~= before@ + shown@ + after@);
    msg
}

impl TransientAnchor {
    /// The rule behind the anchor that stood at `location` in the scope
    /// `parent`.
    pub fn new(parent: AnchorParent, location: &Span) -> (r: Self)
        ensures
            r@ == (RuleView::Anchor { parent: parent@, anchor: *location }),
    {
        Self { parent, anchor: *location }
    }

    /// Reports what stands in the place of the name, and goes on as if a
    /// placeholder had been written there.
    fn expected_name(self, token: Token, found: MatchResult, target: &mut SuiteGenerator) -> (r:
        CurrentRule)
        requires
            found@ == dollars_matched(token@),
            !(found@ is Name),
            !(found@ is SemiColon),
        ensures
            (r@, final(target)@) == accept(self@, token@, old(target)@),
        decreases token, 1nat,
    {
        let at = token.span();
        let mut parent = self.parent;
        let msg = name_expected_message(&parent, &found);
        target.push_new_error(&at, msg.as_str());
        let placeholder = target.make_missing_name(&at);
        let name = parent.make_name(&at, placeholder.text());
        TransientNamingError::new(parent, name).accept_token(token, target)
    }

    /// Reads the token behind the anchor: a string literal is the name, a
    /// `;` ends the declaration, and anything else is reported.
    pub fn accept_token(self, token: Token, target: &mut SuiteGenerator) -> (r: CurrentRule)
        ensures
            (r@, final(target)@) == accept(self@, token@, old(target)@),
        decreases token, 2nat,
    {
        let found = dollars_match(&token);
        let at = token.span();
        match found {
            MatchResult::Name(text) => {
                let mut parent = self.parent;
                let name = parent.make_name(&at, text.as_str());
                CurrentRule::Named(TransientNamed::new(parent, name))
            },
            MatchResult::SemiColon => {
                let msg = name_expected_message(&self.parent, &found);
                target.push_new_error(&at, msg.as_str());
                self.parent.continuation()
            },
            other => self.expected_name(token, other, target),
        }
    }

    /// The group ends before the declaration does: that is reported, and
    /// the scope goes on.
    pub fn end_of_group(self, target: &mut SuiteGenerator) -> (r: CurrentRule)
        ensures
            (r@, final(target)@) == end_of_group(self@, old(target)@),
    {
        target.push_new_error(
            &self.anchor,
            "reached end of group input before reaching the end of the test definition",
        );
        self.parent.continuation()
    }

    /// The input ends before the declaration does: that is reported.
    pub fn end_of_stream(self, target: &mut SuiteGenerator)
        ensures
            final(target)@ == end_of_stream(self@, old(target)@),
    {
        target.push_new_error(
            &self.anchor,
            "reached end of input before reaching the end of the test definition",
        );
    }
}

impl TransientNamed {
    /// The rule behind the name `name` in the scope `parent`.
    pub fn new(parent: AnchorParent, name: Name) -> (r: Self)
        ensures
            r@ == (RuleView::Named { parent: parent@, name: name@ }),
    {
        Self { parent, name }
    }

    /// Reads the token behind the name: a braced group is the body of the
    /// test, anything else begins an assertion.
    pub fn accept_token(self, token: Token, target: &mut SuiteGenerator) -> (r: CurrentRule)
        ensures
            (r@, final(target)@) == accept(self@, token@, old(target)@),
        decreases token, 2nat,
    {
        match token {
            Token::Group { delimiter, stream, span } => {
                match delimiter {
                    Delimiter::Brace => Body::new(self.parent, self.name, stream, target),
                    _ => Assert::new(self.parent, self.name).accept_token(
                        Token::Group { delimiter, stream, span },
                        target,
                    ),
                }
            },
            other => Assert::new(self.parent, self.name).accept_token(other, target),
        }
    }

    /// The group ends before the declaration does: that is reported, and
    /// the scope goes on.
    pub fn end_of_group(self, target: &mut SuiteGenerator) -> (r: CurrentRule)
        ensures
            (r@, final(target)@) == end_of_group(self@, old(target)@),
    {
        target.push_new_error(
            &self.name.span(),
            "reached end of group input before finding the test body for named test",
        );
        self.parent.continuation()
    }

    /// The input ends before the declaration does: that is reported.
    pub fn end_of_stream(self, target: &mut SuiteGenerator)
        ensures
            final(target)@ == end_of_stream(self@, old(target)@),
    {
        target.push_new_error(
            &self.name.span(),
            "reached end of input before finding the test body for named test",
        );
    }
}

impl TransientNamingError {
    /// The rule behind something that was no name, for which `name`
    /// stands in.
    pub fn new(parent: AnchorParent, name: Name) -> (r: Self)
        ensures
            r@ == (RuleView::NamingError { parent: parent@, name: name@ }),
    {
        Self { parent, name }
    }

    /// Reads a token behind something that was no name: a braced group is
    /// taken for the body of the test, a `;` ends the declaration, and
    /// anything else is passed over.
    pub fn accept_token(self, token: Token, target: &mut SuiteGenerator) -> (r: CurrentRule)
        ensures
            (r@, final(target)@) == accept(self@, token@, old(target)@),
            (r@, final(target)@) == accept_naming_error(
                self@->NamingError_parent,
                self@->NamingError_name,
                token@,
                old(target)@,
            ),
        decreases token, 0nat,
    {
        match token {
            Token::Group { delimiter, stream, .. } => {
                match delimiter {
                    Delimiter::Brace => Body::new(self.parent, self.name, stream, target),
                    _ => CurrentRule::NamingError(self),
                }
            },
            Token::Punct { ch, .. } => {
                if ch == ';' {
                    self.parent.continuation()
                } else {
                    CurrentRule::NamingError(self)
                }
            },
            _ => CurrentRule::NamingError(self),
        }
    }

    /// The group ends before the declaration does: that is reported, and
    /// the scope goes on.
    pub fn end_of_group(self, target: &mut SuiteGenerator) -> (r: CurrentRule)
        ensures
            (r@, final(target)@) == end_of_group(self@, old(target)@),
    {
        target.push_new_error(
            &Span::call_site(),
            "reached end of group input before reaching the end of the test definition",
        );
        self.parent.continuation()
    }

    /// The input ends before the declaration does: that is reported.
    pub fn end_of_stream(self, target: &mut SuiteGenerator)
        ensures
            final(target)@ == end_of_stream(self@, old(target)@),
    {
        target.push_new_error(
            &Span::call_site(),
            "reached end of input before reaching the end of the test definition",
        );
    }
}

impl Assert {
    /// An assertion at the top of the input, of which only the name has
    /// been read.
    pub fn from_suite(parent: Suite, name: Name) -> (r: Self)
        ensures
            r@ == (RuleView::Assert { parent: parent@, name: name@, left: Seq::empty() }),
    {
        Self::new(AnchorParent::from_suite(parent), name)
    }

    /// An assertion of which only the name has been read.
    pub fn new(parent: AnchorParent, name: Name) -> (r: Self)
        ensures
            r@ == (RuleView::Assert { parent: parent@, name: name@, left: Seq::empty() }),
    {
        Self { parent, name, left_code: Vec::new() }
    }

    /// Makes the test that asserts what has been read.
    fn generate_assert_test_into(&mut self, target: &mut SuiteGenerator)
        ensures
            final(self)@ == (RuleView::Assert {
                parent: old(self)@->Assert_parent,
                name: old(self)@->Assert_name,
                left: Seq::empty(),
            }),
            final(target)@ == crate::parse::model::leaf(
                old(target)@,
                old(self)@->Assert_parent,
                old(self)@->Assert_name,
                macro_call("assert"@, old(self)@->Assert_left, old(self)@->Assert_name.location),
            ),
    {
        let location = self.name.span();
        let mut left: Vec<Token> = Vec::new();
        std::mem::swap(&mut left, &mut self.left_code);
        let mut code: Vec<Token> = Vec::new();
        code.push(ident("assert", location));
        code.push(punct('!', location));
        code.push(parenthesised(left, location));
        code.push(punct(';', location));
        proof {
            stream_view_index(code@);
            assert(stream_view(code@) =~= macro_call(
                "assert"@,
                old(self)@->Assert_left,
                location,
            ));
        }
        self.parent.generate_leaf(&self.name, code, target);
    }

    /// Reads a token of the assertion: a `;` ends it, an anchor announces
    /// its kind, and anything else belongs to it.
    pub fn accept_token(self, token: Token, target: &mut SuiteGenerator) -> (r: CurrentRule)
        ensures
            (r@, final(target)@) == accept(self@, token@, old(target)@),
            (r@, final(target)@) == accept_assert(
                self@->Assert_parent,
                self@->Assert_name,
                self@->Assert_left,
                token@,
                old(target)@,
            ),
    {
        let mut rule = self;
        if token.is_punct('$') {
            let at = token.span();
            CurrentRule::AssertAnchor(
                TransientAssertAnchor::new(rule.parent, rule.name, rule.left_code, &at),
            )
        } else if token.is_punct(';') {
            if rule.left_code.len() == 0 {
                if rule.parent.is_suite() {
                    target.push_new_error(
                        &rule.name.span(),
                        "expected a test body in braces {} after the name but found `;`",
                    );
                } else {
                    target.push_new_error(
                        &rule.name.span(),
                        "expected an assertion or test body after the name, but found `;`",
                    );
                }
            } else {
                proof {
                    stream_view_index(rule.left_code@);
                }
                rule.generate_assert_test_into(target);
            }
            rule.parent.continuation()
        } else {
            proof {
                stream_view_push(rule.left_code@, token);
            }
            rule.left_code.push(token);
            CurrentRule::Assert(rule)
        }
    }

    /// The group ends before the declaration does: that is reported, and
    /// the scope goes on.
    pub fn end_of_group(self, target: &mut SuiteGenerator) -> (r: CurrentRule)
        ensures
            (r@, final(target)@) == end_of_group(self@, old(target)@),
    {
        target.push_new_error(
            &self.name.span(),
            "reached end of group input before finding details of the named assertion. Missing ; ?",
        );
        self.parent.continuation()
    }

    /// The input ends before the declaration does: that is reported.
    pub fn end_of_stream(self, target: &mut SuiteGenerator)
        ensures
            final(target)@ == end_of_stream(self@, old(target)@),
    {
        target.push_new_error(
            &self.name.span(),
            "reached end of input before finding details of the named assertion. Missing ; ?",
        );
    }
}

impl TransientAssertAnchor {
    /// The rule behind the anchor that stood at `location` behind the
    /// left side `left_code` of the assertion `name`.
    pub fn new(parent: AnchorParent, name: Name, left_code: Vec<Token>, location: &Span) -> (r:
        Self)
        ensures
            r@ == (RuleView::AssertAnchor {
                parent: parent@,
                anchor: *location,
                name: name@,
                left: stream_view(left_code@),
            }),
    {
        Self { parent, name, left_code, anchor: *location }
    }

    /// Goes on with the right side of the equality assertion that was
    /// asked for at `location`.
    fn route_assert(self, location: &Span, assert_type: Dollars, _target: &mut SuiteGenerator) -> (r:
        CurrentRule)
        ensures
            r@ == (RuleView::AssertEq {
                parent: self@->AssertAnchor_parent,
                name: self@->AssertAnchor_name,
                negation: negation_of(assert_type),
                anchor: *location,
                left: self@->AssertAnchor_left,
                right: Seq::empty(),
            }),
            final(_target)@ == old(_target)@,
    {
        match assert_type {
            Dollars::AssertEq => CurrentRule::AssertEq(
                AssertEq::new(
                    self.parent,
                    self.name,
                    Negation::Positive,
                    &self.anchor,
                    self.left_code,
                    location,
                ),
            ),
            Dollars::AssertNotEq => CurrentRule::AssertEq(
                AssertEq::new(
                    self.parent,
                    self.name,
                    Negation::Negative,
                    &self.anchor,
                    self.left_code,
                    location,
                ),
            ),
        }
    }

    /// Reads the token behind the anchor of an assertion: `eq` or `ne` is
    /// its kind, the same in other case is taken with a warning, and
    /// anything else gives the assertion up.
    pub fn accept_token(self, token: Token, target: &mut SuiteGenerator) -> (r: CurrentRule)
        ensures
            (r@, final(target)@) == accept(self@, token@, old(target)@),
    {
        let at = token.span();
        match &token {
            Token::Ident { text, .. } => match dollars_ident_match(text.clone()) {
                Ok(assert) => self.route_assert(&at, assert, target),
                Err(rejected) => match dollars_ident_match(ascii_lowercase(rejected.as_str())) {
                    Ok(assert) => {
                        let detail = around(
                            "found an incorrectly cased match `",
                            rejected.as_str(),
                            "` - asserts are all lowercase",
                        );
                        expected_assert(&at, &detail, target);
                        self.route_assert(&at, assert, target)
                    },
                    Err(invalid) => {
                        let detail = around("found `", invalid.as_str(), "`");
                        expected_assert(&at, &detail, target);
                        CurrentRule::AssertError(TransientAssertError::new(self.parent))
                    },
                },
            },
            Token::Punct { ch, .. } => {
                if *ch == ';' {
                    let detail = around("found `", ";", "`");
                    proof {
                        reveal_strlit("found `");
                        reveal_strlit(";");
                        reveal_strlit("`");
                        reveal_strlit("found `;`");
                        assert(detail@ =~= "found `;`"@);
                    }
                    expected_assert(&at, &detail, target);
                    self.parent.continuation()
                } else {
                    let found = token.to_text();
                    let detail = around("found `", found.as_str(), "`");
                    expected_assert(&at, &detail, target);
                    CurrentRule::AssertError(TransientAssertError::new(self.parent))
                }
            },
            Token::Group { .. } => {
                let found = token.to_text();
                let detail = around("found `", found.as_str(), "`");
                expected_assert(&at, &detail, target);
                CurrentRule::AssertError(TransientAssertError::new(self.parent))
            },
            _ => {
                let found = token.to_text();
                match string_as_string_literal(found.as_str()) {
                    Ok(_) => {
                        let detail = around(
                            "found `",
                            found.as_str(),
                            "` which looks like a test defintion. Tests cannot be nested inside asserts.",
                        );
                        expected_assert(&at, &detail, target);
                        CurrentRule::AssertError(TransientAssertError::new(self.parent))
                    },
                    Err(_) => {
                        let detail = around("found `", found.as_str(), "`");
                        expected_assert(&at, &detail, target);
                        CurrentRule::AssertError(TransientAssertError::new(self.parent))
                    },
                }
            },
        }
    }

    /// The group ends before the declaration does: that is reported, and
    /// the scope goes on.
    pub fn end_of_group(self, target: &mut SuiteGenerator) -> (r: CurrentRule)
        ensures
            (r@, final(target)@) == end_of_group(self@, old(target)@),
    {
        target.push_new_error(
            &self.anchor,
            "reached end of group input before reaching the end of the assertion definition",
        );
        self.parent.continuation()
    }

    /// The input ends before the declaration does: that is reported.
    pub fn end_of_stream(self, target: &mut SuiteGenerator)
        ensures
            final(target)@ == end_of_stream(self@, old(target)@),
    {
        target.push_new_error(
            &self.anchor,
            "reached end of input before reaching the end of the assertion definition",
        );
    }
}

impl TransientAssertError {
    /// The rule for an assertion in the scope `parent` that is given up.
    pub fn new(parent: AnchorParent) -> (r: Self)
        ensures
            r@ == (RuleView::AssertError { parent: parent@ }),
    {
        Self { parent }
    }

    /// Passes over a token of the assertion that was given up; a `;` ends
    /// it.
    pub fn accept_token(self, token: Token, _target: &mut SuiteGenerator) -> (r: CurrentRule)
        ensures
            (r@, final(_target)@) == accept(self@, token@, old(_target)@),
    {
        if token.is_punct(';') {
            self.parent.continuation()
        } else {
            CurrentRule::AssertError(self)
        }
    }

    /// The group ends before the declaration does: that is reported, and
    /// the scope goes on.
    pub fn end_of_group(self, target: &mut SuiteGenerator) -> (r: CurrentRule)
        ensures
            (r@, final(target)@) == end_of_group(self@, old(target)@),
    {
        target.push_new_error(
            &Span::call_site(),
            "reached end of group input before reaching the end of the assertion definition",
        );
        self.parent.continuation()
    }

    /// The input ends before the declaration does: that is reported.
    pub fn end_of_stream(self, target: &mut SuiteGenerator)
        ensures
            final(target)@ == end_of_stream(self@, old(target)@),
    {
        target.push_new_error(
            &Span::call_site(),
            "reached end of input before reaching the end of the assertion definition",
        );
    }
}

impl AssertEq {
    /// An equality assertion whose left side stands between the name and
    /// the anchor at `_anchor`, and whose kind was written at `location`.
    pub fn new(
        parent: AnchorParent,
        name: Name,
        negation: Negation,
        _anchor: &Span,
        left_code: Vec<Token>,
        location: &Span,
    ) -> (r: Self)
        ensures
            r@ == (RuleView::AssertEq {
                parent: parent@,
                name: name@,
                negation,
                anchor: *location,
                left: stream_view(left_code@),
                right: Seq::empty(),
            }),
    {
        Self { parent, name, negation, anchor: *location, left_code, right_code: Vec::new() }
    }

    /// Closes the assertion: a diagnostic for each side that is empty, and
    /// the test only where none is.
    fn generate_test(&mut self, target: &mut SuiteGenerator)
        ensures
            final(self)@->AssertEq_parent == old(self)@->AssertEq_parent,
            final(target)@ == equality_closed(
                old(self)@->AssertEq_parent,
                old(self)@->AssertEq_name,
                old(self)@->AssertEq_negation,
                old(self)@->AssertEq_anchor,
                old(self)@->AssertEq_left,
                old(self)@->AssertEq_right,
                old(target)@,
            ),
    {
        let mut is_ok = true;
        let anchor = self.anchor;
        let mut left_code: Vec<Token> = Vec::new();
        std::mem::swap(&mut left_code, &mut self.left_code);
        proof {
            stream_view_index(left_code@);
            stream_view_index(self.right_code@);
        }
        if left_code.len() == 0 {
            target.push_new_error(
                &anchor,
                "no code found for the left side of the equality assertion",
            );
            is_ok = false;
        }
        if self.right_code.len() == 0 {
            target.push_new_error(
                &anchor,
                "no code found for the right hand side of the equality assertion",
            );
            is_ok = false;
        }
        if is_ok {
            let mut right_code: Vec<Token> = Vec::new();
            std::mem::swap(&mut right_code, &mut self.right_code);
            let ghost left = stream_view(left_code@);
            let ghost right = stream_view(right_code@);
            let mut inside = left_code;
            let comma = punct(',', anchor);
            proof {
                stream_view_push(inside@, comma);
            }
            inside.push(comma);
            extend_tokens(&mut inside, right_code);
            let mut code: Vec<Token> = Vec::new();
            let word = match self.negation {
                Negation::Positive => "assert_eq",
                Negation::Negative => "assert_ne",
            };
            code.push(ident(word, anchor));
            code.push(punct('!', anchor));
            code.push(parenthesised(inside, anchor));
            code.push(punct(';', anchor));
            proof {
                stream_view_index(code@);
                assert(stream_view(code@) =~= macro_call(
                    equality_macro(self.negation),
                    left.push(crate::generator::punct_of(',', anchor)) + right,
                    anchor,
                ));
            }
            self.parent.generate_leaf(&self.name, code, target);
        }
    }

    /// Reads a token of the right side; a `;` closes the assertion.
    pub fn accept_token(self, token: Token, target: &mut SuiteGenerator) -> (r: CurrentRule)
        ensures
            (r@, final(target)@) == accept(self@, token@, old(target)@),
    {
        let mut rule = self;
        if token.is_punct(';') {
            rule.generate_test(target);
            rule.parent.continuation()
        } else {
            proof {
                stream_view_push(rule.right_code@, token);
            }
            rule.right_code.push(token);
            CurrentRule::AssertEq(rule)
        }
    }

    /// The group ends before the declaration does: that is reported, and
    /// the scope goes on.
    pub fn end_of_group(self, target: &mut SuiteGenerator) -> (r: CurrentRule)
        ensures
            (r@, final(target)@) == end_of_group(self@, old(target)@),
    {
        target.push_new_error(
            &Span::call_site(),
            "reached end of group input before reaching the end of the equality assertion definition",
        );
        self.parent.continuation()
    }

    /// The input ends before the declaration does: that is reported.
    pub fn end_of_stream(self, target: &mut SuiteGenerator)
        ensures
            final(target)@ == end_of_stream(self@, old(target)@),
    {
        target.push_new_error(
            &Span::call_site(),
            "reached end of input before reaching the end of the equality assertion definition",
        );
    }
}

impl CurrentRule {
    /// The rule for an anchor that was read at `anchor` in the scope
    /// `parent`.
    pub fn anchor(parent: AnchorParent, anchor: Span) -> (r: CurrentRule)
        ensures
            r@ == (RuleView::Anchor { parent: parent@, anchor }),
    {
        CurrentRule::Anchor(TransientAnchor::new(parent, &anchor))
    }

    /// Whether the rule is a scope that waits for its next token.
    pub fn is_scope(&self) -> (r: bool)
        ensures
            r == (self@ is Scope),
    {
        match self {
            CurrentRule::Suite(_) => true,
            CurrentRule::Body(_) => true,
            _ => false,
        }
    }

    /// Reads the next token.
    pub fn accept_token(self, token: Token, target: &mut SuiteGenerator) -> (r: CurrentRule)
        ensures
            (r@, final(target)@) == accept(self@, token@, old(target)@),
        decreases token, 3nat,
    {
        match self {
            CurrentRule::Suite(rule) => rule.accept_token(token, target),
            CurrentRule::Body(rule) => rule.accept_token(token, target),
            CurrentRule::Anchor(rule) => rule.accept_token(token, target),
            CurrentRule::Named(rule) => rule.accept_token(token, target),
            CurrentRule::NamingError(rule) => rule.accept_token(token, target),
            CurrentRule::Assert(rule) => rule.accept_token(token, target),
            CurrentRule::AssertAnchor(rule) => rule.accept_token(token, target),
            CurrentRule::AssertError(rule) => rule.accept_token(token, target),
            CurrentRule::AssertEq(rule) => rule.accept_token(token, target),
        }
    }

    /// The end of the group that the rule stands in.
    pub fn end_of_group(self, target: &mut SuiteGenerator) -> (r: CurrentRule)
        ensures
            (r@, final(target)@) == end_of_group(self@, old(target)@),
    {
        match self {
            CurrentRule::Suite(rule) => rule.end_of_group(target),
            CurrentRule::Body(rule) => rule.end_of_group(target),
            CurrentRule::Anchor(rule) => rule.end_of_group(target),
            CurrentRule::Named(rule) => rule.end_of_group(target),
            CurrentRule::NamingError(rule) => rule.end_of_group(target),
            CurrentRule::Assert(rule) => rule.end_of_group(target),
            CurrentRule::AssertAnchor(rule) => rule.end_of_group(target),
            CurrentRule::AssertError(rule) => rule.end_of_group(target),
            CurrentRule::AssertEq(rule) => rule.end_of_group(target),
        }
    }

    /// The closing bracket of the body that the rule stands in: a
    /// declaration that is not finished is given up, then the body is
    /// closed.
    pub fn close_group(self, target: &mut SuiteGenerator) -> (r: CurrentRule)
        ensures
            (r@, final(target)@) == close_group(self@, old(target)@),
    {
        if self.is_scope() {
            self.end_of_group(target)
        } else {
            let scope = self.end_of_group(target);
            scope.end_of_group(target)
        }
    }

    /// The end of the input.
    pub fn end_of_stream(self, target: &mut SuiteGenerator)
        ensures
            final(target)@ == end_of_stream(self@, old(target)@),
    {
        match self {
            CurrentRule::Suite(rule) => rule.end_of_stream(target),
            CurrentRule::Body(rule) => rule.end_of_stream(target),
            CurrentRule::Anchor(rule) => rule.end_of_stream(target),
            CurrentRule::Named(rule) => rule.end_of_stream(target),
            CurrentRule::NamingError(rule) => rule.end_of_stream(target),
            CurrentRule::Assert(rule) => rule.end_of_stream(target),
            CurrentRule::AssertAnchor(rule) => rule.end_of_stream(target),
            CurrentRule::AssertError(rule) => rule.end_of_stream(target),
            CurrentRule::AssertEq(rule) => rule.end_of_stream(target),
        }
    }
}

} // verus!
