//! What holds of every reading.
//!
//! The facts here follow from [`crate::parse::model`] alone. They say what
//! comes of the shapes of input that the notation is made for: tests that
//! stand alone, tokens between them, assertions. And they say what no input
//! can undo: a rule stays in its scope, a group hands back to the scope it
//! stands in, a `;` ends what is being read, and what was collected stays.
use vstd::prelude::*;
use crate::generator::{SuiteView, TestView};
use crate::name::{
    first_empty, function_name, identifier, joined, segment, FactoryView, NameView, PartView,
};
use crate::parse::anchor::{dollars_matched, MatchView};
use crate::parse::model::{
    accept, accept_naming_error, close_group, collected, emitted, end_of_group,
    end_of_stream, feed, process_group, RuleView, ScopeView,
};
use crate::span::Span;
use crate::string_lit::literal_text;
use crate::token::{Delimiter, TokenView};

verus! {

/// Reading goes by the tokens that were read: two inputs that begin with
/// the same `n` tokens leave the same behind after them.
pub proof fn feed_prefix(
    rule: RuleView,
    left: Seq<TokenView>,
    right: Seq<TokenView>,
    n: nat,
    out: SuiteView,
)
    requires
        n <= left.len(),
        n <= right.len(),
        left.subrange(0, n as int) == right.subrange(0, n as int),
    ensures
        feed(rule, left, n, out) == feed(rule, right, n, out),
    decreases n,
{
    if n > 0 {
        assert(left.subrange(0, n - 1) =~= left.subrange(0, n as int).subrange(0, n - 1));
        assert(right.subrange(0, n - 1) =~= right.subrange(0, n as int).subrange(0, n - 1));
        feed_prefix(rule, left, right, (n - 1) as nat, out);
        assert(left[n - 1] == left.subrange(0, n as int)[n - 1]);
        assert(right[n - 1] == right.subrange(0, n as int)[n - 1]);
    }
}

/// Reading two inputs in a row is reading the first and then, from where
/// that ended, the first `n` tokens of the second.
pub proof fn feed_append(
    rule: RuleView,
    front: Seq<TokenView>,
    back: Seq<TokenView>,
    n: nat,
    out: SuiteView,
)
    requires
        n <= back.len(),
    ensures
        feed(rule, front + back, front.len() + n, out) == feed(
            feed(rule, front, front.len(), out).0,
            back,
            n,
            feed(rule, front, front.len(), out).1,
        ),
    decreases n,
{
    if n == 0 {
        assert((front + back).subrange(0, front.len() as int) =~= front);
        assert(front.subrange(0, front.len() as int) =~= front);
        feed_prefix(rule, front + back, front, front.len(), out);
    } else {
        feed_append(rule, front, back, (n - 1) as nat, out);
        assert((front + back)[front.len() + n - 1] == back[n - 1]);
    }
}

/// Whether no token of the sequence is an anchor.
pub open spec fn no_anchor(tokens: Seq<TokenView>) -> bool {
    forall|i: int| 0 <= i < tokens.len() ==> !(#[trigger] tokens[i]).is_punct('$')
}

/// A body with more code.
pub open spec fn with_code(body: ScopeView, more: Seq<TokenView>) -> ScopeView {
    match body {
        ScopeView::Body { parent, name, factory, code, has_children } => ScopeView::Body {
            parent,
            name,
            factory,
            code: code + more,
            has_children,
        },
        ScopeView::Suite { .. } => body,
    }
}

/// Tokens without an anchor are code of the body that reads them, and
/// nothing else comes of them.
pub proof fn code_is_kept(body: ScopeView, tokens: Seq<TokenView>, n: nat, out: SuiteView)
    requires
        body is Body,
        no_anchor(tokens),
        n <= tokens.len(),
    ensures
        feed(RuleView::Scope(body), tokens, n, out) == (
            RuleView::Scope(with_code(body, tokens.subrange(0, n as int))),
            out,
        ),
    decreases n,
{
    if n == 0 {
        assert(body->Body_code + tokens.subrange(0, 0) =~= body->Body_code);
        assert(with_code(body, tokens.subrange(0, 0)) == body);
    } else {
        code_is_kept(body, tokens, (n - 1) as nat, out);
        let before = with_code(body, tokens.subrange(0, n - 1));
        assert(feed(RuleView::Scope(body), tokens, (n - 1) as nat, out) == (
            RuleView::Scope(before),
            out,
        ));
        assert(!tokens[n - 1].is_punct('$'));
        assert((body->Body_code + tokens.subrange(0, n - 1)).push(tokens[n - 1]) =~= body->Body_code
            + tokens.subrange(0, n as int));
        assert(accept(RuleView::Scope(before), tokens[n - 1], out) == (
            RuleView::Scope(with_code(body, tokens.subrange(0, n as int))),
            out,
        ));
    }
}

/// Whether the tokens declare a test that stands alone: an anchor, the
/// literal for the name `text`, and a braced body without an anchor of its
/// own.
pub open spec fn declares_leaf(tokens: Seq<TokenView>, text: Seq<char>) -> bool {
    &&& tokens.len() == 3
    &&& tokens[0].is_punct('$')
    &&& tokens[1] matches TokenView::Literal { text: written, .. } && literal_text(written) == Ok::<
        Seq<char>,
        Seq<char>,
    >(text)
    &&& tokens[2] matches TokenView::Group { delimiter, stream, .. } && delimiter
        == Delimiter::Brace && no_anchor(stream)
}

/// The tokens of a braced group.
pub open spec fn inside(token: TokenView) -> Seq<TokenView> {
    match token {
        TokenView::Group { stream, .. } => stream,
        _ => Seq::empty(),
    }
}

/// The test that comes of the declaration `tokens` of the name `text` when
/// it is the `number`-th at the top of the input.
pub open spec fn top_level_test(tokens: Seq<TokenView>, text: Seq<char>, number: nat) -> TestView {
    TestView {
        name: identifier(
            segment(
                PartView {
                    name: NameView { location: tokens[1].span(), text, index: number },
                    siblings: number,
                },
            ),
        ),
        anchor: tokens[1].span(),
        code: inside(tokens[2]),
    }
}

/// The suite after it has named `count` tests.
pub open spec fn suite_after(count: nat) -> ScopeView {
    ScopeView::Suite { factory: FactoryView { title: None, counter: count } }
}

/// A declaration of a test that stands alone, read at the top of the input,
/// adds its test and nothing else, and the suite goes on.
pub proof fn leaf_is_read(tokens: Seq<TokenView>, text: Seq<char>, count: nat, out: SuiteView)
    requires
        declares_leaf(tokens, text),
        text.len() > 0,
        count < usize::MAX,
    ensures
        feed(RuleView::Scope(suite_after(count)), tokens, 3, out) == (
            RuleView::Scope(suite_after(count + 1)),
            out.with_test(top_level_test(tokens, text, count + 1)),
        ),
{
    let suite = suite_after(count);
    let start = RuleView::Scope(suite);
    reveal_with_fuel(feed, 4);
    let after_anchor = accept(start, tokens[0], out);
    assert(after_anchor == (RuleView::Anchor { parent: suite, anchor: tokens[0].span() }, out));
    assert(feed(start, tokens, 1, out) == after_anchor);
    let written = tokens[1]->Literal_text;
    assert(dollars_matched(tokens[1]) == MatchView::Name(text));
    let name = NameView { location: tokens[1].span(), text, index: count + 1 };
    let next = suite_after(count + 1);
    assert(suite.minted() == next);
    let after_name = accept(after_anchor.0, tokens[1], out);
    assert(after_name == (RuleView::Named { parent: next, name }, out));
    assert(feed(start, tokens, 2, out) == after_name);
    let stream = inside(tokens[2]);
    let body = ScopeView::body(next, name);
    code_is_kept(body, stream, stream.len(), out);
    assert(stream.subrange(0, stream.len() as int) =~= stream);
    let full = with_code(body, stream);
    assert(Seq::<TokenView>::empty() + stream =~= stream);
    assert(process_group(next, name, stream, out) == close_group(RuleView::Scope(full), out));
    let part = PartView { name, siblings: count + 1 };
    assert(next.chain() =~= Seq::<PartView>::empty());
    assert(full.chain() =~= seq![part]);
    assert(next.inherited() =~= Seq::<TokenView>::empty());
    assert(full.inherited() =~= stream);
    reveal_with_fuel(first_empty, 2);
    reveal_with_fuel(joined, 2);
    assert(first_empty(seq![part], 1) is None);
    assert(joined(seq![part], 1) == segment(part));
    assert(function_name(seq![part]) == Ok::<(Seq<char>, Span), crate::name::NameError>(
        (identifier(segment(part)), tokens[1].span()),
    ));
    assert(accept(after_name.0, tokens[2], out) == process_group(next, name, stream, out));
}

/// The first `n` of the declarations, one after the other.
pub open spec fn in_a_row(declarations: Seq<Seq<TokenView>>, n: nat) -> Seq<TokenView>
    decreases n,
{
    if n == 0 || n > declarations.len() {
        Seq::empty()
    } else {
        in_a_row(declarations, (n - 1) as nat) + declarations[n - 1]
    }
}

/// The tests of the first `n` declarations, in their order.
pub open spec fn tests_in_a_row(
    declarations: Seq<Seq<TokenView>>,
    texts: Seq<Seq<char>>,
    n: nat,
) -> Seq<TestView> {
    Seq::new(n, |i: int| top_level_test(declarations[i], texts[i], (i + 1) as nat))
}

/// What reading the first `n` of the declarations leaves behind.
proof fn leaves_are_read(declarations: Seq<Seq<TokenView>>, texts: Seq<Seq<char>>, n: nat)
    requires
        declarations.len() == texts.len(),
        n <= declarations.len(),
        n < usize::MAX,
        forall|i: int|
            0 <= i < declarations.len() ==> declares_leaf(#[trigger] declarations[i], texts[i])
                && texts[i].len() > 0,
    ensures
        in_a_row(declarations, n).len() == 3 * n,
        feed(
            RuleView::Scope(ScopeView::suite()),
            in_a_row(declarations, n),
            3 * n,
            SuiteView::empty(),
        ) == (
            RuleView::Scope(suite_after(n)),
            SuiteView {
                errors: Seq::empty(),
                preamble: Seq::empty(),
                tests: tests_in_a_row(declarations, texts, n),
                error_counter: 0,
            },
        ),
    decreases n,
{
    let start = RuleView::Scope(ScopeView::suite());
    if n == 0 {
        assert(tests_in_a_row(declarations, texts, 0) =~= Seq::<TestView>::empty());
    } else {
        let m = (n - 1) as nat;
        leaves_are_read(declarations, texts, m);
        let front = in_a_row(declarations, m);
        let back = declarations[n - 1];
        assert(declares_leaf(back, texts[n - 1]));
        let so_far = feed(start, front, front.len(), SuiteView::empty());
        feed_append(start, front, back, 3, SuiteView::empty());
        leaf_is_read(back, texts[n - 1], m, so_far.1);
        assert(tests_in_a_row(declarations, texts, m).push(
            top_level_test(back, texts[n - 1], n),
        ) =~= tests_in_a_row(declarations, texts, n));
    }
}

/// Tests that are declared one after the other at the top of the input,
/// each by an anchor, a name that is not empty and a braced body without
/// an anchor of its own, come out one for one and in their order: each has
/// the function name of its own name alone, and its body for its code.
/// Nothing is hoisted and nothing is reported.
pub proof fn independent_leaves(declarations: Seq<Seq<TokenView>>, texts: Seq<Seq<char>>)
    requires
        declarations.len() == texts.len(),
        declarations.len() < usize::MAX,
        forall|i: int|
            0 <= i < declarations.len() ==> declares_leaf(#[trigger] declarations[i], texts[i])
                && texts[i].len() > 0,
    ensures
        collected(in_a_row(declarations, declarations.len())) == (SuiteView {
            errors: Seq::empty(),
            preamble: Seq::empty(),
            tests: tests_in_a_row(declarations, texts, declarations.len()),
            error_counter: 0,
        }),
        tests_in_a_row(declarations, texts, declarations.len()).len() == declarations.len(),
        forall|i: int|
            0 <= i < declarations.len() ==> (#[trigger] tests_in_a_row(
                declarations,
                texts,
                declarations.len(),
            )[i]) == top_level_test(declarations[i], texts[i], (i + 1) as nat),
{
    leaves_are_read(declarations, texts, declarations.len());
}

/// Tokens without an anchor at the top of the input are hoisted as they
/// come, and nothing else comes of them.
pub proof fn top_is_hoisted(count: nat, tokens: Seq<TokenView>, n: nat, out: SuiteView)
    requires
        no_anchor(tokens),
        n <= tokens.len(),
    ensures
        feed(RuleView::Scope(suite_after(count)), tokens, n, out) == (
            RuleView::Scope(suite_after(count)),
            SuiteView { preamble: out.preamble + tokens.subrange(0, n as int), ..out },
        ),
    decreases n,
{
    let suite = RuleView::Scope(suite_after(count));
    if n == 0 {
        assert(out.preamble + tokens.subrange(0, 0) =~= out.preamble);
        assert((SuiteView { preamble: out.preamble, ..out }) == out);
    } else {
        top_is_hoisted(count, tokens, (n - 1) as nat, out);
        let before = SuiteView { preamble: out.preamble + tokens.subrange(0, n - 1), ..out };
        assert(feed(suite, tokens, (n - 1) as nat, out) == (suite, before));
        assert(!tokens[n - 1].is_punct('$'));
        assert((out.preamble + tokens.subrange(0, n - 1)).push(tokens[n - 1]) =~= out.preamble
            + tokens.subrange(0, n as int));
        assert(accept(suite, tokens[n - 1], before) == (
            suite,
            before.with_preamble(tokens[n - 1]),
        ));
    }
}

/// The first `n` of the declarations, each behind the tokens that stand in
/// front of it.
pub open spec fn interleaved(
    between: Seq<Seq<TokenView>>,
    declarations: Seq<Seq<TokenView>>,
    n: nat,
) -> Seq<TokenView>
    decreases n,
{
    if n == 0 || n > declarations.len() || n > between.len() {
        Seq::empty()
    } else {
        interleaved(between, declarations, (n - 1) as nat) + between[n - 1] + declarations[n - 1]
    }
}

/// The first `n` of the sequences, one after the other.
pub open spec fn hoisted_in_a_row(between: Seq<Seq<TokenView>>, n: nat) -> Seq<TokenView>
    decreases n,
{
    if n == 0 || n > between.len() {
        Seq::empty()
    } else {
        hoisted_in_a_row(between, (n - 1) as nat) + between[n - 1]
    }
}

/// What reading the first `n` of the declarations leaves behind, each with
/// the tokens in front of it.
proof fn interleaved_is_read(
    between: Seq<Seq<TokenView>>,
    declarations: Seq<Seq<TokenView>>,
    texts: Seq<Seq<char>>,
    n: nat,
)
    requires
        declarations.len() == texts.len(),
        declarations.len() == between.len(),
        n <= declarations.len(),
        n < usize::MAX,
        forall|i: int| 0 <= i < between.len() ==> no_anchor(#[trigger] between[i]),
        forall|i: int|
            0 <= i < declarations.len() ==> declares_leaf(#[trigger] declarations[i], texts[i])
                && texts[i].len() > 0,
    ensures
        feed(
            RuleView::Scope(ScopeView::suite()),
            interleaved(between, declarations, n),
            interleaved(between, declarations, n).len(),
            SuiteView::empty(),
        ) == (
            RuleView::Scope(suite_after(n)),
            SuiteView {
                errors: Seq::empty(),
                preamble: hoisted_in_a_row(between, n),
                tests: tests_in_a_row(declarations, texts, n),
                error_counter: 0,
            },
        ),
    decreases n,
{
    let start = RuleView::Scope(ScopeView::suite());
    if n == 0 {
        assert(tests_in_a_row(declarations, texts, 0) =~= Seq::<TestView>::empty());
    } else {
        let m = (n - 1) as nat;
        interleaved_is_read(between, declarations, texts, m);
        let front = interleaved(between, declarations, m);
        let chunk = between[n - 1];
        let back = declarations[n - 1];
        assert(declares_leaf(back, texts[n - 1]));
        assert(no_anchor(chunk));
        let so_far = feed(start, front, front.len(), SuiteView::empty());
        feed_append(start, front, chunk, chunk.len(), SuiteView::empty());
        top_is_hoisted(m, chunk, chunk.len(), so_far.1);
        assert(chunk.subrange(0, chunk.len() as int) =~= chunk);
        let hoisted = feed(start, front + chunk, (front + chunk).len(), SuiteView::empty());
        assert(hoisted.0 == RuleView::Scope(suite_after(m)));
        feed_append(start, front + chunk, back, 3, SuiteView::empty());
        leaf_is_read(back, texts[n - 1], m, hoisted.1);
        assert(tests_in_a_row(declarations, texts, m).push(
            top_level_test(back, texts[n - 1], n),
        ) =~= tests_in_a_row(declarations, texts, n));
    }
}

/// Tokens that stand at the top of the input between tests that stand
/// alone, in front of them and behind them, are hoisted: they come out
/// once, in their order, whatever tests stand between them, and the tests
/// come out as if nothing stood between them.
pub proof fn hoisting(
    between: Seq<Seq<TokenView>>,
    declarations: Seq<Seq<TokenView>>,
    texts: Seq<Seq<char>>,
    behind: Seq<TokenView>,
)
    requires
        declarations.len() == texts.len(),
        declarations.len() == between.len(),
        declarations.len() < usize::MAX,
        forall|i: int| 0 <= i < between.len() ==> no_anchor(#[trigger] between[i]),
        no_anchor(behind),
        forall|i: int|
            0 <= i < declarations.len() ==> declares_leaf(#[trigger] declarations[i], texts[i])
                && texts[i].len() > 0,
    ensures
        collected(interleaved(between, declarations, declarations.len()) + behind) == (SuiteView {
            errors: Seq::empty(),
            preamble: hoisted_in_a_row(between, between.len()) + behind,
            tests: tests_in_a_row(declarations, texts, declarations.len()),
            error_counter: 0,
        }),
{
    let n = declarations.len();
    let start = RuleView::Scope(ScopeView::suite());
    let front = interleaved(between, declarations, n);
    interleaved_is_read(between, declarations, texts, n);
    feed_append(start, front, behind, behind.len(), SuiteView::empty());
    let so_far = feed(start, front, front.len(), SuiteView::empty());
    top_is_hoisted(n, behind, behind.len(), so_far.1);
    assert(behind.subrange(0, behind.len() as int) =~= behind);
}

/// The scope after an anchor was read in it: a body has tests of its own
/// from then on.
pub open spec fn entered(scope: ScopeView) -> ScopeView {
    match scope {
        ScopeView::Suite { .. } => scope,
        ScopeView::Body { parent, name, factory, code, has_children } => ScopeView::Body {
            parent,
            name,
            factory,
            code,
            has_children: true,
        },
    }
}

/// Whether the token is an anchor followed by nothing, and `literal` the
/// literal for the name `text`.
pub open spec fn names_test(anchor: TokenView, literal: TokenView, text: Seq<char>) -> bool {
    &&& anchor.is_punct('$')
    &&& literal matches TokenView::Literal { text: written, .. } && literal_text(written) == Ok::<
        Seq<char>,
        Seq<char>,
    >(text)
}

/// The name that a scope gives to the test that is declared in it next.
pub open spec fn named_next(scope: ScopeView, literal: TokenView, text: Seq<char>) -> NameView {
    NameView { location: literal.span(), text, index: scope.count() + 1 }
}

/// An anchor and a name, read in a scope that waits for its next token,
/// name a test there: the scope has one more name.
pub proof fn name_is_read(
    scope: ScopeView,
    anchor: TokenView,
    literal: TokenView,
    text: Seq<char>,
    out: SuiteView,
)
    requires
        names_test(anchor, literal, text),
        scope.count() < usize::MAX,
    ensures
        feed(RuleView::Scope(scope), seq![anchor, literal], 2, out) == (
            RuleView::Named {
                parent: entered(scope).minted(),
                name: named_next(scope, literal, text),
            },
            out,
        ),
        entered(scope).minted().count() == scope.count() + 1,
        entered(scope).minted().chain() == scope.chain(),
        entered(scope).minted().inherited() == scope.inherited(),
{
    let tokens = seq![anchor, literal];
    let start = RuleView::Scope(scope);
    reveal_with_fuel(feed, 3);
    let after_anchor = accept(start, tokens[0], out);
    assert(after_anchor == (RuleView::Anchor { parent: entered(scope), anchor: anchor.span() }, out));
    assert(feed(start, tokens, 1, out) == after_anchor);
    assert(dollars_matched(literal) == MatchView::Name(text));
}

/// A test that is declared by a name and a braced body without an anchor
/// of its own, in any scope: its code is the code that the scopes around it
/// have read so far, outermost first, and then its body. The scopes keep
/// their code for the tests that follow.
pub proof fn braced_leaf_is_read(
    scope: ScopeView,
    tokens: Seq<TokenView>,
    text: Seq<char>,
    out: SuiteView,
)
    requires
        declares_leaf(tokens, text),
        scope.count() < usize::MAX,
    ensures
        feed(RuleView::Scope(scope), tokens, 3, out) == (
            RuleView::Scope(entered(scope).minted()),
            crate::parse::model::leaf(
                out,
                entered(scope).minted(),
                named_next(scope, tokens[1], text),
                inside(tokens[2]),
            ),
        ),
        entered(scope).minted().inherited() == scope.inherited(),
{
    let start = RuleView::Scope(scope);
    let parent = entered(scope).minted();
    let name = named_next(scope, tokens[1], text);
    name_is_read(scope, tokens[0], tokens[1], text, out);
    assert(tokens.subrange(0, 2) =~= seq![tokens[0], tokens[1]].subrange(0, 2));
    feed_prefix(start, tokens, seq![tokens[0], tokens[1]], 2, out);
    let stream = inside(tokens[2]);
    let body = ScopeView::body(parent, name);
    code_is_kept(body, stream, stream.len(), out);
    assert(stream.subrange(0, stream.len() as int) =~= stream);
    let full = with_code(body, stream);
    assert(Seq::<TokenView>::empty() + stream =~= stream);
    assert(process_group(parent, name, stream, out) == close_group(RuleView::Scope(full), out));
    assert(full.chain() == parent.chain().push(PartView { name, siblings: parent.count() }));
    assert(full.inherited() == parent.inherited() + stream);
    assert(accept(RuleView::Named { parent, name }, tokens[2], out) == process_group(
        parent,
        name,
        stream,
        out,
    ));
}

/// Whether no token of the sequence is an anchor or ends a declaration.
pub open spec fn plain(tokens: Seq<TokenView>) -> bool {
    forall|i: int|
        0 <= i < tokens.len() ==> !(#[trigger] tokens[i]).is_punct('$') && !tokens[i].is_punct(';')
}

/// Tokens behind a name that are no anchor, no `;` and do not begin with a
/// braced group are the left side of an assertion.
pub proof fn left_is_read(
    parent: ScopeView,
    name: NameView,
    tokens: Seq<TokenView>,
    n: nat,
    out: SuiteView,
)
    requires
        plain(tokens),
        0 < n <= tokens.len(),
        !tokens[0].is_braced(),
    ensures
        feed(RuleView::Named { parent, name }, tokens, n, out) == (
            RuleView::Assert { parent, name, left: tokens.subrange(0, n as int) },
            out,
        ),
    decreases n,
{
    let start = RuleView::Named { parent, name };
    if n == 1 {
        reveal_with_fuel(feed, 2);
        assert(Seq::<TokenView>::empty().push(tokens[0]) =~= tokens.subrange(0, 1));
        assert(!tokens[0].is_punct('$') && !tokens[0].is_punct(';'));
        assert(feed(start, tokens, 0, out) == (start, out));
        assert(accept(start, tokens[0], out) == crate::parse::model::accept_assert(
            parent,
            name,
            Seq::empty(),
            tokens[0],
            out,
        ));
    } else {
        left_is_read(parent, name, tokens, (n - 1) as nat, out);
        let before = RuleView::Assert { parent, name, left: tokens.subrange(0, n - 1) };
        assert(feed(start, tokens, (n - 1) as nat, out) == (before, out));
        assert(tokens.subrange(0, n - 1).push(tokens[n - 1]) =~= tokens.subrange(0, n as int));
        assert(!tokens[n - 1].is_punct('$') && !tokens[n - 1].is_punct(';'));
        assert(accept(before, tokens[n - 1], out) == (
            RuleView::Assert { parent, name, left: tokens.subrange(0, n as int) },
            out,
        ));
    }
}

/// Tokens behind the kind of an equality assertion that are no `;` are its
/// right side.
pub proof fn right_is_read(
    rule: RuleView,
    tokens: Seq<TokenView>,
    n: nat,
    out: SuiteView,
)
    requires
        rule is AssertEq,
        forall|i: int| 0 <= i < tokens.len() ==> !(#[trigger] tokens[i]).is_punct(';'),
        n <= tokens.len(),
    ensures
        feed(rule, tokens, n, out) == (
            RuleView::AssertEq {
                parent: rule->AssertEq_parent,
                name: rule->AssertEq_name,
                negation: rule->AssertEq_negation,
                anchor: rule->AssertEq_anchor,
                left: rule->AssertEq_left,
                right: rule->AssertEq_right + tokens.subrange(0, n as int),
            },
            out,
        ),
    decreases n,
{
    let parent = rule->AssertEq_parent;
    let name = rule->AssertEq_name;
    let negation = rule->AssertEq_negation;
    let anchor = rule->AssertEq_anchor;
    let left = rule->AssertEq_left;
    let right = rule->AssertEq_right;
    if n == 0 {
        assert(right + tokens.subrange(0, 0) =~= right);
        assert(rule == (RuleView::AssertEq { parent, name, negation, anchor, left, right }));
    } else {
        right_is_read(rule, tokens, (n - 1) as nat, out);
        let before = RuleView::AssertEq {
            parent,
            name,
            negation,
            anchor,
            left,
            right: right + tokens.subrange(0, n - 1),
        };
        assert(feed(rule, tokens, (n - 1) as nat, out) == (before, out));
        assert(!tokens[n - 1].is_punct(';'));
        assert((right + tokens.subrange(0, n - 1)).push(tokens[n - 1]) =~= right
            + tokens.subrange(0, n as int));
        assert(accept(before, tokens[n - 1], out) == (
            RuleView::AssertEq {
                parent,
                name,
                negation,
                anchor,
                left,
                right: right + tokens.subrange(0, n as int),
            },
            out,
        ));
    }
}

/// A name, tokens and a `;` declare the test that asserts the tokens: its
/// code is the code of the scopes around it and then `assert!(tokens);`.
pub proof fn assertion_is_lowered(
    scope: ScopeView,
    anchor: TokenView,
    literal: TokenView,
    text: Seq<char>,
    left: Seq<TokenView>,
    end: TokenView,
    out: SuiteView,
)
    requires
        names_test(anchor, literal, text),
        scope.count() < usize::MAX,
        plain(left),
        left.len() > 0,
        !left[0].is_braced(),
        end.is_punct(';'),
    ensures
        ({
            let tokens = seq![anchor, literal] + left + seq![end];
            feed(RuleView::Scope(scope), tokens, tokens.len(), out) == (
                RuleView::Scope(entered(scope).minted()),
                crate::parse::model::leaf(
                    out,
                    entered(scope).minted(),
                    named_next(scope, literal, text),
                    crate::parse::model::macro_call("assert"@, left, literal.span()),
                ),
            )
        }),
{
    let start = RuleView::Scope(scope);
    let head = seq![anchor, literal];
    let parent = entered(scope).minted();
    let name = named_next(scope, literal, text);
    name_is_read(scope, anchor, literal, text, out);
    feed_append(start, head, left, left.len(), out);
    left_is_read(parent, name, left, left.len(), out);
    assert(left.subrange(0, left.len() as int) =~= left);
    feed_append(start, head + left, seq![end], 1, out);
    reveal_with_fuel(feed, 2);
}

/// A name, a left side, `$eq` or `$ne`, a right side and a `;` declare the
/// test that compares the sides: its code is the code of the scopes around
/// it and then `assert_eq!(left, right);` or `assert_ne!(left, right);`.
pub proof fn equality_is_lowered(
    scope: ScopeView,
    anchor: TokenView,
    literal: TokenView,
    text: Seq<char>,
    left: Seq<TokenView>,
    second: TokenView,
    word: TokenView,
    right: Seq<TokenView>,
    end: TokenView,
    out: SuiteView,
)
    requires
        names_test(anchor, literal, text),
        scope.count() < usize::MAX,
        plain(left),
        left.len() > 0,
        !left[0].is_braced(),
        second.is_punct('$'),
        word matches TokenView::Ident { text: kind, .. } && crate::parse::anchor::dollars_of(kind)
            is Some,
        forall|i: int| 0 <= i < right.len() ==> !(#[trigger] right[i]).is_punct(';'),
        right.len() > 0,
        end.is_punct(';'),
    ensures
        ({
            let tokens = seq![anchor, literal] + left + seq![second, word] + right + seq![end];
            let kind = crate::parse::anchor::dollars_of(word->Ident_text)->0;
            feed(RuleView::Scope(scope), tokens, tokens.len(), out) == (
                RuleView::Scope(entered(scope).minted()),
                crate::parse::model::leaf(
                    out,
                    entered(scope).minted(),
                    named_next(scope, literal, text),
                    crate::parse::model::macro_call(
                        crate::parse::model::equality_macro(
                            crate::parse::model::negation_of(kind),
                        ),
                        left.push(crate::generator::punct_of(',', word.span())) + right,
                        word.span(),
                    ),
                ),
            )
        }),
{
    let start = RuleView::Scope(scope);
    let head = seq![anchor, literal];
    let parent = entered(scope).minted();
    let name = named_next(scope, literal, text);
    let kind = crate::parse::anchor::dollars_of(word->Ident_text)->0;
    name_is_read(scope, anchor, literal, text, out);
    feed_append(start, head, left, left.len(), out);
    left_is_read(parent, name, left, left.len(), out);
    assert(left.subrange(0, left.len() as int) =~= left);
    let turn = seq![second, word];
    feed_append(start, head + left, turn, 2, out);
    let after_left = RuleView::Assert { parent, name, left };
    reveal_with_fuel(feed, 3);
    assert(feed(after_left, turn, 1, out) == (
        RuleView::AssertAnchor { parent, anchor: second.span(), name, left },
        out,
    ));
    let comparing = RuleView::AssertEq {
        parent,
        name,
        negation: crate::parse::model::negation_of(kind),
        anchor: word.span(),
        left,
        right: Seq::empty(),
    };
    assert(feed(after_left, turn, 2, out) == (comparing, out));
    feed_append(start, head + left + turn, right, right.len(), out);
    right_is_read(comparing, right, right.len(), out);
    assert(Seq::<TokenView>::empty() + right.subrange(0, right.len() as int) =~= right);
    feed_append(start, head + left + turn + right, seq![end], 1, out);
}

/// Whether the lists `after` are the lists `before` with more behind them:
/// nothing that was collected is taken away or changed.
pub open spec fn grown(before: SuiteView, after: SuiteView) -> bool {
    &&& before.errors.is_prefix_of(after.errors)
    &&& before.preamble.is_prefix_of(after.preamble)
    &&& before.tests.is_prefix_of(after.tests)
    &&& before.error_counter <= after.error_counter
}

/// Whether `after` is the scope `before` at a later time: the same scope in
/// the same surroundings, with no less code, no fewer names, and with tests
/// of its own if it had any.
pub open spec fn later(before: ScopeView, after: ScopeView) -> bool {
    match before {
        ScopeView::Suite { factory } => after is Suite && factory.counter <= after.count()
            && after.factory().title == factory.title,
        ScopeView::Body { parent, name, factory, code, has_children } => {
            &&& after matches ScopeView::Body {
                parent: parent2,
                name: name2,
                factory: factory2,
                code: code2,
                has_children: children2,
            }
            &&& parent2 == parent
            &&& name2 == name
            &&& factory2.title == factory.title
            &&& factory.counter <= factory2.counter
            &&& code.is_prefix_of(code2)
            &&& (has_children ==> children2)
        },
    }
}

/// One for a rule that has just read an anchor and may name a test with
/// its next token, none for the others.
pub open spec fn may_name(rule: RuleView) -> nat {
    match rule {
        RuleView::Anchor { .. } => 1,
        _ => 0,
    }
}

/// What reading `tokens` tokens keeps: the rule stays in its scope, the
/// scope gets a name for every second token at most, the lists only grow,
/// and only the suite hoists.
pub open spec fn kept(
    rule: RuleView,
    out: SuiteView,
    step: (RuleView, SuiteView),
    tokens: nat,
) -> bool {
    &&& later(rule.scope(), step.0.scope())
    &&& 2 * step.0.scope().count() + may_name(step.0) <= 2 * rule.scope().count() + may_name(rule)
        + tokens
    &&& grown(out, step.1)
    &&& (rule.scope() is Body ==> step.1.preamble == out.preamble)
}

/// A test or a diagnostic in its place is added behind what was collected.
proof fn emitted_grows(out: SuiteView, chain: Seq<PartView>, code: Seq<TokenView>)
    ensures
        grown(out, emitted(out, chain, code)),
        emitted(out, chain, code).preamble == out.preamble,
{
}

/// The end of a group does not touch what was collected, and hands over
/// to the scope of the rule or, from a body, to the scope around it.
pub proof fn end_of_group_keeps(rule: RuleView, out: SuiteView)
    ensures
        grown(out, end_of_group(rule, out).1),
        end_of_group(rule, out).1.preamble == out.preamble,
        end_of_group(rule, out).0 is Scope,
        !(rule is Scope) ==> end_of_group(rule, out).0 == RuleView::Scope(rule.scope()),
        rule matches RuleView::Scope(ScopeView::Body { parent, .. }) ==> end_of_group(rule, out).0
            == RuleView::Scope(*parent),
{
    match rule {
        RuleView::Scope(scope) => {
            match scope {
                ScopeView::Suite { .. } => {},
                ScopeView::Body { has_children, .. } => {
                    emitted_grows(out, scope.chain(), scope.inherited());
                },
            }
        },
        _ => {},
    }
}

/// The end of the input does not touch what was collected.
pub proof fn end_of_stream_keeps(rule: RuleView, out: SuiteView)
    ensures
        grown(out, end_of_stream(rule, out)),
        end_of_stream(rule, out).preamble == out.preamble,
{
    match rule {
        RuleView::Scope(scope) => {
            emitted_grows(out, scope.chain(), scope.inherited());
        },
        _ => {},
    }
}

/// What [`accept_keeps`] says, for a token behind something that was no
/// name.
proof fn naming_error_keeps(parent: ScopeView, name: NameView, token: TokenView, out: SuiteView)
    ensures
        kept(
            RuleView::NamingError { parent, name },
            out,
            accept_naming_error(parent, name, token, out),
            0,
        ),
        !(accept_naming_error(parent, name, token, out).0 is Anchor),
    decreases token, 0nat,
{
    match token {
        TokenView::Group { delimiter, stream, span } => {
            if delimiter == Delimiter::Brace {
                group_returns(parent, name, stream, out);
            }
        },
        _ => {},
    }
}

/// Reading a token keeps the rule in its scope, takes nothing away from
/// what was collected, and hoists nothing from inside a body. It names a
/// test in the scope only behind an anchor.
pub proof fn accept_keeps(rule: RuleView, token: TokenView, out: SuiteView)
    ensures
        kept(rule, out, accept(rule, token, out), 1),
    decreases token, 1nat,
{
    match rule {
        RuleView::Scope(scope) => {},
        RuleView::Anchor { parent, anchor } => {
            match dollars_matched(token) {
                MatchView::Name(text) => {},
                MatchView::SemiColon => {},
                found => {
                    let told = out.with_error(
                        token.span(),
                        crate::parse::model::name_expected(parent) + crate::parse::model::name_found(
                            parent,
                            found,
                        ),
                    );
                    naming_error_keeps(
                        parent.minted(),
                        parent.next_name(token.span(), told.missing_name(token.span()).text),
                        token,
                        told.with_missing(),
                    );
                },
            }
        },
        RuleView::Named { parent, name } => {
            match token {
                TokenView::Group { delimiter, stream, span } => {
                    if delimiter == Delimiter::Brace {
                        group_returns(parent, name, stream, out);
                    } else {
                        assert_keeps(parent, name, Seq::empty(), token, out);
                    }
                },
                _ => {
                    assert_keeps(parent, name, Seq::empty(), token, out);
                },
            }
        },
        RuleView::NamingError { parent, name } => {
            naming_error_keeps(parent, name, token, out);
        },
        RuleView::Assert { parent, name, left } => {
            assert_keeps(parent, name, left, token, out);
        },
        RuleView::AssertAnchor { parent, anchor, name, left } => {},
        RuleView::AssertError { parent } => {},
        RuleView::AssertEq { parent, name, negation, anchor, left, right } => {
            if token.is_punct(';') {
                let first = if left.len() == 0 {
                    out.with_error(
                        anchor,
                        "no code found for the left side of the equality assertion"@,
                    )
                } else {
                    out
                };
                let second = if right.len() == 0 {
                    first.with_error(
                        anchor,
                        "no code found for the right hand side of the equality assertion"@,
                    )
                } else {
                    first
                };
                emitted_grows(
                    second,
                    parent.chain().push(PartView { name, siblings: parent.count() }),
                    parent.inherited() + crate::parse::model::macro_call(
                        crate::parse::model::equality_macro(negation),
                        left.push(crate::generator::punct_of(',', anchor)) + right,
                        anchor,
                    ),
                );
            }
        },
    }
}

/// What [`accept_keeps`] says, for a token of the left side of an
/// assertion.
proof fn assert_keeps(
    parent: ScopeView,
    name: NameView,
    left: Seq<TokenView>,
    token: TokenView,
    out: SuiteView,
)
    ensures
        kept(
            RuleView::Assert { parent, name, left },
            out,
            crate::parse::model::accept_assert(parent, name, left, token, out),
            0,
        ),
{
    if token.is_punct(';') && left.len() > 0 {
        emitted_grows(
            out,
            parent.chain().push(PartView { name, siblings: parent.count() }),
            parent.inherited() + crate::parse::model::macro_call("assert"@, left, name.location),
        );
    }
}

/// Reading `n` tokens keeps the rule in its scope, takes nothing away from
/// what was collected, and hoists nothing from inside a body.
pub proof fn feed_keeps(rule: RuleView, tokens: Seq<TokenView>, n: nat, out: SuiteView)
    ensures
        kept(rule, out, feed(rule, tokens, n, out), n),
    decreases tokens, n,
{
    if n == 0 || n > tokens.len() {
    } else {
        feed_keeps(rule, tokens, (n - 1) as nat, out);
        let (before, lists) = feed(rule, tokens, (n - 1) as nat, out);
        accept_keeps(before, tokens[n - 1], lists);
    }
}

/// Whatever stands in a braced group, reading it ends in the scope that
/// the group stands in, as that scope was before: what goes wrong inside
/// the group stays there. Nothing that was collected is taken away, and
/// nothing is hoisted.
pub proof fn group_returns(
    parent: ScopeView,
    name: NameView,
    stream: Seq<TokenView>,
    out: SuiteView,
)
    ensures
        process_group(parent, name, stream, out).0 == RuleView::Scope(parent),
        grown(out, process_group(parent, name, stream, out).1),
        process_group(parent, name, stream, out).1.preamble == out.preamble,
    decreases stream, stream.len() + 1,
{
    let start = RuleView::Scope(ScopeView::body(parent, name));
    feed_keeps(start, stream, stream.len(), out);
    let (inside, lists) = feed(start, stream, stream.len(), out);
    end_of_group_keeps(inside, lists);
    let (scope, told) = end_of_group(inside, lists);
    end_of_group_keeps(scope, told);
}

/// Whether a declaration is being read that has not been reported yet.
pub open spec fn open_declaration(rule: RuleView) -> bool {
    rule is Anchor || rule is Named || rule is Assert || rule is AssertAnchor || rule is AssertEq
}

/// A `;` ends whatever is being read: behind it the scope waits for its
/// next token. A declaration that ends there and was not reported before
/// leaves its test or a diagnostic behind, so none ends in silence.
pub proof fn semicolon_ends_declaration(rule: RuleView, token: TokenView, out: SuiteView)
    requires
        token.is_punct(';'),
    ensures
        accept(rule, token, out).0 is Scope,
        later(rule.scope(), accept(rule, token, out).0.scope()),
        open_declaration(rule) ==> accept(rule, token, out).1.errors.len() + accept(
            rule,
            token,
            out,
        ).1.tests.len() > out.errors.len() + out.tests.len(),
{
    accept_keeps(rule, token, out);
}

/// A declaration that the end of its group or of the input cuts short is
/// reported with one diagnostic, and no test comes of it.
pub proof fn unfinished_is_reported(rule: RuleView, out: SuiteView)
    requires
        !(rule is Scope),
    ensures
        end_of_group(rule, out).1.errors.len() == out.errors.len() + 1,
        end_of_group(rule, out).1.tests == out.tests,
        end_of_stream(rule, out).errors.len() == out.errors.len() + 1,
        end_of_stream(rule, out).tests == out.tests,
{
}

/// A scope names a test for every second of its tokens at most, so the
/// count of its names stays below the greatest number that the machine
/// holds, whatever it reads: each name of a scope has a number of its own.
pub proof fn scope_counts_stay_small(scope: ScopeView, tokens: Seq<TokenView>, n: nat, out: SuiteView)
    requires
        scope.count() == 0,
        n <= tokens.len() <= usize::MAX,
    ensures
        2 * feed(RuleView::Scope(scope), tokens, n, out).0.scope().count() <= n,
        feed(RuleView::Scope(scope), tokens, n, out).0.scope().count() < usize::MAX,
{
    feed_keeps(RuleView::Scope(scope), tokens, n, out);
}

} // verus!
