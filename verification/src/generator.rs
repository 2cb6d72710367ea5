//! What an expansion collects, and the tokens it is written out as.
//!
//! A [`SuiteGenerator`] gathers three lists while the input is read: the
//! diagnostics, the tokens that stood outside every test, and the tests. All
//! three only grow. At the end the lists are written out in that order,
//! inside one module.
use vstd::prelude::*;
use crate::name::{missing_text, Name, NameView};
use crate::span::Span;
use crate::token::{
    braced, braced_stream, bracketed, extend_tokens, ident, lit_string, parenthesised, punct,
    stream_view, stream_view_index, stream_view_push, Delimiter, Token, TokenView,
};

verus! {

/// A diagnostic, as a mathematical value.
pub struct ErrorView {
    pub span: Span,
    pub msg: Seq<char>,
}

/// A message for the author of the input, with the place it is about.
#[derive(Debug)]
pub struct CompilationError {
    span: Span,
    msg: String,
}

impl View for CompilationError {
    type V = ErrorView;

    closed spec fn view(&self) -> ErrorView {
        ErrorView { span: self.span, msg: self.msg@ }
    }
}

/// A test, as a mathematical value.
pub struct TestView {
    pub name: Seq<char>,
    pub anchor: Span,
    pub code: Seq<TokenView>,
}

/// A test that is ready to be written out: the name of its function, the
/// place where it was named and the tokens of its body.
#[derive(Debug)]
pub struct TestCase {
    name: String,
    anchor: Span,
    code: Vec<Token>,
}

impl View for TestCase {
    type V = TestView;

    closed spec fn view(&self) -> TestView {
        TestView { name: self.name@, anchor: self.anchor, code: stream_view(self.code@) }
    }
}

/// The lists of an expansion, as a mathematical value.
pub struct SuiteView {
    pub errors: Seq<ErrorView>,
    pub preamble: Seq<TokenView>,
    pub tests: Seq<TestView>,
    /// How many placeholder names have been handed out.
    pub error_counter: nat,
}

/// Collects the diagnostics, the preamble and the tests of one expansion.
#[derive(Debug)]
pub struct SuiteGenerator {
    errors: Vec<CompilationError>,
    preamble: Vec<Token>,
    tests: Vec<TestCase>,
    error_counter: usize,
}

/// The views of a list of diagnostics.
pub open spec fn errors_view(errors: Seq<CompilationError>) -> Seq<ErrorView> {
    errors.map_values(|e: CompilationError| e@)
}

/// The views of a list of tests.
pub open spec fn tests_view(tests: Seq<TestCase>) -> Seq<TestView> {
    tests.map_values(|t: TestCase| t@)
}

impl View for SuiteGenerator {
    type V = SuiteView;

    closed spec fn view(&self) -> SuiteView {
        SuiteView {
            errors: errors_view(self.errors@),
            preamble: stream_view(self.preamble@),
            tests: tests_view(self.tests@),
            error_counter: self.error_counter as nat,
        }
    }
}

impl SuiteView {
    /// The lists before anything is read.
    pub open spec fn empty() -> SuiteView {
        SuiteView {
            errors: Seq::empty(),
            preamble: Seq::empty(),
            tests: Seq::empty(),
            error_counter: 0,
        }
    }

    /// Whether nothing has been collected.
    pub open spec fn is_empty(self) -> bool {
        self.errors.len() == 0 && self.preamble.len() == 0 && self.tests.len() == 0
    }

    /// The lists with one more token outside the tests.
    pub open spec fn with_preamble(self, token: TokenView) -> SuiteView {
        SuiteView { preamble: self.preamble.push(token), ..self }
    }

    /// The lists with one more test.
    pub open spec fn with_test(self, test: TestView) -> SuiteView {
        SuiteView { tests: self.tests.push(test), ..self }
    }

    /// The lists with one more diagnostic.
    pub open spec fn with_error(self, span: Span, msg: Seq<char>) -> SuiteView {
        SuiteView { errors: self.errors.push(ErrorView { span, msg }), ..self }
    }

    /// The count of placeholder names after one more. It stops at the
    /// greatest number that the machine holds.
    pub open spec fn next_missing(self) -> nat {
        if self.error_counter < usize::MAX {
            self.error_counter + 1
        } else {
            self.error_counter
        }
    }

    /// The lists after a placeholder name was handed out.
    pub open spec fn with_missing(self) -> SuiteView {
        SuiteView { error_counter: self.next_missing(), ..self }
    }

    /// The placeholder name that is handed out next for `location`.
    pub open spec fn missing_name(self, location: Span) -> NameView {
        NameView { location, text: missing_text(self.next_missing()), index: 1 }
    }
}

impl CompilationError {
    /// The diagnostic `msg` about the place `span`.
    pub fn new(msg: &str, span: &Span) -> (r: Self)
        ensures
            r@ == (ErrorView { span: *span, msg: msg@ }),
    {
        Self { span: *span, msg: String::from_str(msg) }
    }

    /// The place the diagnostic is about.
    pub fn span(&self) -> (r: Span)
        ensures
            r == self@.span,
    {
        self.span
    }

    /// The words of the diagnostic.
    pub fn message(&self) -> (r: &str)
        ensures
            r@ == self@.msg,
    {
        self.msg.as_str()
    }
}

impl SuiteGenerator {
    /// A generator that has collected nothing.
    pub fn new() -> (r: Self)
        ensures
            r@ == SuiteView::empty(),
    {
        let r = Self {
            errors: Vec::new(),
            preamble: Vec::new(),
            tests: Vec::new(),
            error_counter: 0,
        };
        assert(r@.errors =~= Seq::empty());
        assert(r@.tests =~= Seq::empty());
        r
    }

    /// Adds a token that stood outside every test.
    pub fn push_preamble(&mut self, token: Token)
        ensures
            final(self)@ == old(self)@.with_preamble(token@),
    {
        proof {
            stream_view_push(self.preamble@, token);
        }
        self.preamble.push(token);
    }

    /// Adds a test.
    pub fn push_test(&mut self, test: TestCase)
        ensures
            final(self)@ == old(self)@.with_test(test@),
    {
        self.tests.push(test);
        assert(self@.tests =~= old(self)@.tests.push(test@));
    }

    /// Adds a diagnostic.
    pub fn push_error(&mut self, error: CompilationError)
        ensures
            final(self)@ == old(self)@.with_error(error@.span, error@.msg),
    {
        self.errors.push(error);
        assert(self@.errors =~= old(self)@.errors.push(error@));
    }

    /// Adds the diagnostic `msg` about the place `location`.
    pub fn push_new_error(&mut self, location: &Span, msg: &str)
        ensures
            final(self)@ == old(self)@.with_error(*location, msg@),
    {
        self.push_error(CompilationError::new(msg, location));
    }

    /// A placeholder for a name that could not be read at `location`. The
    /// first is `missing_name`, the later ones carry their number.
    pub fn make_missing_name(&mut self, location: &Span) -> (r: Name)
        ensures
            final(self)@ == old(self)@.with_missing(),
            r@ == old(self)@.missing_name(*location),
    {
        if self.error_counter < usize::MAX {
            self.error_counter += 1;
        }
        Name::missing(location, self.error_counter)
    }

    /// The diagnostics so far.
    pub fn errors(&self) -> (r: &Vec<CompilationError>)
        ensures
            errors_view(r@) == self@.errors,
    {
        &self.errors
    }

    /// The tokens outside the tests so far.
    pub fn preamble(&self) -> (r: &Vec<Token>)
        ensures
            stream_view(r@) == self@.preamble,
    {
        &self.preamble
    }

    /// The tests so far.
    pub fn tests(&self) -> (r: &Vec<TestCase>)
        ensures
            tests_view(r@) == self@.tests,
    {
        &self.tests
    }
}

impl TestCase {
    /// A test without code, from the name of its function and the place
    /// where it was named.
    pub fn new(named: (String, Span)) -> (r: Self)
        ensures
            r@ == (TestView { name: named.0@, anchor: named.1, code: Seq::empty() }),
    {
        Self { name: named.0, anchor: named.1, code: Vec::new() }
    }

    /// Adds tokens to the end of the code.
    pub fn push_code(&mut self, tokens: Vec<Token>)
        ensures
            final(self)@ == (TestView {
                name: old(self)@.name,
                anchor: old(self)@.anchor,
                code: old(self)@.code + stream_view(tokens@),
            }),
    {
        extend_tokens(&mut self.code, tokens);
    }

    /// The name of the function.
    pub fn name(&self) -> (r: &str)
        ensures
            r@ == self@.name,
    {
        self.name.as_str()
    }

    /// The place where the test was named.
    pub fn anchor(&self) -> (r: Span)
        ensures
            r == self@.anchor,
    {
        self.anchor
    }

    /// The tokens of the body.
    pub fn code(&self) -> (r: &Vec<Token>)
        ensures
            stream_view(r@) == self@.code,
    {
        &self.code
    }
}

/// A group, as a value.
pub open spec fn group_of(delimiter: Delimiter, stream: Seq<TokenView>, span: Span) -> TokenView {
    TokenView::Group { delimiter, stream, span }
}

/// An identifier, as a value.
pub open spec fn ident_of(text: Seq<char>, span: Span) -> TokenView {
    TokenView::Ident { text, span }
}

/// A punctuation character that stands alone, as a value.
pub open spec fn punct_of(ch: char, span: Span) -> TokenView {
    TokenView::Punct { ch, joint: false, span }
}

/// The declaration of a test: `#[test] fn name() { code }`, every token at
/// the place where the test was named.
pub open spec fn test_tokens(test: TestView) -> Seq<TokenView> {
    seq![
        punct_of('#', test.anchor),
        group_of(Delimiter::Bracket, seq![ident_of("test"@, test.anchor)], test.anchor),
        ident_of("fn"@, test.anchor),
        ident_of(test.name, test.anchor),
        group_of(Delimiter::Parenthesis, Seq::empty(), test.anchor),
        group_of(Delimiter::Brace, test.code, test.anchor),
    ]
}

/// The directive for a diagnostic: `compile_error!("msg");`, every token at
/// the place the diagnostic is about.
pub open spec fn error_tokens(error: ErrorView) -> Seq<TokenView> {
    seq![
        ident_of("compile_error"@, error.span),
        punct_of('!', error.span),
        group_of(
            Delimiter::Parenthesis,
            seq![TokenView::Str { value: error.msg, span: error.span }],
            error.span,
        ),
        punct_of(';', error.span),
    ]
}

/// The directives of the first `n` diagnostics, in order.
pub open spec fn all_error_tokens(errors: Seq<ErrorView>, n: nat) -> Seq<TokenView>
    decreases n,
{
    if n == 0 || n > errors.len() {
        Seq::empty()
    } else {
        all_error_tokens(errors, (n - 1) as nat) + error_tokens(errors[n - 1])
    }
}

/// The declarations of the first `n` tests, in order.
pub open spec fn all_test_tokens(tests: Seq<TestView>, n: nat) -> Seq<TokenView>
    decreases n,
{
    if n == 0 || n > tests.len() {
        Seq::empty()
    } else {
        all_test_tokens(tests, (n - 1) as nat) + test_tokens(tests[n - 1])
    }
}

/// What stands inside the module: all diagnostics, then the preamble once
/// and as it came, then all tests.
pub open spec fn suite_tokens(suite: SuiteView) -> Seq<TokenView> {
    all_error_tokens(suite.errors, suite.errors.len()) + suite.preamble + all_test_tokens(
        suite.tests,
        suite.tests.len(),
    )
}

/// An attribute `#[name(argument)]` at the place of the expansion.
pub open spec fn attribute_tokens(name: Seq<char>, argument: Seq<char>) -> Seq<TokenView> {
    seq![
        punct_of('#', Span::call_site()),
        group_of(
            Delimiter::Bracket,
            seq![
                ident_of(name, Span::call_site()),
                group_of(
                    Delimiter::Parenthesis,
                    seq![ident_of(argument, Span::call_site())],
                    Span::call_site(),
                ),
            ],
            Span::call_site(),
        ),
    ]
}

/// The whole output: nothing where nothing was collected, else the module
/// `spoketest` around [`suite_tokens`], marked as test code in which unused
/// bindings are no fault.
pub open spec fn output_tokens(suite: SuiteView) -> Seq<TokenView> {
    if suite.is_empty() {
        Seq::empty()
    } else {
        attribute_tokens("cfg"@, "test"@) + attribute_tokens("allow"@, "unused_mut"@)
            + attribute_tokens("allow"@, "unused_variables"@) + seq![
            ident_of("mod"@, Span::call_site()),
            ident_of("spoketest"@, Span::call_site()),
            group_of(Delimiter::Brace, suite_tokens(suite), Span::call_site()),
        ]
    }
}

/// Writes an attribute `#[name(argument)]` to the end of `output`.
fn push_attribute(output: &mut Vec<Token>, name: &str, argument: &str)
    ensures
        stream_view(final(output)@) == stream_view(old(output)@) + attribute_tokens(
            name@,
            argument@,
        ),
{
    let call_site = Span::call_site();
    let ghost before = output@;
    let mut inner: Vec<Token> = Vec::new();
    inner.push(ident(argument, call_site));
    let mut outer: Vec<Token> = Vec::new();
    outer.push(ident(name, call_site));
    proof {
        stream_view_index(inner@);
        assert(stream_view(inner@) =~= seq![ident_of(argument@, call_site)]);
    }
    outer.push(parenthesised(inner, call_site));
    proof {
        stream_view_index(outer@);
        assert(stream_view(outer@) =~= seq![
            ident_of(name@, call_site),
            group_of(Delimiter::Parenthesis, seq![ident_of(argument@, call_site)], call_site),
        ]);
    }
    let mut all: Vec<Token> = Vec::new();
    all.push(punct('#', call_site));
    all.push(bracketed(outer, call_site));
    proof {
        stream_view_index(all@);
        assert(stream_view(all@) =~= attribute_tokens(name@, argument@));
    }
    extend_tokens(output, all);
}

impl SuiteGenerator {
    /// Whether nothing has been collected.
    pub fn is_empty(&self) -> (r: bool)
        ensures
            r == self@.is_empty(),
    {
        self.errors.len() == 0 && self.preamble.len() == 0 && self.tests.len() == 0
    }

    /// Writes out what was collected.
    pub fn generate_output(self) -> (output: Vec<Token>)
        ensures
            stream_view(output@) == output_tokens(self@),
    {
        let call_site = Span::call_site();
        let mut output: Vec<Token> = Vec::new();
        if self.is_empty() {
            return output;
        }
        let ghost suite = self@;
        push_attribute(&mut output, "cfg", "test");
        push_attribute(&mut output, "allow", "unused_mut");
        push_attribute(&mut output, "allow", "unused_variables");
        let ghost front = output@;
        let mut tail: Vec<Token> = Vec::new();
        tail.push(ident("mod", call_site));
        tail.push(ident("spoketest", call_site));
        tail.push(braced_stream(self.generate_suite()));
        proof {
            stream_view_index(tail@);
            assert(stream_view(tail@) =~= seq![
                ident_of("mod"@, call_site),
                ident_of("spoketest"@, call_site),
                group_of(Delimiter::Brace, suite_tokens(suite), call_site),
            ]);
        }
        extend_tokens(&mut output, tail);
        assert(stream_view(output@) =~= output_tokens(suite));
        output
    }

    /// Writes out what stands inside the module.
    pub fn generate_suite(self) -> (output: Vec<Token>)
        ensures
            stream_view(output@) == suite_tokens(self@),
    {
        let ghost suite = self@;
        let mut output: Vec<Token> = Vec::new();
        let errors = self.errors;
        let preamble = self.preamble;
        let tests = self.tests;
        let mut i: usize = 0;
        while i < errors.len()
            invariant
                i <= errors.len(),
                suite.errors == errors_view(errors@),
                stream_view(output@) == all_error_tokens(suite.errors, i as nat),
            decreases errors.len() - i,
        {
            errors[i].generate_into(&mut output);
            i += 1;
        }
        extend_tokens(&mut output, preamble);
        let ghost front = stream_view(output@);
        let ghost all_tests = tests@;
        for test in it: tests
            invariant
                it.seq() == all_tests,
                suite.tests == tests_view(all_tests),
                stream_view(output@) == front + all_test_tokens(suite.tests, it.index() as nat),
        {
            let mut test = test;
            test.generate_into(&mut output);
            assert(stream_view(output@) =~= front + all_test_tokens(
                suite.tests,
                (it.index() + 1) as nat,
            ));
        }
        assert(stream_view(output@) =~= suite_tokens(suite));
        output
    }
}

impl TestCase {
    /// Writes the declaration of the test to the end of `output`. The code
    /// moves there, so the test is left without any.
    pub fn generate_into(&mut self, output: &mut Vec<Token>)
        ensures
            stream_view(final(output)@) == stream_view(old(output)@) + test_tokens(old(self)@),
            final(self)@ == (TestView {
                name: old(self)@.name,
                anchor: old(self)@.anchor,
                code: Seq::empty(),
            }),
    {
        let anchor = self.anchor;
        let mut code: Vec<Token> = Vec::new();
        std::mem::swap(&mut code, &mut self.code);
        let mut marker: Vec<Token> = Vec::new();
        marker.push(ident("test", anchor));
        proof {
            stream_view_index(marker@);
            assert(stream_view(marker@) =~= seq![ident_of("test"@, anchor)]);
        }
        let mut all: Vec<Token> = Vec::new();
        all.push(punct('#', anchor));
        all.push(bracketed(marker, anchor));
        all.push(ident("fn", anchor));
        all.push(ident(self.name.as_str(), anchor));
        let none: Vec<Token> = Vec::new();
        all.push(parenthesised(none, anchor));
        all.push(braced(code, anchor));
        proof {
            stream_view_index(all@);
            assert(stream_view(all@) =~= test_tokens(old(self)@));
        }
        extend_tokens(output, all);
    }
}

impl CompilationError {
    /// Writes the directive for the diagnostic to the end of `output`.
    pub fn generate_into(&self, output: &mut Vec<Token>)
        ensures
            stream_view(final(output)@) == stream_view(old(output)@) + error_tokens(self@),
    {
        let span = self.span;
        let mut inner: Vec<Token> = Vec::new();
        inner.push(lit_string(self.msg.as_str(), span));
        proof {
            stream_view_index(inner@);
            assert(stream_view(inner@) =~= seq![TokenView::Str { value: self.msg@, span }]);
        }
        let mut all: Vec<Token> = Vec::new();
        all.push(ident("compile_error", span));
        all.push(punct('!', span));
        all.push(parenthesised(inner, span));
        all.push(punct(';', span));
        proof {
            stream_view_index(all@);
            assert(stream_view(all@) =~= error_tokens(self@));
        }
        extend_tokens(output, all);
    }
}

} // verus!
