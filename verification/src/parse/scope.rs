//! The scopes of the notation: the suite and the braced bodies.
use vstd::prelude::*;
use crate::generator::{SuiteGenerator, TestCase, TestView};
use crate::name::{CompoundName, Name, NameFactory, PartView};
use crate::parse::model::{
    accept, body_closed, close_group, end_of_group, end_of_stream, feed, leaf,
    process_group, RuleView, ScopeView,
};
use crate::parse::rules::CurrentRule;
use crate::span::Span;
use crate::token::{
    copy_tokens, stream_view, stream_view_index, stream_view_push, Token,
};

verus! {

/// The outermost scope. Tokens that it reads outside every test are hoisted
/// in front of all tests.
#[derive(Debug)]
pub struct Suite {
    factory: NameFactory,
}

/// A braced body. Tokens that it reads outside its own tests are the
/// beginning of each test inside it; without such tests the body is a test
/// itself.
#[derive(Debug)]
pub struct Body {
    parent: AnchorParent,
    name: Name,
    factory: NameFactory,
    code: Vec<Token>,
    has_children: bool,
}

/// The scope that a declaration stands in.
#[derive(Debug)]
pub enum AnchorParent {
    Suite(Suite),
    Body(Box<Body>),
}

/// The view of a body.
pub closed spec fn body_view(body: Body) -> ScopeView
    decreases body, 1nat,
{
    ScopeView::Body {
        parent: Box::new(parent_view(body.parent)),
        name: body.name@,
        factory: body.factory@,
        code: stream_view(body.code@),
        has_children: body.has_children,
    }
}

/// The view of a scope.
pub closed spec fn parent_view(parent: AnchorParent) -> ScopeView
    decreases parent, 0nat,
{
    match parent {
        AnchorParent::Suite(suite) => ScopeView::Suite { factory: suite.factory@ },
        AnchorParent::Body(body) => body_view(*body),
    }
}

impl View for Suite {
    type V = ScopeView;

    closed spec fn view(&self) -> ScopeView {
        ScopeView::Suite { factory: self.factory@ }
    }
}

impl View for Body {
    type V = ScopeView;

    closed spec fn view(&self) -> ScopeView {
        body_view(*self)
    }
}

impl View for AnchorParent {
    type V = ScopeView;

    closed spec fn view(&self) -> ScopeView {
        parent_view(*self)
    }
}

impl Suite {
    /// The suite before anything is read.
    pub fn new() -> (r: Suite)
        ensures
            r@ == ScopeView::suite(),
    {
        Suite { factory: NameFactory::new() }
    }

    /// Reads a token at the top of the input: an anchor begins a
    /// declaration, any other token is hoisted.
    pub fn accept_token(self, token: Token, target: &mut SuiteGenerator) -> (r: CurrentRule)
        ensures
            (r@, final(target)@) == accept(RuleView::Scope(self@), token@, old(target)@),
    {
        if token.is_punct('$') {
            let anchor = token.span();
            CurrentRule::anchor(AnchorParent::from_suite(self), anchor)
        } else {
            target.push_preamble(token);
            CurrentRule::Suite(self)
        }
    }

    /// The end of the input: nothing is left to do.
    pub fn end_of_stream(self, target: &mut SuiteGenerator)
        ensures
            final(target)@ == end_of_stream(RuleView::Scope(self@), old(target)@),
    {
    }

    /// The suite stands in no group: it stays as it is.
    pub fn end_of_group(self, target: &mut SuiteGenerator) -> (r: CurrentRule)
        ensures
            (r@, final(target)@) == end_of_group(RuleView::Scope(self@), old(target)@),
    {
        CurrentRule::Suite(self)
    }
}

impl AnchorParent {
    /// The body as the scope of a declaration.
    pub fn from_body(body: Body) -> (r: Self)
        ensures
            r@ == body@,
    {
        Self::Body(Box::new(body))
    }

    /// The suite as the scope of a declaration.
    pub fn from_suite(suite: Suite) -> (r: Self)
        ensures
            r@ == suite@,
    {
        Self::Suite(suite)
    }

    /// The rule of the scope when a declaration in it is over: it waits for
    /// its next token.
    pub fn continuation(self) -> (r: CurrentRule)
        ensures
            r@ == RuleView::Scope(self@),
    {
        match self {
            AnchorParent::Suite(suite) => CurrentRule::Suite(suite),
            AnchorParent::Body(body) => CurrentRule::Body(*body),
        }
    }

    /// Whether the scope is the suite.
    pub fn is_suite(&self) -> (r: bool)
        ensures
            r == (self@ is Suite),
    {
        match self {
            AnchorParent::Suite(_) => true,
            AnchorParent::Body(_) => false,
        }
    }

    /// How many names the scope has so far.
    pub fn count(&self) -> (r: usize)
        ensures
            r == self@.count(),
    {
        match self {
            AnchorParent::Suite(suite) => suite.factory.count(),
            AnchorParent::Body(body) => body.factory.count(),
        }
    }

    /// The next name of the scope.
    pub fn make_name(&mut self, location: &Span, text: &str) -> (r: Name)
        ensures
            final(self)@ == old(self)@.minted(),
            r@ == old(self)@.next_name(*location, text@),
    {
        match self {
            AnchorParent::Suite(suite) => suite.factory.next_name(location, text),
            AnchorParent::Body(body) => body.factory.next_name(location, text),
        }
    }

    /// Adds the names from the outermost scope down to this one to a path.
    pub fn collect_name_parts(&self, compound: CompoundName) -> (r: CompoundName)
        ensures
            r@ == compound@ + self@.chain(),
        decreases self, 0nat,
    {
        match self {
            AnchorParent::Suite(_) => {
                assert(compound@ + self@.chain() =~= compound@);
                compound
            },
            AnchorParent::Body(body) => body.collect_name_parts(compound),
        }
    }

    /// Adds the code that a test in this scope begins with to the test.
    pub fn populate_test(&self, test: TestCase) -> (r: TestCase)
        ensures
            r@ == (TestView {
                name: test@.name,
                anchor: test@.anchor,
                code: test@.code + self@.inherited(),
            }),
        decreases self, 0nat,
    {
        match self {
            AnchorParent::Suite(_) => {
                assert(test@.code + self@.inherited() =~= test@.code);
                test
            },
            AnchorParent::Body(body) => body.populate_test(test),
        }
    }

    /// Makes the test `name` of this scope, with `own` behind the code that
    /// it has from the scopes around it. Where a name on the way to it is
    /// empty, a diagnostic is made in its place.
    pub fn generate_leaf(&self, name: &Name, own: Vec<Token>, target: &mut SuiteGenerator)
        ensures
            final(target)@ == leaf(old(target)@, self@, name@, stream_view(own@)),
    {
        let path = self.collect_name_parts(CompoundName::new()).followed_by_among(
            name,
            self.count(),
        );
        assert(path@ =~= self@.chain().push(PartView { name: name@, siblings: self@.count() }));
        match path.function_name() {
            Ok(named) => {
                let mut test = self.populate_test(TestCase::new(named));
                test.push_code(own);
                assert(test@.code =~= self@.inherited() + stream_view(own@));
                target.push_test(test);
            },
            Err(e) => {
                let msg = e.message();
                target.push_new_error(&e.span(), msg.as_str());
            },
        }
    }
}

impl Body {
    /// Reads the braced group behind the name `name` at the top of the
    /// input.
    pub fn generate_body_in_suite(
        parent: Suite,
        name: Name,
        group: Vec<Token>,
        target: &mut SuiteGenerator,
    ) -> (r: CurrentRule)
        ensures
            (r@, final(target)@) == process_group(
                parent@,
                name@,
                stream_view(group@),
                old(target)@,
            ),
    {
        Self::new(AnchorParent::from_suite(parent), name, group, target)
    }

    /// Reads the braced group behind the name `name` inside another body.
    pub fn from_body(parent: Body, name: Name, group: Vec<Token>, target: &mut SuiteGenerator) -> (r:
        CurrentRule)
        ensures
            (r@, final(target)@) == process_group(
                parent@,
                name@,
                stream_view(group@),
                old(target)@,
            ),
    {
        Self::new(AnchorParent::from_body(parent), name, group, target)
    }

    /// The body that `name` opens in the scope `parent`, before its first
    /// token.
    pub fn open(parent: AnchorParent, name: Name) -> (r: Body)
        ensures
            r@ == ScopeView::body(parent@, name@),
    {
        let factory = name.make_factory();
        Body { parent, name, factory, code: Vec::new(), has_children: false }
    }

    /// Reads the tokens of the braced group behind the name `name` as a
    /// body in the scope `parent`, closes the body and hands the scope
    /// back.
    pub fn new(parent: AnchorParent, name: Name, group: Vec<Token>, target: &mut SuiteGenerator) -> (r:
        CurrentRule)
        ensures
            (r@, final(target)@) == process_group(
                parent@,
                name@,
                stream_view(group@),
                old(target)@,
            ),
        decreases group, 0nat,
    {
        let body = Body::open(parent, name);
        let ghost start = RuleView::Scope(body@);
        let ghost tokens = stream_view(group@);
        let ghost all = group;
        let ghost lists = target@;
        let mut rule = CurrentRule::Body(body);
        proof {
            stream_view_index(group@);
        }
        for token in it: group
            invariant
                it.seq() == all@,
                tokens == stream_view(all@),
                tokens.len() == all@.len(),
                forall|k: int| 0 <= k < all@.len() ==> (#[trigger] tokens[k]) == all@[k]@,
                (rule@, target@) == feed(start, tokens, it.index() as nat, lists),
        {
            proof {
                vstd::std_specs::vec::axiom_vec_index_decreases(all, it.index() as int);
            }
            rule = rule.accept_token(token, target);
        }
        rule.close_group(target)
    }

    /// Reads a token of the body: an anchor begins a declaration, any other
    /// token is code of the body.
    pub fn accept_token(self, token: Token, target: &mut SuiteGenerator) -> (r: CurrentRule)
        ensures
            (r@, final(target)@) == accept(RuleView::Scope(self@), token@, old(target)@),
    {
        let mut body = self;
        if token.is_punct('$') {
            let anchor = token.span();
            body.has_children = true;
            CurrentRule::anchor(AnchorParent::from_body(body), anchor)
        } else {
            proof {
                stream_view_push(body.code@, token);
            }
            body.code.push(token);
            CurrentRule::Body(body)
        }
    }

    /// Makes the test of the body, unless the body holds tests of its own.
    pub fn generate_test(&self, target: &mut SuiteGenerator)
        ensures
            final(target)@ == body_closed(self@, old(target)@),
    {
        if !self.has_children {
            let path = self.collect_name_parts(CompoundName::new());
            assert(path@ =~= self@.chain());
            match path.function_name() {
                Ok(named) => {
                    let test = self.populate_test(TestCase::new(named));
                    assert(test@.code =~= self@.inherited());
                    target.push_test(test);
                },
                Err(e) => {
                    let msg = e.message();
                    target.push_new_error(&e.span(), msg.as_str());
                },
            }
        }
    }

    /// The closing bracket of the body: the body makes its test, unless it
    /// holds tests of its own, and the scope around it goes on.
    pub fn end_of_group(self, target: &mut SuiteGenerator) -> (r: CurrentRule)
        ensures
            (r@, final(target)@) == end_of_group(RuleView::Scope(self@), old(target)@),
    {
        self.generate_test(target);
        self.parent.continuation()
    }

    /// The end of the input inside the body: the body makes its test as at
    /// its closing bracket.
    pub fn end_of_stream(self, target: &mut SuiteGenerator)
        ensures
            final(target)@ == end_of_stream(RuleView::Scope(self@), old(target)@),
    {
        self.generate_test(target);
    }

    /// Adds the code that a test in this body begins with to the test.
    pub fn populate_test(&self, test: TestCase) -> (r: TestCase)
        ensures
            r@ == (TestView {
                name: test@.name,
                anchor: test@.anchor,
                code: test@.code + self@.inherited(),
            }),
        decreases self, 1nat,
    {
        let ghost given = test@;
        let mut test = self.parent.populate_test(test);
        test.push_code(copy_tokens(&self.code));
        assert(test@.code =~= given.code + self@.inherited()) by {
            assert(self@.inherited() == self.parent@.inherited() + stream_view(self.code@));
        }
        test
    }

    /// Adds the names from the outermost scope down to this body to a path.
    pub fn collect_name_parts(&self, compound: CompoundName) -> (r: CompoundName)
        ensures
            r@ == compound@ + self@.chain(),
        decreases self, 1nat,
    {
        let siblings = self.parent.count();
        let r = self.parent.collect_name_parts(compound).followed_by_among(&self.name, siblings);
        assert(r@ =~= compound@ + self@.chain());
        r
    }
}

} // verus!
