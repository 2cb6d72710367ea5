//! The expansion as a whole.
use vstd::prelude::*;
use crate::generator::{output_tokens, SuiteGenerator, SuiteView};
use crate::parse::model::{collected, feed, RuleView, ScopeView};
use crate::parse::rules::CurrentRule;
use crate::parse::scope::Suite;
use crate::token::{stream_view, stream_view_index, Token};

verus! {

/// Reads the whole input and hands out what it leaves behind: the
/// diagnostics, the hoisted tokens and the tests.
pub fn collect_tests(input: Vec<Token>) -> (suite: SuiteGenerator)
    ensures
        suite@ == collected(stream_view(input@)),
{
    let mut suite = SuiteGenerator::new();
    let ghost tokens = stream_view(input@);
    let ghost all = input@;
    let ghost start = RuleView::Scope(ScopeView::suite());
    let mut current_rule = CurrentRule::Suite(Suite::new());
    proof {
        stream_view_index(input@);
    }
    for token in it: input
        invariant
            it.seq() == all,
            tokens == stream_view(all),
            tokens.len() == all.len(),
            forall|k: int| 0 <= k < all.len() ==> (#[trigger] tokens[k]) == all[k]@,
            (current_rule@, suite@) == feed(start, tokens, it.index() as nat, SuiteView::empty()),
    {
        current_rule = current_rule.accept_token(token, &mut suite);
    }
    current_rule.end_of_stream(&mut suite);
    suite
}

/// Expands the notation: the tokens of the input become the tokens of a
/// module with the diagnostics, the hoisted tokens and one function for
/// each test. Input that holds nothing gives nothing.
pub fn generate_tests(input: Vec<Token>) -> (output: Vec<Token>)
    ensures
        stream_view(output@) == output_tokens(collected(stream_view(input@))),
{
    collect_tests(input).generate_output()
}

} // verus!
