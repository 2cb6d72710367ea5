//! Source locations.
use vstd::prelude::*;

verus! {

/// A tag for a place in the source that the tokens came from.
///
/// The crate never looks inside a location: it copies the tag of an input
/// token onto what it generates from that token. The tag `0` stands for the
/// place where the whole expansion was asked for.
#[derive(Clone, Copy, PartialEq, Eq, Structural, Debug, Hash)]
pub struct Span {
    pub id: usize,
}

impl Span {
    /// The location with the given tag.
    pub fn new(id: usize) -> (r: Span)
        ensures
            r.id == id,
    {
        Span { id }
    }

    /// The place where the expansion was asked for.
    pub open spec fn spec_call_site() -> Span {
        Span { id: 0 }
    }

    /// The place where the expansion was asked for.
    #[verifier::when_used_as_spec(spec_call_site)]
    pub fn call_site() -> (r: Span)
        ensures
            r == Span::spec_call_site(),
    {
        Span { id: 0 }
    }

    /// The tag of this location.
    pub fn id(&self) -> (r: usize)
        ensures
            r == self.id,
    {
        self.id
    }
}

} // verus!
