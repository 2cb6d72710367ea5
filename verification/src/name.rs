//! Names of tests and of the scopes around them.
//!
//! A [`Name`] is what was written after an anchor: free text, the place
//! where it stood and the number it has among the names of its scope. A
//! [`NameFactory`] hands those numbers out. A [`CompoundName`] is the path
//! of names from the outermost scope to a test; from it the name of the
//! generated function is made.
use vstd::prelude::*;
use crate::ident_chars::xid_start;
use crate::numeral::{decimal, decimal_of, padded, padded_of};
use crate::sanitise::{sanitise, sanitised};
use crate::span::Span;
use crate::text::{chars_of, push_chars, push_text, string_of};

verus! {

/// The greatest length of a sanitised name that is kept whole.
pub const NAME_CAP: usize = 900;

/// A name, as a mathematical value.
pub struct NameView {
    pub location: Span,
    pub text: Seq<char>,
    pub index: nat,
}

/// The text that was written as the name of a test or a scope.
#[derive(Debug)]
pub struct Name {
    location: Span,
    text: String,
    index: usize,
}

impl View for Name {
    type V = NameView;

    closed spec fn view(&self) -> NameView {
        NameView { location: self.location, text: self.text@, index: self.index as nat }
    }
}

impl Clone for Name {
    fn clone(&self) -> (r: Self)
        ensures
            r@ == self@,
    {
        Name { location: self.location, text: self.text.clone(), index: self.index }
    }
}

/// The text of the placeholder for the `id`-th name that could not be read.
pub open spec fn missing_text(id: nat) -> Seq<char> {
    if id > 1 {
        "missing_name_"@ + decimal(id)
    } else {
        "missing_name"@
    }
}

impl Name {
    /// A name that stands alone: the first of its scope.
    pub fn new(location: &Span, source: &str) -> (r: Name)
        ensures
            r@ == (NameView { location: *location, text: source@, index: 1 }),
    {
        Name { location: *location, text: String::from_str(source), index: 1 }
    }

    /// The placeholder for the `id`-th name that could not be read.
    pub fn missing(location: &Span, id: usize) -> (r: Name)
        ensures
            r@ == (NameView { location: *location, text: missing_text(id as nat), index: 1 }),
    {
        let mut text: Vec<char> = Vec::new();
        if id > 1 {
            push_text(&mut text, "missing_name_");
            let digits = decimal_of(id);
            push_chars(&mut text, &digits);
        } else {
            push_text(&mut text, "missing_name");
        }
        assert(text@ =~= missing_text(id as nat));
        Name { location: *location, text: string_of(&text), index: 1 }
    }

    /// The factory for the names inside the scope that this name opens.
    pub fn make_factory(&self) -> (r: NameFactory)
        ensures
            r@ == (FactoryView { title: Some(self@.text), counter: 0 }),
    {
        NameFactory { title: Some(self.text.clone()), counter: 0 }
    }

    /// Where the name stood.
    pub fn span(&self) -> (r: Span)
        ensures
            r == self@.location,
    {
        self.location
    }

    /// The text as it was written.
    pub fn text(&self) -> (r: &str)
        ensures
            r@ == self@.text,
    {
        self.text.as_str()
    }

    /// The number of the name among the names of its scope, from 1.
    pub fn index(&self) -> (r: usize)
        ensures
            r == self@.index,
    {
        self.index
    }
}

/// A factory, as a mathematical value.
pub struct FactoryView {
    /// The text of the name that opened the scope; none for the outermost.
    pub title: Option<Seq<char>>,
    /// How many names the scope has so far.
    pub counter: nat,
}

impl FactoryView {
    /// The factory after it has handed out one more name. The count stops at
    /// the greatest number that the machine holds.
    pub open spec fn counted(self) -> FactoryView {
        FactoryView {
            title: self.title,
            counter: if self.counter < usize::MAX {
                self.counter + 1
            } else {
                self.counter
            },
        }
    }
}

/// Numbers the names of one scope.
///
/// The scope that holds a factory also holds the scope around it, so a
/// factory keeps no link to the factory of that scope.
#[derive(Debug)]
pub struct NameFactory {
    title: Option<String>,
    counter: usize,
}

impl View for NameFactory {
    type V = FactoryView;

    closed spec fn view(&self) -> FactoryView {
        FactoryView {
            title: match self.title {
                Some(t) => Some(t@),
                None => None,
            },
            counter: self.counter as nat,
        }
    }
}

impl NameFactory {
    /// The factory of the outermost scope.
    pub fn new() -> (r: NameFactory)
        ensures
            r@ == (FactoryView { title: None, counter: 0 }),
    {
        NameFactory { title: None, counter: 0 }
    }

    /// The next name of the scope. Any text is taken, the empty one too.
    pub fn make_name(&mut self, location: &Span, text: &str) -> (r: Name)
        requires
            old(self)@.counter < usize::MAX,
        ensures
            final(self)@ == (FactoryView {
                title: old(self)@.title,
                counter: old(self)@.counter + 1,
            }),
            r@ == (NameView {
                location: *location,
                text: text@,
                index: old(self)@.counter + 1,
            }),
    {
        self.counter = self.counter + 1;
        Name { location: *location, text: String::from_str(text), index: self.counter }
    }

    /// The next name of the scope, as [`NameFactory::make_name`] gives it,
    /// for a scope of any size: the count stops at the greatest number that
    /// the machine holds, and the names from there on share that number.
    pub fn next_name(&mut self, location: &Span, text: &str) -> (r: Name)
        ensures
            final(self)@ == old(self)@.counted(),
            r@ == (NameView { location: *location, text: text@, index: final(self)@.counter }),
    {
        if self.counter < usize::MAX {
            self.make_name(location, text)
        } else {
            Name { location: *location, text: String::from_str(text), index: self.counter }
        }
    }

    /// How many names the scope has so far.
    pub fn count(&self) -> (r: usize)
        ensures
            r == self@.counter,
    {
        self.counter
    }

    /// Whether this is the factory of a scope that a name opened.
    pub fn has_title(&self) -> (r: bool)
        ensures
            r == self@.title.is_some(),
    {
        self.title.is_some()
    }
}

/// A name on a path, with the number of names its scope had when the path
/// was taken.
pub struct PartView {
    pub name: NameView,
    pub siblings: nat,
}

/// A name on a path.
#[derive(Debug)]
pub struct NamePart {
    name: Name,
    siblings: usize,
}

impl View for NamePart {
    type V = PartView;

    closed spec fn view(&self) -> PartView {
        PartView { name: self.name@, siblings: self.siblings as nat }
    }
}

/// The views of the parts of a path.
pub open spec fn parts_view(parts: Seq<NamePart>) -> Seq<PartView> {
    parts.map_values(|p: NamePart| p@)
}

/// Why a path has no function name.
#[derive(Clone, Copy, PartialEq, Eq, Structural, Debug)]
pub enum NameError {
    /// The name that stood at `location` is empty.
    EmptyName { location: Span },
}

impl NameError {
    /// Where the name stood that is at fault.
    pub fn span(&self) -> (r: Span)
        ensures
            self matches NameError::EmptyName { location } && r == location,
    {
        match self {
            NameError::EmptyName { location } => *location,
        }
    }

    /// The words for the fault.
    pub open spec fn spec_message(&self) -> Seq<char> {
        "test names cannot be empty"@
    }

    /// The words for the fault.
    pub fn message(&self) -> (r: String)
        ensures
            r@ == self.spec_message(),
    {
        String::from_str("test names cannot be empty")
    }
}

/// The part of a function name that one name of the path gives: its
/// sanitised text, cut to [`NAME_CAP`] characters and marked with the
/// name's number where it is longer.
pub open spec fn segment(part: PartView) -> Seq<char> {
    let clean = sanitised(part.name.text);
    if clean.len() > NAME_CAP {
        clean.subrange(0, NAME_CAP as int).push('_') + padded(
            part.name.index,
            decimal(part.siblings).len(),
        )
    } else {
        clean
    }
}

/// The segments of the first `n` parts, joined by underscores. Where
/// nothing has been written yet no underscore is put in front.
pub open spec fn joined(parts: Seq<PartView>, n: nat) -> Seq<char>
    decreases n,
{
    if n == 0 || n > parts.len() {
        Seq::empty()
    } else {
        let front = joined(parts, (n - 1) as nat);
        if front.len() > 0 {
            front.push('_') + segment(parts[n - 1])
        } else {
            segment(parts[n - 1])
        }
    }
}

/// Text made fit to begin an identifier: a `t` goes in front of text whose
/// first character cannot begin one.
pub open spec fn identifier(text: Seq<char>) -> Seq<char> {
    if text.len() > 0 && !xid_start(text[0]) {
        seq!['t'] + text
    } else {
        text
    }
}

/// The first of the first `n` parts whose text is empty.
pub open spec fn first_empty(parts: Seq<PartView>, n: nat) -> Option<int>
    decreases n,
{
    if n == 0 || n > parts.len() {
        None
    } else {
        match first_empty(parts, (n - 1) as nat) {
            Some(i) => Some(i),
            None => if parts[n - 1].name.text.len() == 0 {
                Some(n - 1)
            } else {
                None
            },
        }
    }
}

/// Where the test that the path leads to was named.
pub open spec fn path_location(parts: Seq<PartView>) -> Span {
    if parts.len() > 0 {
        parts.last().name.location
    } else {
        Span::call_site()
    }
}

/// The name of the function for the test that the path leads to, with the
/// place where the test was named.
pub open spec fn function_name(parts: Seq<PartView>) -> Result<(Seq<char>, Span), NameError> {
    match first_empty(parts, parts.len()) {
        Some(i) => Err(NameError::EmptyName { location: parts[i].name.location }),
        None => Ok((identifier(joined(parts, parts.len())), path_location(parts))),
    }
}

/// The separator between the names of a path that is shown to a reader.
pub open spec fn arrow() -> Seq<char> {
    " -> "@
}

/// The texts of the first `n` parts as written, joined by arrows.
pub open spec fn joined_raw(parts: Seq<PartView>, n: nat) -> Seq<char>
    decreases n,
{
    if n == 0 || n > parts.len() {
        Seq::empty()
    } else if n == 1 {
        parts[0].name.text
    } else {
        joined_raw(parts, (n - 1) as nat) + arrow() + parts[n - 1].name.text
    }
}

/// The path as it is shown to a reader.
pub open spec fn full_name(parts: Seq<PartView>) -> Result<Seq<char>, NameError> {
    match first_empty(parts, parts.len()) {
        Some(i) => Err(NameError::EmptyName { location: parts[i].name.location }),
        None => Ok(joined_raw(parts, parts.len())),
    }
}

/// The names from the outermost scope to a test.
#[derive(Debug)]
pub struct CompoundName {
    parts: Vec<NamePart>,
}

impl View for CompoundName {
    type V = Seq<PartView>;

    closed spec fn view(&self) -> Seq<PartView> {
        parts_view(self.parts@)
    }
}

/// The view of the outcome of [`CompoundName::function_name`].
pub open spec fn named_view(r: Result<(String, Span), NameError>) -> Result<
    (Seq<char>, Span),
    NameError,
> {
    match r {
        Ok((name, location)) => Ok((name@, location)),
        Err(e) => Err(e),
    }
}

/// The view of the outcome of [`CompoundName::full_name`].
pub open spec fn shown_view(r: Result<String, NameError>) -> Result<Seq<char>, NameError> {
    match r {
        Ok(name) => Ok(name@),
        Err(e) => Err(e),
    }
}

impl CompoundName {
    /// The path of a test outside any scope, before its own name is added.
    pub fn new() -> (r: CompoundName)
        ensures
            r@ == Seq::<PartView>::empty(),
    {
        let r = CompoundName { parts: Vec::new() };
        assert(r@ =~= Seq::<PartView>::empty());
        r
    }

    /// The path with `name` added, as the latest name of its scope.
    pub fn followed_by(self, name: &Name) -> (r: CompoundName)
        ensures
            r@ == self@.push(PartView { name: name@, siblings: name@.index }),
    {
        let siblings = name.index();
        self.followed_by_among(name, siblings)
    }

    /// The path with `name` added, whose scope has `siblings` names by now.
    pub fn followed_by_among(self, name: &Name, siblings: usize) -> (r: CompoundName)
        ensures
            r@ == self@.push(PartView { name: name@, siblings: siblings as nat }),
    {
        let mut parts = self.parts;
        parts.push(NamePart { name: name.clone(), siblings });
        let r = CompoundName { parts };
        assert(r@ =~= self@.push(PartView { name: name@, siblings: siblings as nat }));
        r
    }

    /// How many names the path has.
    pub fn len(&self) -> (r: usize)
        ensures
            r == self@.len(),
    {
        self.parts.len()
    }

    /// The place in the path of the first name without text.
    fn first_empty_part(&self) -> (r: Option<usize>)
        ensures
            match r {
                Some(i) => first_empty(self@, self@.len()) == Some(i as int) && i < self@.len(),
                None => first_empty(self@, self@.len()) is None,
            },
    {
        let mut i: usize = 0;
        while i < self.parts.len()
            invariant
                i <= self.parts.len(),
                self@.len() == self.parts.len(),
                first_empty(self@, i as nat) is None,
            decreases self.parts.len() - i,
        {
            if self.parts[i].name.text().unicode_len() == 0 {
                proof {
                    let k = i as int;
                    assert(self@[k] == self.parts@[k]@);
                    assert(first_empty(self@, (i + 1) as nat) == Some(k));
                    stays_first(self@, (i + 1) as nat, self@.len());
                }
                return Some(i);
            }
            proof {
                assert(self@[i as int] == self.parts@[i as int]@);
            }
            i += 1;
        }
        None
    }

    /// The name of the function for the test that the path leads to, with
    /// the place where the test was named.
    pub fn function_name(self) -> (r: Result<(String, Span), NameError>)
        ensures
            named_view(r) == function_name(self@),
    {
        match self.first_empty_part() {
            Some(i) => {
                assert(self@[i as int] == self.parts@[i as int]@);
                return Err(NameError::EmptyName { location: self.parts[i].name.span() });
            },
            None => {},
        }
        let mut name: Vec<char> = Vec::new();
        let mut i: usize = 0;
        while i < self.parts.len()
            invariant
                i <= self.parts.len(),
                self@.len() == self.parts.len(),
                name@ == joined(self@, i as nat),
            decreases self.parts.len() - i,
        {
            assert(self@[i as int] == self.parts@[i as int]@);
            let seg = segment_of(&self.parts[i]);
            if name.len() > 0 {
                name.push('_');
            }
            push_chars(&mut name, &seg);
            i += 1;
        }
        let location = if self.parts.len() > 0 {
            assert(self@.last() == self.parts@[self.parts.len() - 1]@);
            self.parts[self.parts.len() - 1].name.span()
        } else {
            Span::call_site()
        };
        if name.len() > 0 && !unicode_ident::is_xid_start(name[0]) {
            name.insert(0, 't');
            assert(name@ =~= identifier(joined(self@, self@.len())));
        }
        Ok((string_of(&name), location))
    }

    /// The path as it is shown to a reader: the names as written, from the
    /// outermost, with an arrow between one and the next.
    pub fn full_name(&self) -> (r: Result<String, NameError>)
        ensures
            shown_view(r) == full_name(self@),
    {
        match self.first_empty_part() {
            Some(i) => {
                assert(self@[i as int] == self.parts@[i as int]@);
                return Err(NameError::EmptyName { location: self.parts[i].name.span() });
            },
            None => {},
        }
        let mut name: Vec<char> = Vec::new();
        let mut i: usize = 0;
        while i < self.parts.len()
            invariant
                i <= self.parts.len(),
                self@.len() == self.parts.len(),
                name@ == joined_raw(self@, i as nat),
            decreases self.parts.len() - i,
        {
            assert(self@[i as int] == self.parts@[i as int]@);
            if i > 0 {
                push_text(&mut name, " -> ");
            }
            push_text(&mut name, self.parts[i].name.text());
            proof {
                if i == 0 {
                    assert(name@ =~= self@[0].name.text);
                }
            }
            i += 1;
        }
        Ok(string_of(&name))
    }
}

/// Once a name without text is found among the first `n` parts, it stays the
/// first such name however many parts are looked at.
proof fn stays_first(parts: Seq<PartView>, n: nat, m: nat)
    requires
        n <= m <= parts.len(),
        first_empty(parts, n) is Some,
    ensures
        first_empty(parts, m) == first_empty(parts, n),
    decreases m,
{
    if m > n {
        stays_first(parts, n, (m - 1) as nat);
    }
}

/// The part of a function name that one name of the path gives.
fn segment_of(part: &NamePart) -> (r: Vec<char>)
    ensures
        r@ == segment(part@),
{
    let clean = sanitise(part.name.text());
    let mut chars = chars_of(clean.as_str());
    if chars.len() > NAME_CAP {
        chars.truncate(NAME_CAP);
        chars.push('_');
        let width = decimal_of(part.siblings).len();
        let mark = padded_of(part.name.index(), width);
        push_chars(&mut chars, &mark);
    }
    chars
}

/// A name that is too long is cut to exactly [`NAME_CAP`] characters, and an
/// underscore and its number follow, written with at least as many digits
/// as the count of names in its scope has.
pub proof fn long_names_are_cut(part: PartView)
    requires
        sanitised(part.name.text).len() > NAME_CAP,
    ensures
        segment(part).subrange(0, NAME_CAP as int) == sanitised(part.name.text).subrange(
            0,
            NAME_CAP as int,
        ),
        segment(part)[NAME_CAP as int] == '_',
        segment(part).subrange(NAME_CAP + 1, segment(part).len() as int) == padded(
            part.name.index,
            decimal(part.siblings).len(),
        ),
        segment(part).len() >= NAME_CAP + 1 + decimal(part.siblings).len(),
{
    let clean = sanitised(part.name.text);
    let mark = padded(part.name.index, decimal(part.siblings).len());
    crate::numeral::padded_length(part.name.index, decimal(part.siblings).len());
    let head = clean.subrange(0, NAME_CAP as int).push('_');
    assert(segment(part) == head + mark);
    assert(segment(part).subrange(0, NAME_CAP as int) =~= clean.subrange(0, NAME_CAP as int));
    assert(segment(part).subrange(NAME_CAP + 1, segment(part).len() as int) =~= mark);
}

/// Two names that are both too long and have different numbers give
/// different segments, however alike their texts are and whatever counts
/// their numbers were padded for.
pub proof fn cut_names_differ(left: PartView, right: PartView)
    requires
        sanitised(left.name.text).len() > NAME_CAP,
        sanitised(right.name.text).len() > NAME_CAP,
        left.name.index != right.name.index,
    ensures
        segment(left) != segment(right),
{
    long_names_are_cut(left);
    long_names_are_cut(right);
    crate::numeral::padded_value(left.name.index, decimal(left.siblings).len());
    crate::numeral::padded_value(right.name.index, decimal(right.siblings).len());
}

} // verus!
