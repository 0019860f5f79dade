//! Sources: text together with the items parsed from it.

use crate::ast::Item;
use crate::span::{SourceId, Span};
use vstd::prelude::*;
use vstd::slice::slice_subrange;

verus! {

/// One source: its name, its text, and the top-level items that were parsed
/// from the text. Spans of the items refer to the text.
pub struct Source {
    /// The name used to refer to the source in reports.
    pub name: Vec<u8>,
    /// The text.
    pub text: Vec<u8>,
    /// The top-level items, in the order they are written.
    pub items: Vec<Item>,
}

impl Source {
    /// The text under `span`.
    pub open spec fn token(&self, span: Span) -> Seq<u8> {
        self.text@.subrange(span.start as int, span.end as int)
    }

    /// Whether `span` lies in the text.
    pub open spec fn holds(&self, span: Span) -> bool {
        span.within(self.text@.len())
    }

    /// A source made of its three parts.
    pub fn new(name: Vec<u8>, text: Vec<u8>, items: Vec<Item>) -> (source: Source)
        ensures
            source.name == name,
            source.text == text,
            source.items == items,
    {
        Source { name, text, items }
    }

    /// Whether `span` lies in the text.
    pub fn contains(&self, span: Span) -> (ok: bool)
        ensures
            ok == self.holds(span),
    {
        span.fits(self.text.len())
    }

    /// The text under `span`, where the span lies in the text.
    pub fn get(&self, span: Span) -> (token: Option<&[u8]>)
        ensures
            self.holds(span) ==> token is Some && token->0@ == self.token(span),
            !self.holds(span) ==> token is None,
    {
        if span.fits(self.text.len()) {
            Some(slice_subrange(self.text.as_slice(), span.start, span.end))
        } else {
            None
        }
    }
}

/// The set of sources of one compilation. Sources are only ever added, and
/// each keeps the identifier it was given.
pub struct Sources {
    sources: Vec<Source>,
}

impl View for Sources {
    type V = Seq<Source>;

    closed spec fn view(&self) -> Seq<Source> {
        self.sources@
    }
}

impl Sources {
    /// A set holds no more sources than a machine can count.
    pub proof fn lemma_len_fits(&self)
        ensures
            self@.len() <= usize::MAX,
    {
        assert(self@.len() == self.sources.len());
    }

    /// An empty set.
    pub fn new() -> (set: Sources)
        ensures
            set@ == Seq::<Source>::empty(),
    {
        Sources { sources: Vec::new() }
    }

    /// The number of sources in the set.
    pub fn len(&self) -> (n: usize)
        ensures
            n == self@.len(),
    {
        self.sources.len()
    }

    /// Adds a source and returns the identifier it goes by from now on.
    pub fn insert(&mut self, source: Source) -> (id: SourceId)
        ensures
            final(self)@ == old(self)@.push(source),
            id.index == old(self)@.len(),
    {
        let index = self.sources.len();
        self.sources.push(source);
        SourceId { index }
    }

    /// The source that `id` names, if the set holds it.
    pub fn get(&self, id: SourceId) -> (source: Option<&Source>)
        ensures
            id.index < self@.len() ==> source == Some(&self@[id.index as int]),
            id.index >= self@.len() ==> source is None,
    {
        if id.index < self.sources.len() {
            Some(&self.sources[id.index])
        } else {
            None
        }
    }
}

} // verus!
