//! Positions in source text.

use vstd::prelude::*;

verus! {

/// A half-open range of byte offsets into one source text.
///
/// Spans only attribute diagnostics and instructions to the text they came
/// from; they never steer control flow.
#[derive(Clone, Copy, Debug, PartialEq, Eq, Structural)]
pub struct Span {
    /// Offset of the first byte.
    pub start: usize,
    /// Offset one past the last byte.
    pub end: usize,
}

impl Span {
    /// The span is a well-ordered range inside a text of `len` bytes.
    pub open spec fn within(self, len: nat) -> bool {
        self.start <= self.end && self.end <= len
    }

    /// The span from `start` up to, but not including, `end`.
    pub fn new(start: usize, end: usize) -> (span: Span)
        ensures
            span == (Span { start, end }),
    {
        Span { start, end }
    }

    /// Whether the span is a well-ordered range inside a text of `len` bytes.
    pub fn fits(&self, len: usize) -> (ok: bool)
        ensures
            ok == self.within(len as nat),
    {
        self.start <= self.end && self.end <= len
    }
}

/// Names one source of a source set by its position in the set.
#[derive(Clone, Copy, Debug, PartialEq, Eq, Structural)]
pub struct SourceId {
    /// Position of the source in its set.
    pub index: usize,
}

impl SourceId {
    /// The identifier that names no source.
    pub open spec fn spec_empty() -> SourceId {
        SourceId { index: usize::MAX }
    }

    /// The identifier of the source at position `index`.
    pub fn new(index: usize) -> (id: SourceId)
        ensures
            id == (SourceId { index }),
    {
        SourceId { index }
    }

    /// The identifier used for events that belong to no source.
    ///
    /// No source set can hold a source at this position.
    pub fn empty() -> (id: SourceId)
        ensures
            id == SourceId::spec_empty(),
    {
        SourceId { index: usize::MAX }
    }
}

/// A place in the source set: a source and a range of its text.
#[derive(Clone, Copy, Debug, PartialEq, Eq, Structural)]
pub struct Site {
    /// The source.
    pub source_id: SourceId,
    /// The range of its text.
    pub span: Span,
}

impl Site {
    /// The place `span` of the source `source_id`.
    pub fn new(source_id: SourceId, span: Span) -> (site: Site)
        ensures
            site == (Site { source_id, span }),
    {
        Site { source_id, span }
    }
}

} // verus!
