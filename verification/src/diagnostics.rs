//! The append-only collector of compilation events.

use crate::span::{Site, SourceId, Span};
use vstd::prelude::*;

verus! {

/// How grave an event is.
#[derive(Clone, Copy, Debug, PartialEq, Eq, Structural)]
pub enum Severity {
    /// The event is reported, compilation still succeeds.
    Warning,
    /// The event makes the compilation fail.
    Error,
}

/// What happened.
#[derive(Clone, Copy, Debug, PartialEq, Eq, Structural)]
pub enum DiagnosticKind {
    /// A value was produced without side effects where none was needed.
    NotUsed,
    /// A number literal is not a well-formed digit sequence.
    BadNumberLiteral,
    /// A number literal does not fit the signed 64-bit integer range.
    BadNumberOutOfBounds,
    /// A string literal lacks its quotes or holds a raw quote.
    BadStringLiteral,
    /// A byte string literal lacks its prefix or quotes, or holds a raw quote.
    BadByteStringLiteral,
    /// A backslash in a literal is not followed by a known escape.
    BadEscape,
    /// A syntax node carries a span that does not lie in its source.
    BadSpan,
    /// A name is used that no parameter of the enclosing function carries.
    MissingLocal,
    /// A function is defined a second time.
    FunctionConflict,
    /// An import could not be resolved by the source loader.
    ImportFailed,
    /// A function is called that nothing defines or provides.
    MissingFunction,
    /// A function is defined and never called.
    UnusedFunction,
    /// The unit defines no entry function.
    MissingEntry,
    /// An instruction names a static slot that the pool does not hold.
    MissingSlot,
}

/// What an event additionally points at.
#[derive(Clone, Copy, Debug, PartialEq, Eq, Structural)]
pub enum Detail {
    /// Nothing further.
    Empty,
    /// The span of the construct that surrounds the event.
    Context(Span),
    /// A position in the function table.
    Function(usize),
    /// A position in the instruction stream.
    Instruction(usize),
}

/// An error that ends the assembly of the construct it occurred in.
#[derive(Clone, Copy, Debug, PartialEq, Eq, Structural)]
pub struct CompileError {
    /// The offending range of source text.
    pub span: Span,
    /// What went wrong.
    pub kind: DiagnosticKind,
}

impl CompileError {
    /// An error of the given kind at `span`.
    pub fn new(span: Span, kind: DiagnosticKind) -> (error: CompileError)
        ensures
            error == (CompileError { span, kind }),
    {
        CompileError { span, kind }
    }
}

/// Why a unit could not be frozen.
#[derive(Clone, Copy, Debug, PartialEq, Eq, Structural)]
pub enum BuildError {
    /// The unit defines no entry function.
    MissingEntry,
    /// The function at position `function` of the function table is called
    /// at `site`, and nothing defines or provides it.
    MissingFunction { function: usize, site: Site },
    /// The instruction at position `instruction`, emitted for `site`, names
    /// a static slot that the pool does not hold with the kind it asks for.
    MissingSlot { instruction: usize, site: Site },
    /// The instruction at position `instruction`, emitted for `site`, calls
    /// a position outside the function table.
    BadCall { instruction: usize, site: Site },
}

impl BuildError {
    /// The kind under which the error is recorded.
    pub open spec fn kind(self) -> DiagnosticKind {
        match self {
            BuildError::MissingEntry => DiagnosticKind::MissingEntry,
            BuildError::MissingFunction { .. } => DiagnosticKind::MissingFunction,
            BuildError::MissingSlot { .. } => DiagnosticKind::MissingSlot,
            BuildError::BadCall { .. } => DiagnosticKind::MissingFunction,
        }
    }

    /// The range of text the error is about; empty where it is about the
    /// unit as a whole.
    pub open spec fn span(self) -> Span {
        match self {
            BuildError::MissingEntry => Span { start: 0, end: 0 },
            BuildError::MissingFunction { site, .. } => site.span,
            BuildError::MissingSlot { site, .. } => site.span,
            BuildError::BadCall { site, .. } => site.span,
        }
    }

    /// What the error additionally points at.
    pub open spec fn detail(self) -> Detail {
        match self {
            BuildError::MissingEntry => Detail::Empty,
            BuildError::MissingFunction { function, .. } => Detail::Function(function),
            BuildError::MissingSlot { instruction, .. } => Detail::Instruction(instruction),
            BuildError::BadCall { instruction, .. } => Detail::Instruction(instruction),
        }
    }
}

/// One recorded compilation event.
#[derive(Clone, Copy, Debug, PartialEq, Eq, Structural)]
pub struct Diagnostic {
    /// The source the event belongs to.
    pub source_id: SourceId,
    /// The range of source text the event is about.
    pub span: Span,
    /// Whether the event fails the compilation.
    pub severity: Severity,
    /// What happened.
    pub kind: DiagnosticKind,
    /// What the event additionally points at.
    pub detail: Detail,
}

impl Diagnostic {
    /// The warning recorded for a value that was produced but not needed.
    pub open spec fn unused_value(source_id: SourceId, span: Span, context: Option<Span>) -> Diagnostic {
        Diagnostic {
            source_id,
            span,
            severity: Severity::Warning,
            kind: DiagnosticKind::NotUsed,
            detail: match context {
                Some(c) => Detail::Context(c),
                None => Detail::Empty,
            },
        }
    }

    /// The fatal event recorded for a unit that could not be frozen.
    pub open spec fn build_failure(source_id: SourceId, error: BuildError) -> Diagnostic {
        Diagnostic {
            source_id,
            span: error.span(),
            severity: Severity::Error,
            kind: error.kind(),
            detail: error.detail(),
        }
    }

    /// The fatal event recorded for a compile error.
    pub open spec fn failure(source_id: SourceId, error: CompileError) -> Diagnostic {
        Diagnostic {
            source_id,
            span: error.span,
            severity: Severity::Error,
            kind: error.kind,
            detail: Detail::Empty,
        }
    }
}

/// Some event in `events` is fatal.
pub open spec fn any_error(events: Seq<Diagnostic>) -> bool {
    exists|i: int| 0 <= i < events.len() && (#[trigger] events[i]).severity is Error
}

/// Some event in `events` is a warning.
pub open spec fn any_warning(events: Seq<Diagnostic>) -> bool {
    exists|i: int| 0 <= i < events.len() && (#[trigger] events[i]).severity is Warning
}

/// The sink that collects the events of a compilation.
///
/// Events are only ever appended: no operation removes or changes one that
/// was recorded.
pub struct Diagnostics {
    events: Vec<Diagnostic>,
}

impl View for Diagnostics {
    type V = Seq<Diagnostic>;

    closed spec fn view(&self) -> Seq<Diagnostic> {
        self.events@
    }
}

impl Diagnostics {
    /// An empty sink.
    pub fn new() -> (sink: Diagnostics)
        ensures
            sink@ == Seq::<Diagnostic>::empty(),
    {
        Diagnostics { events: Vec::new() }
    }

    /// The number of recorded events.
    pub fn len(&self) -> (n: usize)
        ensures
            n == self@.len(),
    {
        self.events.len()
    }

    /// Whether nothing was recorded.
    pub fn is_empty(&self) -> (empty: bool)
        ensures
            empty == (self@.len() == 0),
    {
        self.events.len() == 0
    }

    /// The event recorded at position `index`, in recording order.
    pub fn get(&self, index: usize) -> (event: Option<Diagnostic>)
        ensures
            event == (if index < self@.len() {
                Some(self@[index as int])
            } else {
                None
            }),
    {
        if index < self.events.len() {
            Some(self.events[index])
        } else {
            None
        }
    }

    /// Whether a fatal event was recorded.
    pub fn has_error(&self) -> (found: bool)
        ensures
            found == any_error(self@),
    {
        let mut i: usize = 0;
        while i < self.events.len()
            invariant
                i <= self.events.len(),
                forall|j: int| 0 <= j < i ==> !((#[trigger] self.events@[j]).severity is Error),
            decreases self.events.len() - i,
        {
            if let Severity::Error = self.events[i].severity {
                return true;
            }
            i += 1;
        }
        false
    }

    /// Whether a warning was recorded.
    pub fn has_warning(&self) -> (found: bool)
        ensures
            found == any_warning(self@),
    {
        let mut i: usize = 0;
        while i < self.events.len()
            invariant
                i <= self.events.len(),
                forall|j: int| 0 <= j < i ==> !((#[trigger] self.events@[j]).severity is Warning),
            decreases self.events.len() - i,
        {
            if let Severity::Warning = self.events[i].severity {
                return true;
            }
            i += 1;
        }
        false
    }

    /// Records an event as it is given.
    pub fn push(&mut self, event: Diagnostic)
        ensures
            final(self)@ == old(self)@.push(event),
    {
        self.events.push(event);
    }

    /// Records the warning that a value produced at `span` is not used.
    /// `context` is the span of the surrounding construct, where known.
    pub fn not_used(&mut self, source_id: SourceId, span: Span, context: Option<Span>)
        ensures
            final(self)@ == old(self)@.push(Diagnostic::unused_value(source_id, span, context)),
    {
        let detail = match context {
            Some(c) => Detail::Context(c),
            None => Detail::Empty,
        };
        self.events.push(
            Diagnostic {
                source_id,
                span,
                severity: Severity::Warning,
                kind: DiagnosticKind::NotUsed,
                detail,
            },
        );
    }

    /// Records a compile error as a fatal event.
    pub fn error(&mut self, source_id: SourceId, error: CompileError)
        ensures
            final(self)@ == old(self)@.push(Diagnostic::failure(source_id, error)),
    {
        self.events.push(
            Diagnostic {
                source_id,
                span: error.span,
                severity: Severity::Error,
                kind: error.kind,
                detail: Detail::Empty,
            },
        );
    }

    /// Records that the unit could not be frozen, as a fatal event.
    pub fn build_error(&mut self, source_id: SourceId, error: BuildError)
        ensures
            final(self)@ == old(self)@.push(Diagnostic::build_failure(source_id, error)),
    {
        let (span, kind, detail) = match error {
            BuildError::MissingEntry => (
                Span { start: 0, end: 0 },
                DiagnosticKind::MissingEntry,
                Detail::Empty,
            ),
            BuildError::MissingFunction { function, site } => (
                site.span,
                DiagnosticKind::MissingFunction,
                Detail::Function(function),
            ),
            BuildError::MissingSlot { instruction, site } => (
                site.span,
                DiagnosticKind::MissingSlot,
                Detail::Instruction(instruction),
            ),
            BuildError::BadCall { instruction, site } => (
                site.span,
                DiagnosticKind::MissingFunction,
                Detail::Instruction(instruction),
            ),
        };
        self.events.push(Diagnostic { source_id, span, severity: Severity::Error, kind, detail });
    }
}

} // verus!
