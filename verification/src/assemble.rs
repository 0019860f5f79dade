//! The code generator: one assembly rule per kind of syntax node.
//!
//! Every rule is given the usage signal of its caller. Asked for a value,
//! it emits code that leaves exactly one value on the stack; asked for
//! none, it leaves the stack as it was and still emits what has side
//! effects. A literal that is not needed is not emitted at all, which is
//! recorded as a warning.
//!
//! A literal that cannot be resolved is recorded as a fatal event and
//! assembled as the unit value, so that the code around it keeps its shape
//! and later faults are still found. A node that is looked at and whose
//! span lies outside the source, or a name that nothing declares, ends the
//! assembly of the enclosing function.

use crate::ast::{Block, Expr, ExprCall, LitByteStr, LitNumber, LitStr, Path};
use crate::bytes::{bytes_eq, first_index, lemma_first_index_absent, lemma_first_index_found};
use crate::diagnostics::{CompileError, Diagnostic, DiagnosticKind, Diagnostics};
use crate::inst::{Asm, Assembly, Inst, Located};
use crate::needs::Needs;
use crate::number::{number_value, parse_number};
use crate::source::Source;
use crate::span::{Site, SourceId, Span};
use crate::text::{byte_string_value, parse_byte_string, parse_string, string_value};
use crate::unit::{StaticValue, UnitBuilder, UnitModel};
use vstd::prelude::*;

verus! {

/// What the assembly of one function reads and never changes.
pub struct Scope {
    /// The source that the function comes from.
    pub source_id: SourceId,
    /// The text of that source.
    pub text: Seq<u8>,
    /// The parameters of the function, as the spans of their names.
    pub locals: Seq<Span>,
    /// The span of the function, where it is known.
    pub context: Option<Span>,
}

impl Scope {
    /// Whether `span` lies in the text.
    pub open spec fn holds(self, span: Span) -> bool {
        span.within(self.text.len())
    }

    /// The text under `span`.
    pub open spec fn token(self, span: Span) -> Seq<u8> {
        self.text.subrange(span.start as int, span.end as int)
    }

    /// For each parameter, whether its name is `name`.
    pub open spec fn local_matches(self, name: Seq<u8>) -> Seq<bool> {
        Seq::new(
            self.locals.len(),
            |i: int| self.holds(self.locals[i]) && self.token(self.locals[i]) == name,
        )
    }

    /// The position in the frame of the first parameter called `name`.
    pub open spec fn local_index(self, name: Seq<u8>) -> Option<int> {
        first_index(self.local_matches(name), true)
    }
}

/// What the assembly of one function changes as it goes.
pub struct State {
    /// The unit that is being built.
    pub unit: UnitModel,
    /// The events recorded so far.
    pub diagnostics: Seq<Diagnostic>,
    /// The instructions of the function emitted so far.
    pub code: Seq<Located>,
}

impl State {
    /// The state after `inst` was emitted for the text at `span`.
    pub open spec fn emit(self, scope: Scope, inst: Inst, span: Span) -> State {
        State { code: self.code.push(Located { inst, source_id: scope.source_id, span }), ..self }
    }

    /// The state after the warning that the value at `span` is not used.
    pub open spec fn unused(self, scope: Scope, span: Span) -> State {
        State {
            diagnostics: self.diagnostics.push(
                Diagnostic::unused_value(scope.source_id, span, scope.context),
            ),
            ..self
        }
    }

    /// The state after `error` was recorded as a fatal event.
    pub open spec fn failed(self, scope: Scope, error: CompileError) -> State {
        State {
            diagnostics: self.diagnostics.push(Diagnostic::failure(scope.source_id, error)),
            ..self
        }
    }
}

/// The state that assembling a node leaves, and what the node returns.
pub struct Outcome {
    /// The state after the node.
    pub state: State,
    /// What was assembled, or the error that ends the function.
    pub result: Result<Asm, CompileError>,
}

/// The state that assembling a run of nodes leaves, and the error that
/// stopped it, if one did.
pub struct Progress {
    /// The state after the last node that was assembled.
    pub state: State,
    /// The error that ended the run early.
    pub error: Option<CompileError>,
}

/// The instruction that pushes the constant `value` out of `slot`.
pub open spec fn push_of(value: StaticValue, slot: usize) -> Inst {
    match value {
        StaticValue::Number(_) => Inst::Number { slot },
        StaticValue::String(_) => Inst::String { slot },
        StaticValue::Bytes(_) => Inst::Bytes { slot },
    }
}

/// What the text under `span` resolves to as a number, or the error at
/// `span` where it does not resolve or the span lies outside the text.
pub open spec fn resolved_number(text: Seq<u8>, span: Span) -> Result<i64, CompileError> {
    if !span.within(text.len()) {
        Err(CompileError { span, kind: DiagnosticKind::BadSpan })
    } else {
        match number_value(text.subrange(span.start as int, span.end as int)) {
            Ok(n) => Ok(n),
            Err(kind) => Err(CompileError { span, kind }),
        }
    }
}

/// What the text under `span` resolves to as a string, or the error at
/// `span`.
pub open spec fn resolved_string(text: Seq<u8>, span: Span) -> Result<Seq<u8>, CompileError> {
    if !span.within(text.len()) {
        Err(CompileError { span, kind: DiagnosticKind::BadSpan })
    } else {
        match string_value(text.subrange(span.start as int, span.end as int)) {
            Ok(bytes) => Ok(bytes),
            Err(kind) => Err(CompileError { span, kind }),
        }
    }
}

/// What the text under `span` resolves to as a byte string, or the error
/// at `span`.
pub open spec fn resolved_bytes(text: Seq<u8>, span: Span) -> Result<Seq<u8>, CompileError> {
    if !span.within(text.len()) {
        Err(CompileError { span, kind: DiagnosticKind::BadSpan })
    } else {
        match byte_string_value(text.subrange(span.start as int, span.end as int)) {
            Ok(bytes) => Ok(bytes),
            Err(kind) => Err(CompileError { span, kind }),
        }
    }
}

/// The constant that a number literal stands for.
pub open spec fn number_constant(text: Seq<u8>, span: Span) -> Result<StaticValue, CompileError> {
    match resolved_number(text, span) {
        Ok(n) => Ok(StaticValue::Number(n)),
        Err(error) => Err(error),
    }
}

/// The constant that a string literal stands for.
pub open spec fn string_constant(text: Seq<u8>, span: Span) -> Result<StaticValue, CompileError> {
    match resolved_string(text, span) {
        Ok(bytes) => Ok(StaticValue::String(bytes)),
        Err(error) => Err(error),
    }
}

/// The constant that a byte string literal stands for.
pub open spec fn bytes_constant(text: Seq<u8>, span: Span) -> Result<StaticValue, CompileError> {
    match resolved_bytes(text, span) {
        Ok(bytes) => Ok(StaticValue::Bytes(bytes)),
        Err(error) => Err(error),
    }
}

/// The rule for a literal at `span` that stands for `constant`.
///
/// A literal that is not needed is elided with a warning before it is
/// looked at, whatever it holds and wherever its span lies: that never
/// fails. A needed literal whose span lies outside the text ends the
/// function. Else it puts its constant into a new static slot and pushes
/// it; one that does not resolve is recorded as fatal and pushes the unit
/// value in its place.
pub open spec fn literal_outcome(
    scope: Scope,
    state: State,
    span: Span,
    needs: Needs,
    constant: Result<StaticValue, CompileError>,
) -> Outcome {
    if needs is Nothing {
        Outcome { state: state.unused(scope, span), result: Ok(Asm { span, pushed: false }) }
    } else if !scope.holds(span) {
        Outcome { state, result: Err(CompileError { span, kind: DiagnosticKind::BadSpan }) }
    } else {
        match constant {
            Ok(value) => Outcome {
                state: (State { unit: state.unit.with_static(value, span), ..state }).emit(
                    scope,
                    push_of(value, state.unit.pool.len() as usize),
                    span,
                ),
                result: Ok(Asm { span, pushed: true }),
            },
            Err(error) => Outcome {
                state: state.failed(scope, error).emit(scope, Inst::Unit, span),
                result: Ok(Asm { span, pushed: true }),
            },
        }
    }
}

/// The rule for the use of the local variable named at `span`.
///
/// A span outside the text, or a name that no parameter carries, ends the
/// function. A variable that is not needed is elided with a warning; a
/// needed one is copied to the top of the stack.
pub open spec fn path_outcome(scope: Scope, state: State, span: Span, needs: Needs) -> Outcome {
    if !scope.holds(span) {
        Outcome { state, result: Err(CompileError { span, kind: DiagnosticKind::BadSpan }) }
    } else {
        match scope.local_index(scope.token(span)) {
            None => Outcome {
                state,
                result: Err(CompileError { span, kind: DiagnosticKind::MissingLocal }),
            },
            Some(offset) => if needs is Nothing {
                Outcome { state: state.unused(scope, span), result: Ok(Asm { span, pushed: false }) }
            } else {
                Outcome {
                    state: state.emit(scope, Inst::Copy { offset: offset as usize }, span),
                    result: Ok(Asm { span, pushed: true }),
                }
            },
        }
    }
}

/// The rule for a call.
///
/// A span outside the text ends the function, as does an error in an
/// argument. The call is recorded in the function table first, then the
/// arguments are assembled in order, each for its value, then the call is
/// emitted. A result that is not needed is popped.
pub open spec fn call_outcome(call: ExprCall, scope: Scope, state: State, needs: Needs) -> Outcome
    decreases call, 0int,
{
    if !scope.holds(call.span) {
        Outcome { state, result: Err(CompileError { span: call.span, kind: DiagnosticKind::BadSpan }) }
    } else if !scope.holds(call.name) {
        Outcome { state, result: Err(CompileError { span: call.name, kind: DiagnosticKind::BadSpan }) }
    } else {
        let name = scope.token(call.name);
        let function = state.unit.position(name) as usize;
        let site = Site { source_id: scope.source_id, span: call.span };
        let referenced = State { unit: state.unit.with_reference(name, site), ..state };
        let args = exprs_progress(
            call.args@,
            call.args@.len() as int,
            scope,
            referenced,
            Needs::Value,
        );
        match args.error {
            Some(error) => Outcome { state: args.state, result: Err(error) },
            None => {
                let called = args.state.emit(
                    scope,
                    Inst::Call { function, args: call.args@.len() as usize },
                    call.span,
                );
                if needs is Nothing {
                    Outcome {
                        state: called.emit(scope, Inst::Pop, call.span),
                        result: Ok(Asm { span: call.span, pushed: false }),
                    }
                } else {
                    Outcome { state: called, result: Ok(Asm { span: call.span, pushed: true }) }
                }
            },
        }
    }
}

/// The rule for a block.
///
/// A span outside the text ends the function, as does an error in one of
/// the expressions. All expressions but the last are assembled for their
/// side effects. The last one gives the block its value, unless a semicolon
/// follows it or the block is empty: then the block's value is the unit
/// value, pushed where it is needed.
pub open spec fn block_outcome(block: Block, scope: Scope, state: State, needs: Needs) -> Outcome
    decreases block, 0int,
{
    let span = block.span;
    let count = block.exprs@.len() as int;
    if !scope.holds(span) {
        Outcome { state, result: Err(CompileError { span, kind: DiagnosticKind::BadSpan }) }
    } else if count == 0 {
        if needs is Nothing {
            Outcome { state, result: Ok(Asm { span, pushed: false }) }
        } else {
            Outcome {
                state: state.emit(scope, Inst::Unit, span),
                result: Ok(Asm { span, pushed: true }),
            }
        }
    } else {
        let head = exprs_progress(block.exprs@, count - 1, scope, state, Needs::Nothing);
        match head.error {
            Some(error) => Outcome { state: head.state, result: Err(error) },
            None => {
                let last = expr_outcome(
                    block.exprs@[count - 1],
                    scope,
                    head.state,
                    if block.trailing_semi {
                        Needs::Nothing
                    } else {
                        needs
                    },
                );
                match last.result {
                    Err(error) => Outcome { state: last.state, result: Err(error) },
                    Ok(_) => if needs is Nothing {
                        Outcome { state: last.state, result: Ok(Asm { span, pushed: false }) }
                    } else if block.trailing_semi {
                        Outcome {
                            state: last.state.emit(scope, Inst::Unit, span),
                            result: Ok(Asm { span, pushed: true }),
                        }
                    } else {
                        Outcome { state: last.state, result: Ok(Asm { span, pushed: true }) }
                    },
                }
            },
        }
    }
}

/// The rule for an expression: that of its kind.
pub open spec fn expr_outcome(expr: Expr, scope: Scope, state: State, needs: Needs) -> Outcome
    decreases expr, 0int,
{
    match expr {
        Expr::LitNumber(lit) => literal_outcome(
            scope,
            state,
            lit.span,
            needs,
            number_constant(scope.text, lit.span),
        ),
        Expr::LitStr(lit) => literal_outcome(
            scope,
            state,
            lit.span,
            needs,
            string_constant(scope.text, lit.span),
        ),
        Expr::LitByteStr(lit) => literal_outcome(
            scope,
            state,
            lit.span,
            needs,
            bytes_constant(scope.text, lit.span),
        ),
        Expr::Path(path) => path_outcome(scope, state, path.span, needs),
        Expr::Call(call) => call_outcome(call, scope, state, needs),
        Expr::Block(block) => block_outcome(block, scope, state, needs),
    }
}

/// The first `count` expressions of `exprs` assembled in order, each under
/// `needs`, up to the first error.
pub open spec fn exprs_progress(
    exprs: Seq<Expr>,
    count: int,
    scope: Scope,
    state: State,
    needs: Needs,
) -> Progress
    decreases exprs, count,
{
    if count <= 0 || count > exprs.len() {
        Progress { state, error: None }
    } else {
        let before = exprs_progress(exprs, count - 1, scope, state, needs);
        match before.error {
            Some(error) => before,
            None => {
                let next = expr_outcome(exprs[count - 1], scope, before.state, needs);
                match next.result {
                    Ok(_) => Progress { state: next.state, error: None },
                    Err(error) => Progress { state: next.state, error: Some(error) },
                }
            },
        }
    }
}

/// Once an expression of a run has failed, the rest of the run is not
/// assembled: a longer run ends in the same state with the same error.
pub proof fn lemma_progress_stops(
    exprs: Seq<Expr>,
    failed: int,
    count: int,
    scope: Scope,
    state: State,
    needs: Needs,
)
    requires
        0 <= failed <= count <= exprs.len(),
        exprs_progress(exprs, failed, scope, state, needs).error is Some,
    ensures
        exprs_progress(exprs, count, scope, state, needs) == exprs_progress(
            exprs,
            failed,
            scope,
            state,
            needs,
        ),
    decreases count - failed,
{
    if failed < count {
        lemma_progress_stops(exprs, failed, count - 1, scope, state, needs);
    }
}

/// The context that the assembly of one function works in: the source it
/// reads, and the unit, the sink and the assembly it writes to.
pub struct Compiler<'a> {
    /// The source that the function comes from.
    pub source: &'a Source,
    /// The parameters of the function, as the spans of their names.
    pub locals: &'a Vec<Span>,
    /// The span of the function, where it is known.
    pub context: Option<Span>,
    /// The unit that is being built.
    pub unit: UnitBuilder,
    /// The sink for events.
    pub diagnostics: Diagnostics,
    /// The instructions of the function.
    pub assembly: Assembly,
}

impl<'a> Compiler<'a> {
    /// What the assembly reads.
    pub open spec fn scope(&self) -> Scope {
        Scope {
            source_id: self.assembly.source_id,
            text: self.source.text@,
            locals: self.locals@,
            context: self.context,
        }
    }

    /// What the assembly has written so far.
    pub open spec fn state(&self) -> State {
        State {
            unit: self.unit@,
            diagnostics: self.diagnostics@,
            code: self.assembly.instructions@,
        }
    }

    /// The source that the function comes from.
    pub fn source_id(&self) -> (id: SourceId)
        ensures
            id == self.scope().source_id,
    {
        self.assembly.source_id
    }

    /// The span of the function, where it is known.
    pub fn context(&self) -> (context: Option<Span>)
        ensures
            context == self.scope().context,
    {
        self.context
    }

    /// The position in the frame of the first parameter called `name`.
    pub fn find_local(&self, name: &[u8]) -> (found: Option<usize>)
        ensures
            found matches Some(i) ==> self.scope().local_index(name@) == Some(i as int),
            found is None ==> self.scope().local_index(name@) is None,
    {
        let ghost matches = self.scope().local_matches(name@);
        let mut i: usize = 0;
        while i < self.locals.len()
            invariant
                i <= self.locals.len(),
                matches == self.scope().local_matches(name@),
                forall|j: int| 0 <= j < i ==> matches[j] != true,
            decreases self.locals.len() - i,
        {
            if let Some(local) = self.source.get(self.locals[i]) {
                if bytes_eq(local, name) {
                    proof {
                        lemma_first_index_found(matches, true, i as int);
                    }
                    return Some(i);
                }
            }
            i += 1;
        }
        proof {
            lemma_first_index_absent(matches, true);
        }
        None
    }
}

impl LitNumber {
    /// Resolves the literal against the text of `source`.
    pub fn resolve(&self, source: &Source) -> (result: Result<i64, CompileError>)
        ensures
            result == resolved_number(source.text@, self.span),
    {
        match source.get(self.span) {
            None => Err(CompileError::new(self.span, DiagnosticKind::BadSpan)),
            Some(token) => match parse_number(token) {
                Ok(n) => Ok(n),
                Err(kind) => Err(CompileError::new(self.span, kind)),
            },
        }
    }

    /// Assembles the literal: see `literal_outcome`.
    pub fn assemble(&self, c: &mut Compiler<'_>, needs: Needs) -> (result: Result<Asm, CompileError>)
        ensures
            final(c).scope() == old(c).scope(),
            (Outcome { state: final(c).state(), result }) == literal_outcome(
                old(c).scope(),
                old(c).state(),
                self.span,
                needs,
                number_constant(old(c).scope().text, self.span),
            ),
    {
        let span = self.span;
        // Elide the entire literal if it is not needed.
        if !needs.value() {
            c.diagnostics.not_used(c.source_id(), span, c.context());
            return Ok(Asm::empty(span));
        }
        if !c.source.contains(span) {
            return Err(CompileError::new(span, DiagnosticKind::BadSpan));
        }
        match self.resolve(c.source) {
            Ok(number) => {
                let slot = c.unit.new_static_number(span, number);
                c.assembly.push(Inst::Number { slot }, span);
            },
            Err(error) => {
                c.diagnostics.error(c.source_id(), error);
                c.assembly.push(Inst::Unit, span);
            },
        }
        Ok(Asm::top(span))
    }
}

impl LitStr {
    /// Resolves the literal against the text of `source`.
    pub fn resolve(&self, source: &Source) -> (result: Result<Vec<u8>, CompileError>)
        ensures
            match result {
                Ok(bytes) => resolved_string(source.text@, self.span) == Ok::<Seq<u8>, CompileError>(
                    bytes@,
                ),
                Err(error) => resolved_string(source.text@, self.span) == Err::<
                    Seq<u8>,
                    CompileError,
                >(error),
            },
    {
        match source.get(self.span) {
            None => Err(CompileError::new(self.span, DiagnosticKind::BadSpan)),
            Some(token) => match parse_string(token) {
                Ok(bytes) => Ok(bytes),
                Err(kind) => Err(CompileError::new(self.span, kind)),
            },
        }
    }

    /// Assembles the literal: see `literal_outcome`.
    pub fn assemble(&self, c: &mut Compiler<'_>, needs: Needs) -> (result: Result<Asm, CompileError>)
        ensures
            final(c).scope() == old(c).scope(),
            (Outcome { state: final(c).state(), result }) == literal_outcome(
                old(c).scope(),
                old(c).state(),
                self.span,
                needs,
                string_constant(old(c).scope().text, self.span),
            ),
    {
        let span = self.span;
        // Elide the entire literal if it is not needed.
        if !needs.value() {
            c.diagnostics.not_used(c.source_id(), span, c.context());
            return Ok(Asm::empty(span));
        }
        if !c.source.contains(span) {
            return Err(CompileError::new(span, DiagnosticKind::BadSpan));
        }
        match self.resolve(c.source) {
            Ok(bytes) => {
                let slot = c.unit.new_static_string(span, bytes.as_slice());
                c.assembly.push(Inst::String { slot }, span);
            },
            Err(error) => {
                c.diagnostics.error(c.source_id(), error);
                c.assembly.push(Inst::Unit, span);
            },
        }
        Ok(Asm::top(span))
    }
}

impl LitByteStr {
    /// Resolves the literal against the text of `source`.
    pub fn resolve(&self, source: &Source) -> (result: Result<Vec<u8>, CompileError>)
        ensures
            match result {
                Ok(bytes) => resolved_bytes(source.text@, self.span) == Ok::<Seq<u8>, CompileError>(
                    bytes@,
                ),
                Err(error) => resolved_bytes(source.text@, self.span) == Err::<
                    Seq<u8>,
                    CompileError,
                >(error),
            },
    {
        match source.get(self.span) {
            None => Err(CompileError::new(self.span, DiagnosticKind::BadSpan)),
            Some(token) => match parse_byte_string(token) {
                Ok(bytes) => Ok(bytes),
                Err(kind) => Err(CompileError::new(self.span, kind)),
            },
        }
    }

    /// Assembles the literal: see `literal_outcome`.
    pub fn assemble(&self, c: &mut Compiler<'_>, needs: Needs) -> (result: Result<Asm, CompileError>)
        ensures
            final(c).scope() == old(c).scope(),
            (Outcome { state: final(c).state(), result }) == literal_outcome(
                old(c).scope(),
                old(c).state(),
                self.span,
                needs,
                bytes_constant(old(c).scope().text, self.span),
            ),
    {
        let span = self.span;
        // Elide the entire literal if it is not needed.
        if !needs.value() {
            c.diagnostics.not_used(c.source_id(), span, c.context());
            return Ok(Asm::empty(span));
        }
        if !c.source.contains(span) {
            return Err(CompileError::new(span, DiagnosticKind::BadSpan));
        }
        match self.resolve(c.source) {
            Ok(bytes) => {
                let slot = c.unit.new_static_bytes(span, bytes.as_slice());
                c.assembly.push(Inst::Bytes { slot }, span);
            },
            Err(error) => {
                c.diagnostics.error(c.source_id(), error);
                c.assembly.push(Inst::Unit, span);
            },
        }
        Ok(Asm::top(span))
    }
}

impl Path {
    /// Assembles the use of the variable: see `path_outcome`.
    pub fn assemble(&self, c: &mut Compiler<'_>, needs: Needs) -> (result: Result<Asm, CompileError>)
        ensures
            final(c).scope() == old(c).scope(),
            (Outcome { state: final(c).state(), result }) == path_outcome(
                old(c).scope(),
                old(c).state(),
                self.span,
                needs,
            ),
    {
        let span = self.span;
        let name = match c.source.get(span) {
            Some(name) => name,
            None => {
                return Err(CompileError::new(span, DiagnosticKind::BadSpan));
            },
        };
        let offset = match c.find_local(name) {
            Some(offset) => offset,
            None => {
                return Err(CompileError::new(span, DiagnosticKind::MissingLocal));
            },
        };
        if !needs.value() {
            c.diagnostics.not_used(c.source_id(), span, c.context());
            return Ok(Asm::empty(span));
        }
        c.assembly.push(Inst::Copy { offset }, span);
        Ok(Asm::top(span))
    }
}

/// Assembles the first `count` expressions of `exprs` in order, each under
/// `needs`, and stops at the first that fails.
fn assemble_all(exprs: &Vec<Expr>, count: usize, c: &mut Compiler<'_>, needs: Needs) -> (error:
    Option<CompileError>)
    requires
        count <= exprs@.len(),
    ensures
        final(c).scope() == old(c).scope(),
        (Progress { state: final(c).state(), error }) == exprs_progress(
            exprs@,
            count as int,
            old(c).scope(),
            old(c).state(),
            needs,
        ),
    decreases *exprs,
{
    let mut i: usize = 0;
    while i < count
        invariant
            i <= count <= exprs@.len(),
            c.scope() == old(c).scope(),
            (Progress { state: c.state(), error: None }) == exprs_progress(
                exprs@,
                i as int,
                old(c).scope(),
                old(c).state(),
                needs,
            ),
        decreases count - i,
    {
        proof {
            assert(decreases_to!(*exprs => exprs@[i as int]));
        }
        if let Err(error) = exprs[i].assemble(c, needs) {
            proof {
                lemma_progress_stops(
                    exprs@,
                    i + 1,
                    count as int,
                    old(c).scope(),
                    old(c).state(),
                    needs,
                );
            }
            return Some(error);
        }
        i += 1;
    }
    None
}

impl ExprCall {
    /// Assembles the call: see `call_outcome`.
    pub fn assemble(&self, c: &mut Compiler<'_>, needs: Needs) -> (result: Result<Asm, CompileError>)
        ensures
            final(c).scope() == old(c).scope(),
            (Outcome { state: final(c).state(), result }) == call_outcome(
                *self,
                old(c).scope(),
                old(c).state(),
                needs,
            ),
        decreases *self,
    {
        let span = self.span;
        if !c.source.contains(span) {
            return Err(CompileError::new(span, DiagnosticKind::BadSpan));
        }
        let name = match c.source.get(self.name) {
            Some(name) => name,
            None => {
                return Err(CompileError::new(self.name, DiagnosticKind::BadSpan));
            },
        };
        let function = c.unit.reference(name, Site::new(c.source_id(), span));
        if let Some(error) = assemble_all(&self.args, self.args.len(), c, Needs::Value) {
            return Err(error);
        }
        c.assembly.push(Inst::Call { function, args: self.args.len() }, span);
        if !needs.value() {
            c.assembly.push(Inst::Pop, span);
            return Ok(Asm::empty(span));
        }
        Ok(Asm::top(span))
    }
}

impl Block {
    /// Assembles the block: see `block_outcome`.
    pub fn assemble(&self, c: &mut Compiler<'_>, needs: Needs) -> (result: Result<Asm, CompileError>)
        ensures
            final(c).scope() == old(c).scope(),
            (Outcome { state: final(c).state(), result }) == block_outcome(
                *self,
                old(c).scope(),
                old(c).state(),
                needs,
            ),
        decreases *self,
    {
        let span = self.span;
        if !c.source.contains(span) {
            return Err(CompileError::new(span, DiagnosticKind::BadSpan));
        }
        let count = self.exprs.len();
        if count == 0 {
            if !needs.value() {
                return Ok(Asm::empty(span));
            }
            c.assembly.push(Inst::Unit, span);
            return Ok(Asm::top(span));
        }
        if let Some(error) = assemble_all(&self.exprs, count - 1, c, Needs::Nothing) {
            return Err(error);
        }
        let last = if self.trailing_semi {
            Needs::Nothing
        } else {
            needs
        };
        proof {
            assert(decreases_to!(*self => self.exprs@[count - 1]));
        }
        if let Err(error) = self.exprs[count - 1].assemble(c, last) {
            return Err(error);
        }
        if !needs.value() {
            return Ok(Asm::empty(span));
        }
        if self.trailing_semi {
            c.assembly.push(Inst::Unit, span);
        }
        Ok(Asm::top(span))
    }
}

impl Expr {
    /// The span of the expression.
    pub open spec fn spec_span(&self) -> Span {
        match self {
            Expr::LitNumber(lit) => lit.span,
            Expr::LitStr(lit) => lit.span,
            Expr::LitByteStr(lit) => lit.span,
            Expr::Path(path) => path.span,
            Expr::Call(call) => call.span,
            Expr::Block(block) => block.span,
        }
    }

    /// The span of the expression.
    #[verifier::when_used_as_spec(spec_span)]
    pub fn span(&self) -> (span: Span)
        ensures
            span == self.spec_span(),
    {
        match self {
            Expr::LitNumber(lit) => lit.span,
            Expr::LitStr(lit) => lit.span,
            Expr::LitByteStr(lit) => lit.span,
            Expr::Path(path) => path.span,
            Expr::Call(call) => call.span,
            Expr::Block(block) => block.span,
        }
    }

    /// Assembles the expression by the rule of its kind: see
    /// `expr_outcome`.
    pub fn assemble(&self, c: &mut Compiler<'_>, needs: Needs) -> (result: Result<Asm, CompileError>)
        ensures
            final(c).scope() == old(c).scope(),
            (Outcome { state: final(c).state(), result }) == expr_outcome(
                *self,
                old(c).scope(),
                old(c).state(),
                needs,
            ),
        decreases *self,
    {
        match self {
            Expr::LitNumber(lit) => lit.assemble(c, needs),
            Expr::LitStr(lit) => lit.assemble(c, needs),
            Expr::LitByteStr(lit) => lit.assemble(c, needs),
            Expr::Path(path) => path.assemble(c, needs),
            Expr::Call(call) => call.assemble(c, needs),
            Expr::Block(block) => block.assemble(c, needs),
        }
    }
}

} // verus!
