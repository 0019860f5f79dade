//! What holds of everything the code generator emits.

use crate::assemble::{
    block_outcome, bytes_constant, call_outcome, expr_outcome, exprs_progress, literal_outcome,
    number_constant, path_outcome, push_of, resolved_number, string_constant, Scope, State,
};
use crate::ast::{Block, Expr, ExprCall, Item, ItemFn};
use crate::bytes::lemma_first_index_sound;
use crate::compile::{fn_outcome, items_outcome, sources_outcome, Build};
use crate::diagnostics::{CompileError, Diagnostic, DiagnosticKind};
use crate::inst::{
    appended, extends, lemma_extends_trans, lemma_net_effect_concat, lemma_net_effect_push,
    net_effect, Asm, Inst, Located,
};
use crate::needs::Needs;
use crate::number::{signed_value, well_formed};
use crate::source::Source;
use crate::span::{Site, SourceId, Span};
use crate::unit::{StaticValue, UnitModel};
use vstd::prelude::*;

verus! {

/// The unit `after` holds all that `before` held, where it held it: the
/// static pool and the names of the function table were only added to.
pub open spec fn unit_grown(after: UnitModel, before: UnitModel) -> bool {
    &&& after.prelude == before.prelude
    &&& after.instructions == before.instructions
    &&& extends(after.pool, before.pool)
    &&& extends(after.names(), before.names())
}

/// A unit that grew into one that fits did fit.
pub proof fn lemma_fits_before(after: UnitModel, before: UnitModel)
    requires
        unit_grown(after, before),
        after.fits(),
    ensures
        before.fits(),
{
    assert(after.names().len() == after.functions.len());
    assert(before.names().len() == before.functions.len());
}

/// The instruction was emitted for text of the scope's source, and what it
/// refers to exists in `unit`.
pub open spec fn well_emitted(scope: Scope, unit: UnitModel, at: Located) -> bool {
    &&& at.source_id == scope.source_id
    &&& scope.holds(at.span)
    &&& unit.inst_resolves(at.inst)
}

/// The state `after` came from `before` by appending only: to the unit, to
/// the events and to the code; and every instruction that was appended is
/// well emitted.
pub open spec fn grown(scope: Scope, after: State, before: State) -> bool {
    &&& unit_grown(after.unit, before.unit)
    &&& extends(after.diagnostics, before.diagnostics)
    &&& extends(after.code, before.code)
    &&& forall|i: int|
        before.code.len() <= i < after.code.len() ==> well_emitted(
            scope,
            after.unit,
            #[trigger] after.code[i],
        )
}

/// What an instruction refers to stays where it is when the unit grows.
pub proof fn lemma_resolves_grown(after: UnitModel, before: UnitModel, inst: Inst)
    requires
        unit_grown(after, before),
        before.inst_resolves(inst),
    ensures
        after.inst_resolves(inst),
{
    assert(after.names().len() == after.functions.len());
    assert(before.names().len() == before.functions.len());
    match inst {
        Inst::Number { slot } => {
            assert(after.pool[slot as int] == before.pool[slot as int]);
        },
        Inst::String { slot } => {
            assert(after.pool[slot as int] == before.pool[slot as int]);
        },
        Inst::Bytes { slot } => {
            assert(after.pool[slot as int] == before.pool[slot as int]);
        },
        _ => {},
    }
}

/// Growing is transitive.
pub proof fn lemma_grown_trans(scope: Scope, last: State, middle: State, first: State)
    requires
        grown(scope, last, middle),
        grown(scope, middle, first),
    ensures
        grown(scope, last, first),
{
    assert forall|i: int| first.code.len() <= i < last.code.len() implies well_emitted(
        scope,
        last.unit,
        #[trigger] last.code[i],
    ) by {
        if i < middle.code.len() {
            assert(last.code[i] == middle.code[i]);
            assert(well_emitted(scope, middle.unit, middle.code[i]));
            lemma_resolves_grown(last.unit, middle.unit, middle.code[i].inst);
        }
    }
    assert forall|i: int| 0 <= i < first.unit.pool.len() implies #[trigger] last.unit.pool[i]
        == first.unit.pool[i] by {
        assert(middle.unit.pool[i] == first.unit.pool[i]);
    }
    assert forall|i: int| 0 <= i < first.unit.names().len() implies #[trigger] last.unit.names()[i]
        == first.unit.names()[i] by {
        assert(middle.unit.names()[i] == first.unit.names()[i]);
    }
    assert forall|i: int| 0 <= i < first.diagnostics.len() implies #[trigger] last.diagnostics[i]
        == first.diagnostics[i] by {
        assert(middle.diagnostics[i] == first.diagnostics[i]);
    }
    assert forall|i: int| 0 <= i < first.code.len() implies #[trigger] last.code[i]
        == first.code[i] by {
        assert(middle.code[i] == first.code[i]);
    }
}

/// Recording a call keeps every function at its position, and gives the
/// callee a position in the table.
pub proof fn lemma_reference_grows(unit: UnitModel, name: Seq<u8>, site: Site)
    ensures
        unit_grown(unit.with_reference(name, site), unit),
        0 <= unit.position(name) < unit.with_reference(name, site).functions.len(),
{
    let after = unit.with_reference(name, site);
    lemma_first_index_sound(unit.names(), name);
    match unit.lookup(name) {
        Some(i) => {
            assert(after.names() =~= unit.names());
        },
        None => {
            assert(after.names() =~= unit.names().push(name));
        },
    }
}

/// Emitting one instruction that resolves, for text of the source, keeps
/// the state grown and adds the stack effect of the instruction.
pub proof fn lemma_emit_grows(scope: Scope, after: State, before: State, inst: Inst, span: Span)
    requires
        grown(scope, after, before),
        scope.holds(span),
        after.unit.inst_resolves(inst),
    ensures
        grown(scope, after.emit(scope, inst, span), before),
        net_effect(appended(after.emit(scope, inst, span).code, before.code)) == net_effect(
            appended(after.code, before.code),
        ) + inst.stack_effect(),
{
    let last = Located { inst, source_id: scope.source_id, span };
    let emitted = after.emit(scope, inst, span);
    assert(appended(emitted.code, before.code) =~= appended(after.code, before.code).push(last));
    lemma_net_effect_push(appended(after.code, before.code), last);
}

/// The law of the usage signal, for every expression.
///
/// Whatever the expression and the state it is assembled in, the state
/// only grows: nothing that was emitted, recorded or put into the unit is
/// changed or removed, and every instruction that is emitted resolves in
/// the unit and carries a span of the source. Where the assembly
/// succeeds, the emitted code leaves exactly one value on the stack if a
/// value was asked for, and none if not, and the result says so.
pub proof fn lemma_needs_symmetry(expr: Expr, scope: Scope, state: State, needs: Needs)
    requires
        expr_outcome(expr, scope, state, needs).state.unit.fits(),
    ensures
        grown(scope, expr_outcome(expr, scope, state, needs).state, state),
        expr_outcome(expr, scope, state, needs).result matches Ok(out) ==> {
            &&& out == (Asm { span: expr.span(), pushed: needs is Value })
            &&& net_effect(
                appended(expr_outcome(expr, scope, state, needs).state.code, state.code),
            ) == needs.pushes()
        },
    decreases expr, 1int,
{
    match expr {
        Expr::LitNumber(lit) => lemma_literal_symmetry(
            scope,
            state,
            lit.span,
            needs,
            number_constant(scope.text, lit.span),
        ),
        Expr::LitStr(lit) => lemma_literal_symmetry(
            scope,
            state,
            lit.span,
            needs,
            string_constant(scope.text, lit.span),
        ),
        Expr::LitByteStr(lit) => lemma_literal_symmetry(
            scope,
            state,
            lit.span,
            needs,
            bytes_constant(scope.text, lit.span),
        ),
        Expr::Path(path) => lemma_path_symmetry(scope, state, path.span, needs),
        Expr::Call(call) => lemma_call_symmetry(call, scope, state, needs),
        Expr::Block(block) => lemma_block_symmetry(block, scope, state, needs),
    }
}

/// The law of the usage signal, for a literal.
pub proof fn lemma_literal_symmetry(
    scope: Scope,
    state: State,
    span: Span,
    needs: Needs,
    constant: Result<StaticValue, CompileError>,
)
    requires
        literal_outcome(scope, state, span, needs, constant).state.unit.fits(),
    ensures
        grown(scope, literal_outcome(scope, state, span, needs, constant).state, state),
        literal_outcome(scope, state, span, needs, constant).result matches Ok(out) ==> {
            &&& out == (Asm { span, pushed: needs is Value })
            &&& net_effect(
                appended(literal_outcome(scope, state, span, needs, constant).state.code, state.code),
            ) == needs.pushes()
        },
{
    assert(appended(state.code, state.code) =~= Seq::<Located>::empty());
    if scope.holds(span) && !(needs is Nothing) {
        match constant {
            Ok(value) => {
                let stored = State { unit: state.unit.with_static(value, span), ..state };
                assert(grown(scope, stored, state));
                lemma_emit_grows(
                    scope,
                    stored,
                    state,
                    push_of(value, state.unit.pool.len() as usize),
                    span,
                );
            },
            Err(error) => {
                let recorded = state.failed(scope, error);
                assert(grown(scope, recorded, state));
                lemma_emit_grows(scope, recorded, state, Inst::Unit, span);
            },
        }
    }
}

/// The law of the usage signal, for the use of a local variable.
pub proof fn lemma_path_symmetry(scope: Scope, state: State, span: Span, needs: Needs)
    ensures
        grown(scope, path_outcome(scope, state, span, needs).state, state),
        path_outcome(scope, state, span, needs).result matches Ok(out) ==> {
            &&& out == (Asm { span, pushed: needs is Value })
            &&& net_effect(appended(path_outcome(scope, state, span, needs).state.code, state.code))
                == needs.pushes()
        },
{
    assert(appended(state.code, state.code) =~= Seq::<Located>::empty());
    if scope.holds(span) {
        if let Some(offset) = scope.local_index(scope.token(span)) {
            if !(needs is Nothing) {
                lemma_emit_grows(scope, state, state, Inst::Copy { offset: offset as usize }, span);
            }
        }
    }
}

/// The law of the usage signal, for a call.
pub proof fn lemma_call_symmetry(call: ExprCall, scope: Scope, state: State, needs: Needs)
    requires
        call_outcome(call, scope, state, needs).state.unit.fits(),
    ensures
        grown(scope, call_outcome(call, scope, state, needs).state, state),
        call_outcome(call, scope, state, needs).result matches Ok(out) ==> {
            &&& out == (Asm { span: call.span, pushed: needs is Value })
            &&& net_effect(appended(call_outcome(call, scope, state, needs).state.code, state.code))
                == needs.pushes()
        },
    decreases call, 0int,
{
    assert(appended(state.code, state.code) =~= Seq::<Located>::empty());
    if scope.holds(call.span) && scope.holds(call.name) {
        let name = scope.token(call.name);
        let function = state.unit.position(name) as usize;
        let site = Site { source_id: scope.source_id, span: call.span };
        let referenced = State { unit: state.unit.with_reference(name, site), ..state };
        lemma_reference_grows(state.unit, name, site);
        assert(grown(scope, referenced, state));
        let count = call.args@.len() as int;
        let args = exprs_progress(call.args@, count, scope, referenced, Needs::Value);
        lemma_run_symmetry(call.args@, count, scope, referenced, Needs::Value);
        lemma_grown_trans(scope, args.state, referenced, state);
        if args.error is None {
            assert(count == call.args.len());
            let inst = Inst::Call { function, args: count as usize };
            assert(args.state.unit.names().len() == args.state.unit.functions.len());
            assert(referenced.unit.names().len() == referenced.unit.functions.len());
            assert(args.state.unit.inst_resolves(inst));
            lemma_emit_grows(scope, args.state, state, inst, call.span);
            let called = args.state.emit(scope, inst, call.span);
            assert(appended(args.state.code, state.code) =~= appended(
                args.state.code,
                referenced.code,
            ));
            if needs is Nothing {
                lemma_emit_grows(scope, called, state, Inst::Pop, call.span);
            }
        }
    }
}

/// The law of the usage signal, for a block.
pub proof fn lemma_block_symmetry(block: Block, scope: Scope, state: State, needs: Needs)
    requires
        block_outcome(block, scope, state, needs).state.unit.fits(),
    ensures
        grown(scope, block_outcome(block, scope, state, needs).state, state),
        block_outcome(block, scope, state, needs).result matches Ok(out) ==> {
            &&& out == (Asm { span: block.span, pushed: needs is Value })
            &&& net_effect(
                appended(block_outcome(block, scope, state, needs).state.code, state.code),
            ) == needs.pushes()
        },
    decreases block, 0int,
{
    let span = block.span;
    let count = block.exprs@.len() as int;
    assert(appended(state.code, state.code) =~= Seq::<Located>::empty());
    if scope.holds(span) {
        if count == 0 {
            if !(needs is Nothing) {
                lemma_emit_grows(scope, state, state, Inst::Unit, span);
            }
        } else {
            let head = exprs_progress(block.exprs@, count - 1, scope, state, Needs::Nothing);
            if head.error is Some {
                lemma_run_symmetry(block.exprs@, count - 1, scope, state, Needs::Nothing);
            } else {
                let last_needs = if block.trailing_semi {
                    Needs::Nothing
                } else {
                    needs
                };
                let last = expr_outcome(block.exprs@[count - 1], scope, head.state, last_needs);
                lemma_needs_symmetry(block.exprs@[count - 1], scope, head.state, last_needs);
                lemma_fits_before(last.state.unit, head.state.unit);
                lemma_run_symmetry(block.exprs@, count - 1, scope, state, Needs::Nothing);
                lemma_grown_trans(scope, last.state, head.state, state);
                if last.result is Ok {
                    lemma_extends_trans(last.state.code, head.state.code, state.code);
                    lemma_net_effect_concat(
                        appended(head.state.code, state.code),
                        appended(last.state.code, head.state.code),
                    );
                    if !(needs is Nothing) && block.trailing_semi {
                        lemma_emit_grows(scope, last.state, state, Inst::Unit, span);
                    }
                }
            }
        }
    }
}

/// The law of the usage signal, for a run of expressions: the state only
/// grows, and a run that does not fail leaves one value on the stack for
/// each of its expressions if values were asked for, and none if not.
pub proof fn lemma_run_symmetry(
    exprs: Seq<Expr>,
    count: int,
    scope: Scope,
    state: State,
    needs: Needs,
)
    requires
        0 <= count <= exprs.len(),
        exprs_progress(exprs, count, scope, state, needs).state.unit.fits(),
    ensures
        grown(scope, exprs_progress(exprs, count, scope, state, needs).state, state),
        exprs_progress(exprs, count, scope, state, needs).error is None ==> net_effect(
            appended(exprs_progress(exprs, count, scope, state, needs).state.code, state.code),
        ) == count * needs.pushes(),
    decreases exprs, count,
{
    assert(appended(state.code, state.code) =~= Seq::<Located>::empty());
    if count > 0 {
        let before = exprs_progress(exprs, count - 1, scope, state, needs);
        if before.error is Some {
            lemma_run_symmetry(exprs, count - 1, scope, state, needs);
        } else {
            let next = expr_outcome(exprs[count - 1], scope, before.state, needs);
            lemma_needs_symmetry(exprs[count - 1], scope, before.state, needs);
            lemma_fits_before(next.state.unit, before.state.unit);
            lemma_run_symmetry(exprs, count - 1, scope, state, needs);
            lemma_grown_trans(scope, next.state, before.state, state);
            if next.result is Ok {
                lemma_extends_trans(next.state.code, before.state.code, state.code);
                lemma_net_effect_concat(
                    appended(before.state.code, state.code),
                    appended(next.state.code, before.state.code),
                );
                assert(count * needs.pushes() == (count - 1) * needs.pushes() + needs.pushes())
                    by (nonlinear_arith);
            }
        }
    }
}

/// The law of elision, for literals: a literal that is assembled where no
/// value is needed is never looked at. Whatever it holds and wherever its
/// span lies, the assembly succeeds, emits nothing and puts nothing into
/// the unit; the warning that its value is not used is recorded in its
/// place, and nothing else.
pub proof fn lemma_unneeded_literal_is_elided(expr: Expr, scope: Scope, state: State)
    requires
        expr is LitNumber || expr is LitStr || expr is LitByteStr,
    ensures
        expr_outcome(expr, scope, state, Needs::Nothing).state == (State {
            diagnostics: state.diagnostics.push(
                Diagnostic::unused_value(scope.source_id, expr.span(), scope.context),
            ),
            ..state
        }),
        expr_outcome(expr, scope, state, Needs::Nothing).result == Ok::<Asm, CompileError>(
            Asm { span: expr.span(), pushed: false },
        ),
{
}

/// The law of elision, for local variables: a variable that is assembled
/// where no value is needed, and that the function declares, emits nothing
/// and puts nothing into the unit; the warning that its value is not used
/// is recorded in its place, and nothing else.
pub proof fn lemma_unneeded_variable_is_elided(expr: Expr, scope: Scope, state: State)
    requires
        expr is Path,
        expr_outcome(expr, scope, state, Needs::Nothing).result is Ok,
    ensures
        expr_outcome(expr, scope, state, Needs::Nothing).state == (State {
            diagnostics: state.diagnostics.push(
                Diagnostic::unused_value(scope.source_id, expr.span(), scope.context),
            ),
            ..state
        }),
        expr_outcome(expr, scope, state, Needs::Nothing).result == Ok::<Asm, CompileError>(
            Asm { span: expr.span(), pushed: false },
        ),
{
}

/// The law of the bounds: a well-formed number literal resolves exactly
/// when its value lies between the least and the greatest signed 64-bit
/// integer, both included, and then to that value; one beyond either bound
/// is out of bounds, and the error carries the span of the whole literal.
pub proof fn lemma_number_bounds(text: Seq<u8>, span: Span)
    requires
        span.within(text.len()),
        well_formed(text.subrange(span.start as int, span.end as int)),
    ensures
        resolved_number(text, span) is Ok <==> -0x8000_0000_0000_0000 <= signed_value(
            text.subrange(span.start as int, span.end as int),
        ) <= 0x7fff_ffff_ffff_ffff,
        resolved_number(text, span) matches Ok(value) ==> value == signed_value(
            text.subrange(span.start as int, span.end as int),
        ),
        resolved_number(text, span) matches Err(error) ==> error == (CompileError {
            span,
            kind: DiagnosticKind::BadNumberOutOfBounds,
        }),
{
}

/// The instruction was emitted for text that the set holds.
pub open spec fn located_in(sources: Seq<Source>, at: Located) -> bool {
    at.source_id.index < sources.len() && at.span.within(
        sources[at.source_id.index as int].text@.len(),
    )
}

/// Every instruction of `code` was emitted for text that the set holds.
pub open spec fn in_bounds(sources: Seq<Source>, code: Seq<Located>) -> bool {
    forall|i: int| 0 <= i < code.len() ==> located_in(sources, #[trigger] code[i])
}

/// The build `after` came from `before` by appending only: to the events,
/// to the instruction stream, to the static pool and to the function
/// table; and every instruction that was appended resolves in the unit and
/// was emitted for text that the set holds.
pub open spec fn build_grown(sources: Seq<Source>, after: Build, before: Build) -> bool {
    &&& after.unit.prelude == before.unit.prelude
    &&& extends(after.diagnostics, before.diagnostics)
    &&& extends(after.unit.instructions, before.unit.instructions)
    &&& extends(after.unit.pool, before.unit.pool)
    &&& extends(after.unit.names(), before.unit.names())
    &&& forall|i: int|
        before.unit.instructions.len() <= i < after.unit.instructions.len() ==> {
            &&& after.unit.inst_resolves((#[trigger] after.unit.instructions[i]).inst)
            &&& located_in(sources, after.unit.instructions[i])
        }
}

/// A build that grew into one that fits did fit.
pub proof fn lemma_build_fits_before(sources: Seq<Source>, after: Build, before: Build)
    requires
        build_grown(sources, after, before),
        after.unit.fits(),
    ensures
        before.unit.fits(),
{
    assert(after.unit.names().len() == after.unit.functions.len());
    assert(before.unit.names().len() == before.unit.functions.len());
}

/// Growing of builds is transitive.
pub proof fn lemma_build_grown_trans(sources: Seq<Source>, last: Build, middle: Build, first: Build)
    requires
        build_grown(sources, last, middle),
        build_grown(sources, middle, first),
    ensures
        build_grown(sources, last, first),
{
    assert(last.unit.names().len() == last.unit.functions.len());
    assert(middle.unit.names().len() == middle.unit.functions.len());
    assert forall|i: int|
        first.unit.instructions.len() <= i < last.unit.instructions.len() implies {
        &&& last.unit.inst_resolves((#[trigger] last.unit.instructions[i]).inst)
        &&& located_in(sources, last.unit.instructions[i])
    } by {
        if i < middle.unit.instructions.len() {
            assert(last.unit.instructions[i] == middle.unit.instructions[i]);
            let inst = middle.unit.instructions[i].inst;
            assert(middle.unit.inst_resolves(inst));
            match inst {
                Inst::Number { slot } => {
                    assert(last.unit.pool[slot as int] == middle.unit.pool[slot as int]);
                },
                Inst::String { slot } => {
                    assert(last.unit.pool[slot as int] == middle.unit.pool[slot as int]);
                },
                Inst::Bytes { slot } => {
                    assert(last.unit.pool[slot as int] == middle.unit.pool[slot as int]);
                },
                _ => {},
            }
        }
    }
    assert forall|i: int| 0 <= i < first.unit.pool.len() implies #[trigger] last.unit.pool[i]
        == first.unit.pool[i] by {
        assert(middle.unit.pool[i] == first.unit.pool[i]);
    }
    assert forall|i: int| 0 <= i < first.unit.names().len() implies #[trigger] last.unit.names()[i]
        == first.unit.names()[i] by {
        assert(middle.unit.names()[i] == first.unit.names()[i]);
    }
    assert forall|i: int| 0 <= i < first.diagnostics.len() implies #[trigger] last.diagnostics[i]
        == first.diagnostics[i] by {
        assert(middle.diagnostics[i] == first.diagnostics[i]);
    }
    assert forall|i: int|
        0 <= i < first.unit.instructions.len() implies #[trigger] last.unit.instructions[i]
        == first.unit.instructions[i] by {
        assert(middle.unit.instructions[i] == first.unit.instructions[i]);
    }
}

/// A build that grew from one whose instructions all resolve and lie in
/// the set is such a build.
pub proof fn lemma_build_grown_keeps(sources: Seq<Source>, after: Build, before: Build)
    requires
        build_grown(sources, after, before),
        before.unit.resolved(),
        in_bounds(sources, before.unit.instructions),
    ensures
        after.unit.resolved(),
        in_bounds(sources, after.unit.instructions),
{
    assert(after.unit.names().len() == after.unit.functions.len());
    assert(before.unit.names().len() == before.unit.functions.len());
    assert forall|i: int| 0 <= i < after.unit.instructions.len() implies {
        &&& after.unit.inst_resolves((#[trigger] after.unit.instructions[i]).inst)
        &&& located_in(sources, after.unit.instructions[i])
    } by {
        if i < before.unit.instructions.len() {
            assert(after.unit.instructions[i] == before.unit.instructions[i]);
            let inst = before.unit.instructions[i].inst;
            assert(before.unit.inst_resolves(inst));
            assert(located_in(sources, before.unit.instructions[i]));
            match inst {
                Inst::Number { slot } => {
                    assert(after.unit.pool[slot as int] == before.unit.pool[slot as int]);
                },
                Inst::String { slot } => {
                    assert(after.unit.pool[slot as int] == before.unit.pool[slot as int]);
                },
                Inst::Bytes { slot } => {
                    assert(after.unit.pool[slot as int] == before.unit.pool[slot as int]);
                },
                _ => {},
            }
        }
    }
}

/// Compiling a function definition only adds to the build, and the code it
/// adds to the stream resolves and lies in the source.
pub proof fn lemma_fn_grows(sources: Seq<Source>, index: int, item: ItemFn, before: Build)
    requires
        0 <= index < sources.len() <= usize::MAX,
        fn_outcome(item, SourceId { index: index as usize }, sources[index].text@, before).unit.fits(),
    ensures
        build_grown(
            sources,
            fn_outcome(item, SourceId { index: index as usize }, sources[index].text@, before),
            before,
        ),
{
    let source_id = SourceId { index: index as usize };
    let text = sources[index].text@;
    let after = fn_outcome(item, source_id, text, before);
    let scope = Scope { source_id, text, locals: item.params@, context: Some(item.span) };
    if scope.holds(item.span) && scope.holds(item.name) {
        let start = State { unit: before.unit, diagnostics: before.diagnostics, code: Seq::empty() };
        let body = block_outcome(item.body, scope, start, Needs::Value);
        let name = scope.token(item.name);
        let code = body.state.emit(scope, Inst::Return, item.span).code;
        let defined = body.state.unit.with_function(
            name,
            item.params@.len() as usize,
            code,
            Site { source_id, span: item.span },
        );
        lemma_first_index_sound(body.state.unit.names(), name);
        assert(defined.names().len() == defined.functions.len());
        assert(body.state.unit.names().len() == body.state.unit.functions.len());
        assert(extends(defined.names(), body.state.unit.names())) by {
            match body.state.unit.lookup(name) {
                Some(i) => {
                    assert(defined.names() =~= body.state.unit.names());
                },
                None => {
                    assert(defined.names() =~= body.state.unit.names().push(name));
                },
            }
        }
        lemma_block_symmetry(item.body, scope, start, Needs::Value);
        if body.result is Ok && !body.state.unit.defines(name) {
            assert(after.unit == defined);
            assert forall|i: int|
                before.unit.instructions.len() <= i < defined.instructions.len() implies {
                &&& defined.inst_resolves((#[trigger] defined.instructions[i]).inst)
                &&& located_in(sources, defined.instructions[i])
            } by {
                let k = i - before.unit.instructions.len();
                assert(defined.instructions[i] == code[k]);
                if k < body.state.code.len() {
                    assert(code[k] == body.state.code[k]);
                    assert(well_emitted(scope, body.state.unit, body.state.code[k]));
                    let inst = code[k].inst;
                    match inst {
                        Inst::Number { slot } => {},
                        Inst::String { slot } => {},
                        Inst::Bytes { slot } => {},
                        _ => {},
                    }
                }
            }
        }
    }
}

/// Compiling the items of a source only adds to the build, and the code
/// it adds to the stream resolves and lies in the source.
pub proof fn lemma_items_grow(
    sources: Seq<Source>,
    index: int,
    items: Seq<Item>,
    count: int,
    before: Build,
)
    requires
        0 <= index < sources.len() <= usize::MAX,
        0 <= count <= items.len(),
        items_outcome(
            items,
            count,
            SourceId { index: index as usize },
            sources[index].text@,
            before,
        ).unit.fits(),
    ensures
        build_grown(
            sources,
            items_outcome(
                items,
                count,
                SourceId { index: index as usize },
                sources[index].text@,
                before,
            ),
            before,
        ),
    decreases count,
{
    let source_id = SourceId { index: index as usize };
    let text = sources[index].text@;
    if count > 0 {
        let earlier = items_outcome(items, count - 1, source_id, text, before);
        match items[count - 1] {
            Item::Fn(item) => {
                let after = fn_outcome(item, source_id, text, earlier);
                lemma_fn_grows(sources, index, item, earlier);
                lemma_build_fits_before(sources, after, earlier);
                lemma_items_grow(sources, index, items, count - 1, before);
                lemma_build_grown_trans(sources, after, earlier, before);
            },
            Item::Import(_) => {
                lemma_items_grow(sources, index, items, count - 1, before);
            },
        }
    }
}

/// The law of growth, for a whole compilation: compiling sources only adds
/// to the build. No event is changed or removed, no static slot is reused,
/// no instruction is reordered or removed; and every instruction that is
/// added resolves in the unit and was emitted for text that the set holds.
pub proof fn lemma_sources_grow(sources: Seq<Source>, count: int, before: Build)
    requires
        0 <= count <= sources.len() <= usize::MAX,
        sources_outcome(sources, count, before).unit.fits(),
    ensures
        build_grown(sources, sources_outcome(sources, count, before), before),
    decreases count,
{
    if count > 0 {
        let earlier = sources_outcome(sources, count - 1, before);
        let source = sources[count - 1];
        let after = sources_outcome(sources, count, before);
        lemma_items_grow(sources, count - 1, source.items@, source.items@.len() as int, earlier);
        lemma_build_fits_before(sources, after, earlier);
        lemma_sources_grow(sources, count - 1, before);
        lemma_build_grown_trans(sources, after, earlier, before);
    }
}

} // verus!
