use rune::assemble::Compiler;
use rune::ast::{Block, Expr, ExprCall, LitByteStr, LitNumber, LitStr, Path};
use rune::diagnostics::{CompileError, Detail, Diagnostic, DiagnosticKind, Diagnostics, Severity};
use rune::inst::{Asm, Assembly, Inst, Located};
use rune::needs::Needs;
use rune::source::Source;
use rune::span::{Site, SourceId, Span};
use rune::unit::{FunctionEntry, FunctionState, StaticData, StaticEntry, UnitBuilder};

fn source(text: &str) -> Source {
    Source::new(b"entry".to_vec(), text.as_bytes().to_vec(), vec![])
}

fn compiler<'a>(source: &'a Source, locals: &'a Vec<Span>) -> Compiler<'a> {
    Compiler {
        source,
        locals,
        context: None,
        unit: UnitBuilder::default(),
        diagnostics: Diagnostics::new(),
        assembly: Assembly::new(SourceId::new(7)),
    }
}

fn at(inst: Inst, start: usize, end: usize) -> Located {
    Located { inst, source_id: SourceId::new(7), span: Span::new(start, end) }
}

/// The span of the first occurrence of `token` in `text`.
fn find(text: &str, token: &str) -> Span {
    let start = text.find(token).unwrap();
    Span::new(start, start + token.len())
}

fn number(text: &str, token: &str) -> Expr {
    Expr::LitNumber(LitNumber { span: find(text, token) })
}

fn stack_effect(inst: &Inst) -> i64 {
    match inst {
        Inst::Unit
        | Inst::Number { .. }
        | Inst::String { .. }
        | Inst::Bytes { .. }
        | Inst::Copy { .. } => 1,
        Inst::Call { args, .. } => 1 - (*args as i64),
        Inst::Pop | Inst::Return => -1,
    }
}

fn net_effect(code: &[Located]) -> i64 {
    let mut sum = 0;
    for located in code {
        sum += stack_effect(&located.inst);
    }
    sum
}

#[test]
fn needed_number_goes_to_the_pool_and_is_pushed() {
    let source = source("  42 ");
    let locals = vec![];
    let mut c = compiler(&source, &locals);
    let literal = LitNumber { span: Span::new(2, 4) };
    assert_eq!(literal.resolve(&source), Ok(42));
    assert_eq!(literal.assemble(&mut c, Needs::Value), Ok(Asm::top(Span::new(2, 4))));
    assert_eq!(
        c.unit.statics(),
        &vec![StaticEntry { data: StaticData::Number(42), span: Span::new(2, 4) }]
    );
    assert_eq!(c.assembly.instructions, vec![at(Inst::Number { slot: 0 }, 2, 4)]);
    assert!(c.diagnostics.is_empty());
}

#[test]
fn needed_byte_string_goes_to_the_pool_and_is_pushed() {
    let source = source("b\"Hello\\n\"");
    let locals = vec![];
    let mut c = compiler(&source, &locals);
    let literal = LitByteStr { span: Span::new(0, 10) };
    assert_eq!(literal.resolve(&source), Ok(b"Hello\n".to_vec()));
    assert_eq!(literal.assemble(&mut c, Needs::Value), Ok(Asm::top(Span::new(0, 10))));
    assert_eq!(
        c.unit.statics(),
        &vec![StaticEntry { data: StaticData::Bytes(b"Hello\n".to_vec()), span: Span::new(0, 10) }]
    );
    assert_eq!(c.assembly.instructions, vec![at(Inst::Bytes { slot: 0 }, 0, 10)]);
    assert!(c.diagnostics.is_empty());
}

#[test]
fn needed_string_goes_to_the_pool_and_is_pushed() {
    let source = source("\"hi\"");
    let locals = vec![];
    let mut c = compiler(&source, &locals);
    let literal = LitStr { span: Span::new(0, 4) };
    assert_eq!(literal.resolve(&source), Ok(b"hi".to_vec()));
    assert_eq!(literal.assemble(&mut c, Needs::Value), Ok(Asm::top(Span::new(0, 4))));
    assert_eq!(
        c.unit.statics(),
        &vec![StaticEntry { data: StaticData::String(b"hi".to_vec()), span: Span::new(0, 4) }]
    );
    assert_eq!(c.assembly.instructions, vec![at(Inst::String { slot: 0 }, 0, 4)]);
}

#[test]
fn equal_literals_get_slots_of_their_own() {
    let text = "1 1";
    let source = source(text);
    let locals = vec![];
    let mut c = compiler(&source, &locals);
    assert!(LitNumber { span: Span::new(0, 1) }.assemble(&mut c, Needs::Value).is_ok());
    assert!(LitNumber { span: Span::new(2, 3) }.assemble(&mut c, Needs::Value).is_ok());
    assert_eq!(c.unit.statics().len(), 2);
    assert_eq!(
        c.assembly.instructions,
        vec![at(Inst::Number { slot: 0 }, 0, 1), at(Inst::Number { slot: 1 }, 2, 3)]
    );
}

#[test]
fn literal_that_does_not_resolve_is_recorded_and_replaced() {
    let source = source("12x \"a");
    let locals = vec![];
    let mut c = compiler(&source, &locals);
    let literal = LitNumber { span: Span::new(0, 3) };
    assert_eq!(
        literal.resolve(&source),
        Err(CompileError { span: Span::new(0, 3), kind: DiagnosticKind::BadNumberLiteral })
    );
    assert_eq!(literal.assemble(&mut c, Needs::Value), Ok(Asm::top(Span::new(0, 3))));
    let string = LitStr { span: Span::new(4, 6) };
    assert_eq!(string.assemble(&mut c, Needs::Value), Ok(Asm::top(Span::new(4, 6))));
    let bytes = LitByteStr { span: Span::new(4, 6) };
    assert_eq!(bytes.assemble(&mut c, Needs::Value), Ok(Asm::top(Span::new(4, 6))));
    assert!(c.unit.statics().is_empty());
    assert_eq!(
        c.assembly.instructions,
        vec![at(Inst::Unit, 0, 3), at(Inst::Unit, 4, 6), at(Inst::Unit, 4, 6)]
    );
    assert_eq!(c.diagnostics.len(), 3);
    assert_eq!(
        c.diagnostics.get(0),
        Some(Diagnostic {
            source_id: SourceId::new(7),
            span: Span::new(0, 3),
            severity: Severity::Error,
            kind: DiagnosticKind::BadNumberLiteral,
            detail: Detail::Empty,
        })
    );
    assert_eq!(c.diagnostics.get(1).unwrap().kind, DiagnosticKind::BadStringLiteral);
    assert_eq!(c.diagnostics.get(2).unwrap().kind, DiagnosticKind::BadByteStringLiteral);
    assert!(c.diagnostics.has_error());
}

#[test]
fn span_outside_the_source_ends_the_assembly() {
    let source = source("12");
    let locals = vec![];
    let mut c = compiler(&source, &locals);
    let bad = CompileError { span: Span::new(1, 3), kind: DiagnosticKind::BadSpan };
    assert_eq!(LitNumber { span: Span::new(1, 3) }.assemble(&mut c, Needs::Value), Err(bad));
    assert_eq!(LitStr { span: Span::new(1, 3) }.assemble(&mut c, Needs::Value), Err(bad));
    assert_eq!(LitByteStr { span: Span::new(1, 3) }.assemble(&mut c, Needs::Value), Err(bad));
    for needs in [Needs::Value, Needs::Nothing] {
        assert_eq!(Path { span: Span::new(1, 3) }.assemble(&mut c, needs), Err(bad));
        let block = Block { exprs: vec![], trailing_semi: false, span: Span::new(1, 3) };
        assert_eq!(block.assemble(&mut c, needs), Err(bad));
        let call = ExprCall { name: Span::new(0, 1), args: vec![], span: Span::new(1, 3) };
        assert_eq!(call.assemble(&mut c, needs), Err(bad));
    }
    // A span that ends before it starts lies nowhere.
    let backwards = Span::new(2, 1);
    assert_eq!(
        LitNumber { span: backwards }.assemble(&mut c, Needs::Value),
        Err(CompileError { span: backwards, kind: DiagnosticKind::BadSpan })
    );
    assert_eq!(LitNumber { span: backwards }.resolve(&source).unwrap_err().kind, DiagnosticKind::BadSpan);
    assert_eq!(LitStr { span: backwards }.resolve(&source).unwrap_err().kind, DiagnosticKind::BadSpan);
    assert_eq!(LitByteStr { span: backwards }.resolve(&source).unwrap_err().kind, DiagnosticKind::BadSpan);
    // The name of a call is looked at after the call itself.
    let call = ExprCall { name: Span::new(2, 9), args: vec![], span: Span::new(0, 2) };
    assert_eq!(
        call.assemble(&mut c, Needs::Value),
        Err(CompileError { span: Span::new(2, 9), kind: DiagnosticKind::BadSpan })
    );
    assert!(c.diagnostics.is_empty());
    assert_eq!(c.assembly.len(), 0);
    assert!(c.unit.functions().is_empty());
}

#[test]
fn local_variable_is_copied_from_its_place_in_the_frame() {
    let text = "fn f(a, bb, a) { bb a c }";
    let source = source(text);
    let locals = vec![Span::new(5, 6), Span::new(8, 10), Span::new(12, 13)];
    let mut c = compiler(&source, &locals);
    assert_eq!(c.find_local(b"bb"), Some(1));
    assert_eq!(c.find_local(b"a"), Some(0));
    assert_eq!(c.find_local(b"b"), None);
    assert_eq!(
        Path { span: Span::new(17, 19) }.assemble(&mut c, Needs::Value),
        Ok(Asm::top(Span::new(17, 19)))
    );
    assert_eq!(
        Path { span: Span::new(20, 21) }.assemble(&mut c, Needs::Value),
        Ok(Asm::top(Span::new(20, 21)))
    );
    assert_eq!(
        c.assembly.instructions,
        vec![at(Inst::Copy { offset: 1 }, 17, 19), at(Inst::Copy { offset: 0 }, 20, 21)]
    );
    assert!(c.diagnostics.is_empty());
    // Not needed: elided, with a warning.
    assert_eq!(
        Path { span: Span::new(17, 19) }.assemble(&mut c, Needs::Nothing),
        Ok(Asm::empty(Span::new(17, 19)))
    );
    assert_eq!(c.assembly.len(), 2);
    assert_eq!(c.diagnostics.len(), 1);
    assert_eq!(c.diagnostics.get(0).unwrap().kind, DiagnosticKind::NotUsed);
    // Unknown: the assembly ends, whatever is needed.
    let missing = CompileError { span: Span::new(22, 23), kind: DiagnosticKind::MissingLocal };
    assert_eq!(Path { span: Span::new(22, 23) }.assemble(&mut c, Needs::Value), Err(missing));
    assert_eq!(Path { span: Span::new(22, 23) }.assemble(&mut c, Needs::Nothing), Err(missing));
    assert_eq!(c.assembly.len(), 2);
    assert_eq!(c.diagnostics.len(), 1);
}

#[test]
fn parameter_with_a_span_outside_the_source_is_never_found() {
    let source = source("ab");
    let locals = vec![Span::new(1, 9), Span::new(0, 1)];
    let c = compiler(&source, &locals);
    assert_eq!(c.find_local(b"a"), Some(1));
    assert_eq!(c.find_local(b"b"), None);
}

#[test]
fn call_pushes_its_arguments_then_calls() {
    let text = "add(1, mul(2, 3))";
    let source = source(text);
    let locals = vec![];
    let mut c = compiler(&source, &locals);
    let inner = ExprCall {
        name: find(text, "mul"),
        args: vec![number(text, "2"), number(text, "3")],
        span: find(text, "mul(2, 3)"),
    };
    let call = ExprCall {
        name: find(text, "add"),
        args: vec![number(text, "1"), Expr::Call(inner)],
        span: Span::new(0, text.len()),
    };
    assert_eq!(call.assemble(&mut c, Needs::Value), Ok(Asm::top(Span::new(0, 17))));
    assert_eq!(
        c.assembly.instructions,
        vec![
            at(Inst::Number { slot: 0 }, 4, 5),
            at(Inst::Number { slot: 1 }, 11, 12),
            at(Inst::Number { slot: 2 }, 14, 15),
            at(Inst::Call { function: 1, args: 2 }, 7, 16),
            at(Inst::Call { function: 0, args: 2 }, 0, 17),
        ]
    );
    assert_eq!(net_effect(&c.assembly.instructions), 1);
    let site = |start, end| Site { source_id: SourceId::new(7), span: Span::new(start, end) };
    assert_eq!(
        c.unit.functions(),
        &vec![
            FunctionEntry {
                name: b"add".to_vec(),
                state: FunctionState::Referenced { first: site(0, 17) }
            },
            FunctionEntry {
                name: b"mul".to_vec(),
                state: FunctionState::Referenced { first: site(7, 16) }
            },
        ]
    );
    assert!(c.diagnostics.is_empty());
}

#[test]
fn call_that_is_not_needed_is_made_and_its_result_popped() {
    let text = "tick()";
    let source = source(text);
    let locals = vec![];
    let mut c = compiler(&source, &locals);
    let call = ExprCall { name: Span::new(0, 4), args: vec![], span: Span::new(0, 6) };
    assert_eq!(call.assemble(&mut c, Needs::Nothing), Ok(Asm::empty(Span::new(0, 6))));
    assert_eq!(
        c.assembly.instructions,
        vec![at(Inst::Call { function: 0, args: 0 }, 0, 6), at(Inst::Pop, 0, 6)]
    );
    assert_eq!(net_effect(&c.assembly.instructions), 0);
    assert!(c.diagnostics.is_empty());
}

#[test]
fn error_in_an_argument_ends_the_call() {
    let text = "f(1, x, 2)";
    let source = source(text);
    let locals = vec![];
    let mut c = compiler(&source, &locals);
    let call = ExprCall {
        name: Span::new(0, 1),
        args: vec![number(text, "1"), Expr::Path(Path { span: find(text, "x") }), number(text, "2")],
        span: Span::new(0, 10),
    };
    assert_eq!(
        call.assemble(&mut c, Needs::Value),
        Err(CompileError { span: Span::new(5, 6), kind: DiagnosticKind::MissingLocal })
    );
    // What was done before the error stays; nothing is done after it.
    assert_eq!(c.assembly.instructions, vec![at(Inst::Number { slot: 0 }, 2, 3)]);
    assert_eq!(c.unit.statics().len(), 1);
    assert_eq!(c.unit.functions().len(), 1);
}

#[test]
fn block_gives_the_value_of_its_last_expression() {
    let text = "{ 1; f(); 2 }";
    let source = source(text);
    let locals = vec![];
    let exprs = || {
        vec![
            number(text, "1"),
            Expr::Call(ExprCall { name: find(text, "f"), args: vec![], span: find(text, "f()") }),
            number(text, "2"),
        ]
    };
    let whole = Span::new(0, text.len());

    let mut c = compiler(&source, &locals);
    let block = Block { exprs: exprs(), trailing_semi: false, span: whole };
    assert_eq!(block.assemble(&mut c, Needs::Value), Ok(Asm::top(whole)));
    assert_eq!(
        c.assembly.instructions,
        vec![
            at(Inst::Call { function: 0, args: 0 }, 5, 8),
            at(Inst::Pop, 5, 8),
            at(Inst::Number { slot: 0 }, 10, 11),
        ]
    );
    assert_eq!(net_effect(&c.assembly.instructions), 1);
    assert_eq!(c.diagnostics.len(), 1);
    assert_eq!(c.diagnostics.get(0).unwrap().kind, DiagnosticKind::NotUsed);
    assert_eq!(c.diagnostics.get(0).unwrap().span, Span::new(2, 3));

    // With a semicolon after the last expression the value is the unit value.
    let mut c = compiler(&source, &locals);
    let block = Block { exprs: exprs(), trailing_semi: true, span: whole };
    assert_eq!(block.assemble(&mut c, Needs::Value), Ok(Asm::top(whole)));
    assert_eq!(
        c.assembly.instructions,
        vec![
            at(Inst::Call { function: 0, args: 0 }, 5, 8),
            at(Inst::Pop, 5, 8),
            at(Inst::Unit, 0, 13),
        ]
    );
    assert_eq!(net_effect(&c.assembly.instructions), 1);
    assert_eq!(c.diagnostics.len(), 2);

    // Where nothing is needed, only the call is left.
    let mut c = compiler(&source, &locals);
    let block = Block { exprs: exprs(), trailing_semi: false, span: whole };
    assert_eq!(block.assemble(&mut c, Needs::Nothing), Ok(Asm::empty(whole)));
    assert_eq!(
        c.assembly.instructions,
        vec![at(Inst::Call { function: 0, args: 0 }, 5, 8), at(Inst::Pop, 5, 8)]
    );
    assert_eq!(net_effect(&c.assembly.instructions), 0);
    assert_eq!(c.diagnostics.len(), 2);
    assert!(c.unit.statics().is_empty());
}

#[test]
fn empty_block_is_the_unit_value() {
    let source = source("{}");
    let locals = vec![];
    let mut c = compiler(&source, &locals);
    let block = Block { exprs: vec![], trailing_semi: false, span: Span::new(0, 2) };
    assert_eq!(block.assemble(&mut c, Needs::Nothing), Ok(Asm::empty(Span::new(0, 2))));
    assert_eq!(c.assembly.len(), 0);
    assert_eq!(block.assemble(&mut c, Needs::Value), Ok(Asm::top(Span::new(0, 2))));
    assert_eq!(c.assembly.instructions, vec![at(Inst::Unit, 0, 2)]);
    assert!(c.diagnostics.is_empty());
}

#[test]
fn error_in_a_block_ends_the_block() {
    let text = "{ 1; x; 2 }";
    let source = source(text);
    let locals = vec![];
    let mut c = compiler(&source, &locals);
    let block = Block {
        exprs: vec![number(text, "1"), Expr::Path(Path { span: find(text, "x") }), number(text, "2")],
        trailing_semi: false,
        span: Span::new(0, text.len()),
    };
    let missing = CompileError { span: Span::new(5, 6), kind: DiagnosticKind::MissingLocal };
    assert_eq!(Expr::Block(block).assemble(&mut c, Needs::Value), Err(missing));
    assert_eq!(c.assembly.len(), 0);
    assert_eq!(c.diagnostics.len(), 1);
    assert!(!c.diagnostics.has_error());
}

#[test]
fn expressions_report_their_span() {
    let text = "{ f(1) }";
    let call = ExprCall { name: find(text, "f"), args: vec![number(text, "1")], span: find(text, "f(1)") };
    assert_eq!(number(text, "1").span(), Span::new(4, 5));
    assert_eq!(Expr::LitStr(LitStr { span: Span::new(1, 2) }).span(), Span::new(1, 2));
    assert_eq!(Expr::LitByteStr(LitByteStr { span: Span::new(1, 3) }).span(), Span::new(1, 3));
    assert_eq!(Expr::Path(Path { span: Span::new(2, 3) }).span(), Span::new(2, 3));
    assert_eq!(Expr::Call(call).span(), Span::new(2, 6));
    let block = Block { exprs: vec![], trailing_semi: true, span: Span::new(0, 8) };
    assert_eq!(Expr::Block(block).span(), Span::new(0, 8));
}

#[test]
fn every_kind_leaves_one_value_or_none() {
    let text = "{ 7; \"s\"; b\"b\"; p; f(p, 1); { g() } }";
    let source = source(text);
    let locals = vec![find(text, "p")];
    let build = || -> Vec<Expr> {
        vec![
            number(text, "7"),
            Expr::LitStr(LitStr { span: find(text, "\"s\"") }),
            Expr::LitByteStr(LitByteStr { span: find(text, "b\"b\"") }),
            Expr::Path(Path { span: find(text, "p") }),
            Expr::Call(ExprCall {
                name: find(text, "f"),
                args: vec![Expr::Path(Path { span: find(text, "p") }), number(text, "1")],
                span: find(text, "f(p, 1)"),
            }),
            Expr::Block(Block {
                exprs: vec![Expr::Call(ExprCall {
                    name: find(text, "g"),
                    args: vec![],
                    span: find(text, "g()"),
                })],
                trailing_semi: false,
                span: find(text, "{ g() }"),
            }),
        ]
    };
    for expr in build() {
        for (needs, pushes) in [(Needs::Value, 1), (Needs::Nothing, 0)] {
            let mut c = compiler(&source, &locals);
            let result = expr.assemble(&mut c, needs).unwrap();
            assert_eq!(result, Asm { span: expr.span(), pushed: pushes == 1 });
            assert_eq!(net_effect(&c.assembly.instructions), pushes);
        }
    }
    // Literals and variables have no side effect: not needed, they leave
    // nothing but the warning.
    for expr in build().into_iter().take(4) {
        let mut c = compiler(&source, &locals);
        assert_eq!(expr.assemble(&mut c, Needs::Nothing), Ok(Asm::empty(expr.span())));
        assert_eq!(c.assembly.len(), 0);
        assert!(c.unit.statics().is_empty());
        assert_eq!(c.diagnostics.len(), 1);
        assert_eq!(
            c.diagnostics.get(0),
            Some(Diagnostic {
                source_id: SourceId::new(7),
                span: expr.span(),
                severity: Severity::Warning,
                kind: DiagnosticKind::NotUsed,
                detail: Detail::Empty,
            })
        );
    }
}

#[test]
fn compiler_reports_its_source_and_context() {
    let source = source("");
    let locals = vec![];
    let mut c = compiler(&source, &locals);
    assert_eq!(c.source_id(), SourceId::new(7));
    assert_eq!(c.context(), None);
    c.context = Some(Span::new(1, 2));
    assert_eq!(c.context(), Some(Span::new(1, 2)));
}

#[test]
fn literal_that_is_not_needed_is_never_looked_at() {
    // Whatever the literal holds and wherever its span lies, eliding it
    // succeeds, emits nothing and records the warning, and nothing else.
    let source = source("12x");
    let locals = vec![];
    let spans = [Span::new(0, 3), Span::new(1, 9), Span::new(7, 9), Span::new(3, 1)];
    for span in spans {
        let literals = [
            Expr::LitNumber(LitNumber { span }),
            Expr::LitStr(LitStr { span }),
            Expr::LitByteStr(LitByteStr { span }),
        ];
        for literal in literals {
            let mut c = compiler(&source, &locals);
            c.context = Some(Span::new(0, 2));
            c.diagnostics.not_used(SourceId::new(1), Span::new(0, 1), None);
            let held = c.diagnostics.get(0);
            assert_eq!(literal.assemble(&mut c, Needs::Nothing), Ok(Asm { span, pushed: false }));
            assert_eq!(c.assembly.len(), 0);
            assert!(c.unit.statics().is_empty());
            assert!(c.unit.functions().is_empty());
            assert_eq!(c.diagnostics.len(), 2);
            assert_eq!(c.diagnostics.get(0), held);
            assert_eq!(
                c.diagnostics.get(1),
                Some(Diagnostic {
                    source_id: SourceId::new(7),
                    span,
                    severity: Severity::Warning,
                    kind: DiagnosticKind::NotUsed,
                    detail: Detail::Context(Span::new(0, 2)),
                })
            );
            assert!(!c.diagnostics.has_error());
        }
    }
    // Each kind on its own, as a node.
    let mut c = compiler(&source, &locals);
    let span = Span::new(2, 40);
    assert_eq!(LitNumber { span }.assemble(&mut c, Needs::Nothing), Ok(Asm::empty(span)));
    assert_eq!(LitStr { span }.assemble(&mut c, Needs::Nothing), Ok(Asm::empty(span)));
    assert_eq!(LitByteStr { span }.assemble(&mut c, Needs::Nothing), Ok(Asm::empty(span)));
    assert_eq!(c.diagnostics.len(), 3);
    assert_eq!(c.assembly.len(), 0);
}
