use rune::bytes::{bytes_eq, find_name};
use rune::context::{default_name_list, Context};
use rune::diagnostics::{
    BuildError, CompileError, Detail, Diagnostic, DiagnosticKind, Diagnostics, Severity,
};
use rune::inst::{Assembly, Inst, Located};
use rune::source::{Source, Sources};
use rune::span::{Site, SourceId, Span};
use rune::unit::{
    entry_name_bytes, FunctionDef, FunctionEntry, FunctionState, StaticData, StaticEntry,
    UnitBuilder,
};

fn site(source: usize, start: usize, end: usize) -> Site {
    Site::new(SourceId::new(source), Span::new(start, end))
}

fn assembly(source: usize, code: &[Inst]) -> Assembly {
    let mut assembly = Assembly::new(SourceId::new(source));
    for (i, inst) in code.iter().enumerate() {
        assembly.push(*inst, Span::new(i, i + 1));
    }
    assembly
}

fn located(inst: Inst, source: usize, start: usize) -> Located {
    Located { inst, source_id: SourceId::new(source), span: Span::new(start, start + 1) }
}

#[test]
fn spans_fit_a_text_or_do_not() {
    assert_eq!(Span::new(3, 9), Span { start: 3, end: 9 });
    assert!(Span::new(0, 0).fits(0));
    assert!(Span::new(0, 5).fits(5));
    assert!(Span::new(5, 5).fits(5));
    assert!(!Span::new(0, 6).fits(5));
    assert!(!Span::new(3, 2).fits(5));
    assert_eq!(SourceId::new(4).index, 4);
    assert_eq!(SourceId::empty().index, usize::MAX);
}

#[test]
fn sources_keep_their_identifiers() {
    let mut sources = Sources::new();
    assert_eq!(sources.len(), 0);
    assert!(sources.get(SourceId::new(0)).is_none());
    let a = sources.insert(Source::new(b"a".to_vec(), b"one".to_vec(), vec![]));
    let b = sources.insert(Source::new(b"b".to_vec(), b"two!".to_vec(), vec![]));
    assert_eq!((a, b), (SourceId::new(0), SourceId::new(1)));
    assert_eq!(sources.len(), 2);
    assert_eq!(sources.get(a).unwrap().name, b"a".to_vec());
    assert_eq!(sources.get(b).unwrap().text, b"two!".to_vec());
    assert!(sources.get(SourceId::new(2)).is_none());
    assert!(sources.get(SourceId::empty()).is_none());
    let source = sources.get(b).unwrap();
    assert!(source.contains(Span::new(0, 4)));
    assert!(!source.contains(Span::new(0, 5)));
    assert_eq!(source.get(Span::new(1, 3)), Some(&b"wo"[..]));
    assert_eq!(source.get(Span::new(4, 4)), Some(&b""[..]));
    assert_eq!(source.get(Span::new(3, 5)), None);
    assert_eq!(source.get(Span::new(3, 2)), None);
}

#[test]
fn names_are_found_at_their_first_place() {
    let names = vec![b"a".to_vec(), b"bc".to_vec(), b"a".to_vec(), vec![]];
    assert_eq!(find_name(&names, b"a"), Some(0));
    assert_eq!(find_name(&names, b"bc"), Some(1));
    assert_eq!(find_name(&names, b""), Some(3));
    assert_eq!(find_name(&names, b"b"), None);
    assert_eq!(find_name(&vec![], b"a"), None);
    assert!(bytes_eq(b"", b""));
    assert!(bytes_eq(b"abc", b"abc"));
    assert!(!bytes_eq(b"abc", b"abd"));
    assert!(!bytes_eq(b"abc", b"ab"));
    assert!(!bytes_eq(b"ab", b"abc"));
}

#[test]
fn context_knows_what_the_host_provides() {
    let mut context = Context::new();
    assert!(!context.has_default_modules());
    assert!(!context.has_function(b"println"));
    context.install(b"now");
    assert!(context.has_function(b"now"));
    assert!(!context.has_function(b"no"));
    assert!(!context.has_default_modules());

    let context = Context::with_default_modules();
    assert!(context.has_default_modules());
    for name in [&b"dbg"[..], b"drop", b"panic", b"print", b"println"] {
        assert!(context.has_function(name));
    }
    assert!(!context.has_function(b"main"));
    assert_eq!(
        default_name_list(),
        vec![
            b"dbg".to_vec(),
            b"drop".to_vec(),
            b"panic".to_vec(),
            b"print".to_vec(),
            b"println".to_vec()
        ]
    );
    assert_eq!(entry_name_bytes(), b"main".to_vec());
}

#[test]
fn diagnostics_only_grow() {
    let mut diagnostics = Diagnostics::new();
    assert!(diagnostics.is_empty());
    assert!(!diagnostics.has_error());
    assert!(!diagnostics.has_warning());
    assert_eq!(diagnostics.get(0), None);

    diagnostics.not_used(SourceId::new(1), Span::new(2, 3), Some(Span::new(0, 9)));
    let first = diagnostics.get(0).unwrap();
    assert_eq!(first.severity, Severity::Warning);
    assert_eq!(first.detail, Detail::Context(Span::new(0, 9)));
    assert!(diagnostics.has_warning());
    assert!(!diagnostics.has_error());

    diagnostics.error(
        SourceId::new(2),
        CompileError::new(Span::new(4, 5), DiagnosticKind::MissingLocal),
    );
    assert_eq!(diagnostics.len(), 2);
    assert_eq!(diagnostics.get(0), Some(first));
    assert_eq!(
        diagnostics.get(1),
        Some(Diagnostic {
            source_id: SourceId::new(2),
            span: Span::new(4, 5),
            severity: Severity::Error,
            kind: DiagnosticKind::MissingLocal,
            detail: Detail::Empty,
        })
    );
    assert!(diagnostics.has_error());

    let third = Diagnostic {
        source_id: SourceId::empty(),
        span: Span::new(0, 0),
        severity: Severity::Warning,
        kind: DiagnosticKind::UnusedFunction,
        detail: Detail::Function(3),
    };
    diagnostics.push(third);
    assert_eq!(diagnostics.len(), 3);
    assert_eq!(diagnostics.get(0), Some(first));
    assert_eq!(diagnostics.get(2), Some(third));
    assert_eq!(diagnostics.get(3), None);
    assert!(!diagnostics.is_empty());
}

#[test]
fn build_errors_are_recorded_as_fatal() {
    let cases = [
        (BuildError::MissingEntry, Span::new(0, 0), DiagnosticKind::MissingEntry, Detail::Empty),
        (
            BuildError::MissingFunction { function: 4, site: site(1, 2, 3) },
            Span::new(2, 3),
            DiagnosticKind::MissingFunction,
            Detail::Function(4),
        ),
        (
            BuildError::MissingSlot { instruction: 5, site: site(1, 6, 7) },
            Span::new(6, 7),
            DiagnosticKind::MissingSlot,
            Detail::Instruction(5),
        ),
        (
            BuildError::BadCall { instruction: 6, site: site(1, 8, 9) },
            Span::new(8, 9),
            DiagnosticKind::MissingFunction,
            Detail::Instruction(6),
        ),
    ];
    for (error, span, kind, detail) in cases {
        let mut diagnostics = Diagnostics::new();
        diagnostics.build_error(SourceId::empty(), error);
        assert_eq!(
            diagnostics.get(0),
            Some(Diagnostic {
                source_id: SourceId::empty(),
                span,
                severity: Severity::Error,
                kind,
                detail
            })
        );
        assert!(diagnostics.has_error());
    }
}

#[test]
fn static_slots_are_given_out_in_order() {
    let mut unit = UnitBuilder::default();
    assert!(unit.statics().is_empty());
    assert_eq!(unit.new_static_bytes(Span::new(0, 1), b"abc"), 0);
    assert_eq!(unit.new_static_string(Span::new(1, 2), b"abc"), 1);
    assert_eq!(unit.new_static_number(Span::new(2, 3), -7), 2);
    // Identical data makes a new slot; the earlier slots stay as they are.
    assert_eq!(unit.new_static_bytes(Span::new(3, 4), b"abc"), 3);
    assert_eq!(
        unit.statics(),
        &vec![
            StaticEntry { data: StaticData::Bytes(b"abc".to_vec()), span: Span::new(0, 1) },
            StaticEntry { data: StaticData::String(b"abc".to_vec()), span: Span::new(1, 2) },
            StaticEntry { data: StaticData::Number(-7), span: Span::new(2, 3) },
            StaticEntry { data: StaticData::Bytes(b"abc".to_vec()), span: Span::new(3, 4) },
        ]
    );
    assert!(unit.instructions().is_empty());
    assert!(unit.functions().is_empty());
}

#[test]
fn functions_keep_the_position_of_their_first_mention() {
    let mut unit = UnitBuilder::default();
    assert_eq!(unit.find_function(b"f"), None);
    assert_eq!(unit.reference(b"f", site(0, 1, 2)), 0);
    assert_eq!(unit.reference(b"g", site(0, 3, 4)), 1);
    assert_eq!(unit.reference(b"f", site(0, 5, 6)), 0);
    assert_eq!(unit.find_function(b"g"), Some(1));

    // Defining what was called keeps the position and knows of the call.
    let code = [Inst::Unit, Inst::Return];
    assert_eq!(unit.new_function(b"g", 2, assembly(0, &code), Span::new(10, 20)), Ok(1));
    // Defining what was never called takes the next position.
    assert_eq!(unit.new_function(b"h", 0, assembly(1, &code), Span::new(30, 40)), Ok(2));
    assert_eq!(
        unit.functions(),
        &vec![
            FunctionEntry {
                name: b"f".to_vec(),
                state: FunctionState::Referenced { first: site(0, 1, 2) }
            },
            FunctionEntry {
                name: b"g".to_vec(),
                state: FunctionState::Defined {
                    def: FunctionDef { args: 2, offset: 0, frame: 2, site: site(0, 10, 20) },
                    called: true
                }
            },
            FunctionEntry {
                name: b"h".to_vec(),
                state: FunctionState::Defined {
                    def: FunctionDef { args: 0, offset: 2, frame: 0, site: site(1, 30, 40) },
                    called: false
                }
            },
        ]
    );
    assert_eq!(
        unit.instructions(),
        &vec![
            located(Inst::Unit, 0, 0),
            located(Inst::Return, 0, 1),
            located(Inst::Unit, 1, 0),
            located(Inst::Return, 1, 1),
        ]
    );
    // A call of a defined function marks it.
    assert_eq!(unit.reference(b"h", site(0, 7, 8)), 2);
    assert_eq!(
        unit.functions()[2].state,
        FunctionState::Defined {
            def: FunctionDef { args: 0, offset: 2, frame: 0, site: site(1, 30, 40) },
            called: true
        }
    );
}

#[test]
fn second_definition_is_a_conflict_and_changes_nothing() {
    let mut unit = UnitBuilder::default();
    assert_eq!(unit.new_function(b"f", 0, assembly(0, &[Inst::Return]), Span::new(0, 1)), Ok(0));
    assert_eq!(
        unit.new_function(b"f", 1, assembly(0, &[Inst::Unit, Inst::Return]), Span::new(5, 6)),
        Err(CompileError { span: Span::new(5, 6), kind: DiagnosticKind::FunctionConflict })
    );
    assert_eq!(unit.functions().len(), 1);
    assert_eq!(unit.instructions().len(), 1);
    assert_eq!(
        unit.functions()[0].state,
        FunctionState::Defined {
            def: FunctionDef { args: 0, offset: 0, frame: 0, site: site(0, 0, 1) },
            called: false
        }
    );
}

fn linked(unit: &UnitBuilder, context: &Context) -> Vec<Diagnostic> {
    let mut diagnostics = Diagnostics::new();
    unit.link(context, &mut diagnostics);
    (0..diagnostics.len()).map(|i| diagnostics.get(i).unwrap()).collect()
}

#[test]
fn link_reports_what_does_not_resolve_and_what_is_unused() {
    let mut unit = UnitBuilder::with_default_prelude();
    unit.reference(b"println", site(0, 1, 2));
    unit.reference(b"nowhere", site(0, 3, 4));
    unit.new_function(b"helper", 0, assembly(0, &[Inst::Return]), Span::new(5, 6)).unwrap();
    unit.new_function(b"main", 0, assembly(0, &[Inst::Return]), Span::new(7, 8)).unwrap();
    unit.reference(b"later", site(1, 9, 10));
    unit.new_function(b"later", 0, assembly(1, &[Inst::Return]), Span::new(11, 12)).unwrap();

    let missing = |function, site: Site| Diagnostic {
        source_id: site.source_id,
        span: site.span,
        severity: Severity::Error,
        kind: DiagnosticKind::MissingFunction,
        detail: Detail::Function(function),
    };
    let unused = Diagnostic {
        source_id: SourceId::new(0),
        span: Span::new(5, 6),
        severity: Severity::Warning,
        kind: DiagnosticKind::UnusedFunction,
        detail: Detail::Function(2),
    };
    assert_eq!(
        linked(&unit, &Context::with_default_modules()),
        vec![missing(1, site(0, 3, 4)), unused]
    );
    // The prelude names it, the host does not provide it.
    assert_eq!(
        linked(&unit, &Context::new()),
        vec![missing(0, site(0, 1, 2)), missing(1, site(0, 3, 4)), unused]
    );
    // The host provides it, the prelude does not name it.
    let mut context = Context::with_default_modules();
    context.install(b"nowhere");
    assert_eq!(linked(&unit, &context), vec![missing(1, site(0, 3, 4)), unused]);
}

#[test]
fn link_appends_to_what_the_sink_holds() {
    let mut unit = UnitBuilder::default();
    unit.reference(b"f", site(0, 1, 2));
    let mut diagnostics = Diagnostics::new();
    diagnostics.not_used(SourceId::new(0), Span::new(0, 1), None);
    let first = diagnostics.get(0);
    unit.link(&Context::new(), &mut diagnostics);
    assert_eq!(diagnostics.len(), 2);
    assert_eq!(diagnostics.get(0), first);
    assert_eq!(diagnostics.get(1).unwrap().kind, DiagnosticKind::MissingFunction);
    // An empty unit has nothing to report.
    let mut diagnostics = Diagnostics::new();
    UnitBuilder::default().link(&Context::new(), &mut diagnostics);
    assert!(diagnostics.is_empty());
}

#[test]
fn build_needs_the_entry_function() {
    assert_eq!(UnitBuilder::default().build().err(), Some(BuildError::MissingEntry));
    let mut unit = UnitBuilder::default();
    unit.new_function(b"helper", 0, assembly(0, &[Inst::Return]), Span::new(0, 1)).unwrap();
    assert_eq!(unit.build().err(), Some(BuildError::MissingEntry));
    // It is not enough that something calls it.
    let mut unit = UnitBuilder::with_default_prelude();
    unit.reference(b"main", site(0, 1, 2));
    assert_eq!(unit.build().err(), Some(BuildError::MissingEntry));
}

#[test]
fn build_needs_every_function_to_resolve() {
    let mut unit = UnitBuilder::with_default_prelude();
    unit.new_function(b"main", 0, assembly(0, &[Inst::Return]), Span::new(0, 1)).unwrap();
    unit.reference(b"print", site(0, 1, 2));
    unit.reference(b"first", site(0, 3, 4));
    unit.reference(b"second", site(0, 5, 6));
    assert_eq!(
        unit.build().err(),
        Some(BuildError::MissingFunction { function: 2, site: site(0, 3, 4) })
    );
    // Without a prelude nothing is left to the host.
    let mut unit = UnitBuilder::default();
    unit.new_function(b"main", 0, assembly(0, &[Inst::Return]), Span::new(0, 1)).unwrap();
    unit.reference(b"print", site(0, 1, 2));
    assert_eq!(
        unit.build().err(),
        Some(BuildError::MissingFunction { function: 1, site: site(0, 1, 2) })
    );
}

#[test]
fn build_needs_every_instruction_to_resolve() {
    let build = |code: &[Inst]| {
        let mut unit = UnitBuilder::default();
        unit.new_static_number(Span::new(0, 1), 1);
        unit.new_static_string(Span::new(0, 1), b"s");
        unit.new_static_bytes(Span::new(0, 1), b"b");
        unit.new_function(b"main", 0, assembly(2, code), Span::new(0, 9)).unwrap();
        unit.build()
    };
    let slot = |instruction| {
        Some(BuildError::MissingSlot { instruction, site: site(2, instruction, instruction + 1) })
    };
    assert_eq!(build(&[Inst::Number { slot: 3 }]).err(), slot(0));
    assert_eq!(build(&[Inst::Unit, Inst::Bytes { slot: 3 }]).err(), slot(1));
    assert_eq!(build(&[Inst::String { slot: usize::MAX }]).err(), slot(0));
    // The slot must hold a constant of the kind that is pushed.
    assert_eq!(build(&[Inst::Number { slot: 1 }]).err(), slot(0));
    assert_eq!(build(&[Inst::String { slot: 2 }]).err(), slot(0));
    assert_eq!(build(&[Inst::Bytes { slot: 0 }]).err(), slot(0));
    assert_eq!(
        build(&[Inst::Pop, Inst::Pop, Inst::Call { function: 1, args: 0 }, Inst::Bytes { slot: 9 }])
            .err(),
        Some(BuildError::BadCall { instruction: 2, site: site(2, 2, 3) })
    );
    let all = [
        Inst::Number { slot: 0 },
        Inst::String { slot: 1 },
        Inst::Bytes { slot: 2 },
        Inst::Copy { offset: 9 },
        Inst::Call { function: 0, args: 3 },
        Inst::Unit,
        Inst::Pop,
        Inst::Return,
    ];
    assert!(build(&all).is_ok());
}

#[test]
fn built_unit_holds_what_the_builder_held() {
    let mut unit = UnitBuilder::with_default_prelude();
    unit.reference(b"println", site(0, 1, 2));
    let slot = unit.new_static_bytes(Span::new(3, 4), b"hi");
    let code = [Inst::Bytes { slot }, Inst::Call { function: 0, args: 1 }, Inst::Return];
    assert_eq!(unit.new_function(b"main", 0, assembly(0, &code), Span::new(0, 9)), Ok(1));
    let unit = unit.build().unwrap();
    assert_eq!(unit.entry(), 1);
    assert_eq!(
        unit.instructions(),
        &vec![
            located(Inst::Bytes { slot: 0 }, 0, 0),
            located(Inst::Call { function: 0, args: 1 }, 0, 1),
            located(Inst::Return, 0, 2),
        ]
    );
    assert_eq!(
        unit.statics(),
        &vec![StaticEntry { data: StaticData::Bytes(b"hi".to_vec()), span: Span::new(3, 4) }]
    );
    assert_eq!(
        unit.functions(),
        &vec![
            FunctionEntry {
                name: b"println".to_vec(),
                state: FunctionState::Referenced { first: site(0, 1, 2) }
            },
            FunctionEntry {
                name: b"main".to_vec(),
                state: FunctionState::Defined {
                    def: FunctionDef { args: 0, offset: 0, frame: 0, site: site(0, 0, 9) },
                    called: false
                }
            },
        ]
    );
}

#[test]
fn unit_gives_the_constant_that_an_instruction_pushes() {
    let mut unit = UnitBuilder::default();
    let number = unit.new_static_number(Span::new(0, 1), 7);
    let bytes = unit.new_static_bytes(Span::new(1, 2), b"b");
    let code = [Inst::Bytes { slot: bytes }, Inst::Pop, Inst::Number { slot: number }, Inst::Return];
    unit.new_function(b"main", 0, assembly(0, &code), Span::new(0, 9)).unwrap();
    let unit = unit.build().unwrap();
    assert_eq!(
        unit.constant(0),
        Some(&StaticEntry { data: StaticData::Bytes(b"b".to_vec()), span: Span::new(1, 2) })
    );
    assert_eq!(unit.constant(1), None);
    assert_eq!(
        unit.constant(2),
        Some(&StaticEntry { data: StaticData::Number(7), span: Span::new(0, 1) })
    );
    assert_eq!(unit.constant(3), None);
    assert_eq!(unit.constant(4), None);
    assert_eq!(unit.constant(usize::MAX), None);
}
