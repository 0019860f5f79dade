use rune::assemble::Compiler;
use rune::ast::{Block, Expr, Item, ItemFn, LitByteStr, LitNumber};
use rune::context::Context;
use rune::diagnostics::{Detail, Diagnostic, DiagnosticKind, Diagnostics, Severity};
use rune::inst::{Asm, Assembly};
use rune::load::{load_sources, LoadSourcesError, Options};
use rune::needs::Needs;
use rune::number::parse_number;
use rune::source::{Source, Sources};
use rune::span::{SourceId, Span};
use rune::text::{parse_byte_string, parse_string};
use rune::unit::{StaticData, Unit, UnitBuilder};

/// The source `text`, which must read `fn main() { <literal> }`, with the
/// tree that a parser gives for it.
fn number_program(text: &str) -> Source {
    let len = text.len();
    let literal = Expr::LitNumber(LitNumber { span: Span::new(12, len - 2) });
    let body = Block { exprs: vec![literal], trailing_semi: false, span: Span::new(10, len) };
    let main = ItemFn { name: Span::new(3, 7), params: vec![], body, span: Span::new(0, len) };
    Source::new(b"main".to_vec(), text.as_bytes().to_vec(), vec![Item::Fn(main)])
}

fn load(source: Source) -> (Result<Unit, LoadSourcesError>, Diagnostics) {
    let context = Context::with_default_modules();
    let options = Options::default();
    let mut sources = Sources::new();
    sources.insert(source);
    let mut diagnostics = Diagnostics::new();
    let result = load_sources(&context, &options, &mut sources, &mut diagnostics);
    (result, diagnostics)
}

fn assert_parse(text: &str) {
    let (result, diagnostics) = load(number_program(text));
    assert!(result.is_ok(), "{} should compile", text);
    assert!(diagnostics.is_empty());
}

fn failure_of(text: &str) -> Diagnostic {
    let (result, diagnostics) = load(number_program(text));
    assert!(result.is_err(), "{} should not compile", text);
    assert!(diagnostics.has_error());
    assert_eq!(diagnostics.len(), 1);
    let event = diagnostics.get(0).unwrap();
    assert_eq!(event.severity, Severity::Error);
    assert_eq!(event.source_id, SourceId::new(0));
    event
}

#[test]
fn test_number_literals() {
    assert_parse(r#"fn main() { -9223372036854775808 }"#);
    assert_parse(
        r#"fn main() { -0b1000000000000000000000000000000000000000000000000000000000000000 }"#,
    );
    assert_parse(
        r#"fn main() { 0b0111111111111111111111111111111111111111111111111111111111111111 }"#,
    );

    let event = failure_of(r#"fn main() { -0aardvark }"#);
    assert_eq!(event.kind, DiagnosticKind::BadNumberLiteral);
    assert_eq!(event.span, Span::new(12, 22));

    let event = failure_of(r#"fn main() { -9223372036854775809 }"#);
    assert_eq!(event.kind, DiagnosticKind::BadNumberOutOfBounds);
    assert_eq!(event.span, Span::new(12, 32));

    assert_parse(r#"fn main() { 9223372036854775807 }"#);

    let event = failure_of(r#"fn main() { 9223372036854775808 }"#);
    assert_eq!(event.kind, DiagnosticKind::BadNumberOutOfBounds);
    assert_eq!(event.span, Span::new(12, 31));

    let event = failure_of(
        r#"fn main() { 0b1000000000000000000000000000000000000000000000000000000000000000 }"#,
    );
    assert_eq!(event.kind, DiagnosticKind::BadNumberOutOfBounds);
    assert_eq!(event.span, Span::new(12, 78));
}

#[test]
fn greatest_literal_compiles_without_diagnostics() {
    let (result, diagnostics) = load(number_program("fn main() { 9223372036854775807 }"));
    let unit = result.unwrap();
    assert!(diagnostics.is_empty());
    assert_eq!(unit.statics().len(), 1);
    assert_eq!(unit.statics()[0].data, StaticData::Number(i64::MAX));
    assert_eq!(unit.statics()[0].span, Span::new(12, 31));
}

#[test]
fn one_past_the_greatest_literal_is_out_of_bounds() {
    let (result, diagnostics) = load(number_program("fn main() { 9223372036854775808 }"));
    assert_eq!(result.err(), Some(LoadSourcesError));
    assert_eq!(diagnostics.len(), 1);
    assert_eq!(
        diagnostics.get(0),
        Some(Diagnostic {
            source_id: SourceId::new(0),
            span: Span::new(12, 31),
            severity: Severity::Error,
            kind: DiagnosticKind::BadNumberOutOfBounds,
            detail: Detail::Empty,
        })
    );
}

#[test]
fn least_literal_compiles() {
    let (result, diagnostics) = load(number_program("fn main() { -9223372036854775808 }"));
    let unit = result.unwrap();
    assert!(diagnostics.is_empty());
    assert_eq!(unit.statics()[0].data, StaticData::Number(i64::MIN));
}

#[test]
fn one_below_the_least_literal_is_out_of_bounds() {
    let (result, diagnostics) = load(number_program("fn main() { -9223372036854775809 }"));
    assert!(result.is_err());
    assert_eq!(diagnostics.len(), 1);
    let event = diagnostics.get(0).unwrap();
    assert_eq!(event.kind, DiagnosticKind::BadNumberOutOfBounds);
    assert_eq!(event.span, Span::new(12, 32));
}

#[test]
fn unneeded_byte_string_is_elided() {
    let text = b"b\"abc\"".to_vec();
    let source = Source::new(b"entry".to_vec(), text, vec![]);
    let locals = vec![];
    let mut c = Compiler {
        source: &source,
        locals: &locals,
        context: Some(Span::new(0, 6)),
        unit: UnitBuilder::default(),
        diagnostics: Diagnostics::new(),
        assembly: Assembly::new(SourceId::new(3)),
    };
    let literal = LitByteStr { span: Span::new(0, 6) };
    let result = literal.assemble(&mut c, Needs::Nothing);
    assert_eq!(result, Ok(Asm { span: Span::new(0, 6), pushed: false }));
    assert!(c.unit.statics().is_empty());
    assert_eq!(c.assembly.len(), 0);
    assert_eq!(c.diagnostics.len(), 1);
    assert_eq!(
        c.diagnostics.get(0),
        Some(Diagnostic {
            source_id: SourceId::new(3),
            span: Span::new(0, 6),
            severity: Severity::Warning,
            kind: DiagnosticKind::NotUsed,
            detail: Detail::Context(Span::new(0, 6)),
        })
    );
    assert!(!c.diagnostics.has_error());
    assert!(c.diagnostics.has_warning());
}

#[test]
fn unneeded_literal_is_not_resolved() {
    // A literal that is not needed is elided before it is looked at.
    let source = Source::new(b"entry".to_vec(), b"99999999999999999999".to_vec(), vec![]);
    let locals = vec![];
    let mut c = Compiler {
        source: &source,
        locals: &locals,
        context: None,
        unit: UnitBuilder::default(),
        diagnostics: Diagnostics::new(),
        assembly: Assembly::new(SourceId::new(0)),
    };
    let literal = LitNumber { span: Span::new(0, 20) };
    assert_eq!(literal.assemble(&mut c, Needs::Nothing), Ok(Asm::empty(Span::new(0, 20))));
    assert_eq!(c.diagnostics.len(), 1);
    assert_eq!(c.diagnostics.get(0).unwrap().kind, DiagnosticKind::NotUsed);
    assert_eq!(c.diagnostics.get(0).unwrap().detail, Detail::Empty);
}

#[test]
fn numbers_of_every_radix() {
    assert_eq!(parse_number(b"0"), Ok(0));
    assert_eq!(parse_number(b"-0"), Ok(0));
    assert_eq!(parse_number(b"007"), Ok(7));
    assert_eq!(parse_number(b"1234567890"), Ok(1234567890));
    assert_eq!(parse_number(b"-42"), Ok(-42));
    assert_eq!(parse_number(b"0b101"), Ok(5));
    assert_eq!(parse_number(b"-0b101"), Ok(-5));
    assert_eq!(parse_number(b"0o17"), Ok(15));
    assert_eq!(parse_number(b"0xff"), Ok(255));
    assert_eq!(parse_number(b"0xFF"), Ok(255));
    assert_eq!(parse_number(b"0xdeadBEEF"), Ok(0xdead_beef));
    assert_eq!(parse_number(b"0x7fffffffffffffff"), Ok(i64::MAX));
    assert_eq!(parse_number(b"-0x8000000000000000"), Ok(i64::MIN));
    assert_eq!(parse_number(b"0o777777777777777777777"), Ok(i64::MAX));
    assert_eq!(parse_number(b"-0o1000000000000000000000"), Ok(i64::MIN));
    assert_eq!(
        parse_number(b"00000000000000000000000000000000000000009223372036854775807"),
        Ok(i64::MAX)
    );
}

#[test]
fn numbers_out_of_bounds() {
    let out = Err(DiagnosticKind::BadNumberOutOfBounds);
    assert_eq!(parse_number(b"9223372036854775808"), out);
    assert_eq!(parse_number(b"-9223372036854775809"), out);
    assert_eq!(parse_number(b"0x8000000000000000"), out);
    assert_eq!(parse_number(b"-0x8000000000000001"), out);
    assert_eq!(parse_number(b"0o1000000000000000000000"), out);
    assert_eq!(parse_number(b"18446744073709551616"), out);
    assert_eq!(parse_number(b"340282366920938463463374607431768211456"), out);
    assert_eq!(
        parse_number(b"-99999999999999999999999999999999999999999999999999999999999999"),
        out
    );
}

#[test]
fn malformed_numbers() {
    let bad = Err(DiagnosticKind::BadNumberLiteral);
    assert_eq!(parse_number(b""), bad);
    assert_eq!(parse_number(b"-"), bad);
    assert_eq!(parse_number(b"--1"), bad);
    assert_eq!(parse_number(b"+1"), bad);
    assert_eq!(parse_number(b"0b"), bad);
    assert_eq!(parse_number(b"0x"), bad);
    assert_eq!(parse_number(b"-0o"), bad);
    assert_eq!(parse_number(b"0b102"), bad);
    assert_eq!(parse_number(b"0o8"), bad);
    assert_eq!(parse_number(b"0xg"), bad);
    assert_eq!(parse_number(b"12a"), bad);
    assert_eq!(parse_number(b"1_000"), bad);
    assert_eq!(parse_number(b"1 "), bad);
    assert_eq!(parse_number(b"0B1"), bad);
    assert_eq!(parse_number(b"-0aardvark"), bad);
    // A malformed literal is malformed however large it is.
    assert_eq!(parse_number(b"99999999999999999999999999x"), bad);
}

#[test]
fn byte_strings_are_decoded() {
    assert_eq!(parse_byte_string(b"b\"\""), Ok(vec![]));
    assert_eq!(parse_byte_string(b"b\"Hello World\""), Ok(b"Hello World".to_vec()));
    assert_eq!(
        parse_byte_string(b"b\"a\\n\\r\\t\\0\\\\\\\"\\'z\""),
        Ok(vec![b'a', 10, 13, 9, 0, b'\\', b'"', b'\'', b'z'])
    );
    assert_eq!(parse_byte_string(b"b\"\\x41\\x7f\\xfF\\x00\""), Ok(vec![0x41, 0x7f, 0xff, 0]));
}

#[test]
fn malformed_byte_strings() {
    let bad = Err(DiagnosticKind::BadByteStringLiteral);
    assert_eq!(parse_byte_string(b""), bad);
    assert_eq!(parse_byte_string(b"b\""), bad);
    assert_eq!(parse_byte_string(b"\"abc\""), bad);
    assert_eq!(parse_byte_string(b"b\"abc"), bad);
    assert_eq!(parse_byte_string(b"babc\""), bad);
    assert_eq!(parse_byte_string(b"b\"a\"c\""), bad);
    let escape = Err(DiagnosticKind::BadEscape);
    assert_eq!(parse_byte_string(b"b\"\\q\""), escape);
    assert_eq!(parse_byte_string(b"b\"abc\\\""), escape);
    assert_eq!(parse_byte_string(b"b\"\\x4\""), escape);
    assert_eq!(parse_byte_string(b"b\"\\x4g\""), escape);
    assert_eq!(parse_byte_string(b"b\"\\xg4\""), escape);
    // The leftmost fault decides.
    assert_eq!(parse_byte_string(b"b\"\\q\"\""), escape);
    assert_eq!(parse_byte_string(b"b\"\"\\q\""), bad);
}

#[test]
fn strings_are_decoded() {
    assert_eq!(parse_string(b"\"\""), Ok(vec![]));
    assert_eq!(parse_string(b"\"b\""), Ok(vec![b'b']));
    assert_eq!(parse_string(b"\"tab\\there\""), Ok(b"tab\there".to_vec()));
    assert_eq!(parse_string(b"\""), Err(DiagnosticKind::BadStringLiteral));
    assert_eq!(parse_string(b"abc"), Err(DiagnosticKind::BadStringLiteral));
    assert_eq!(parse_string(b"b\"abc\""), Err(DiagnosticKind::BadStringLiteral));
    assert_eq!(parse_string(b"\"a\"b\""), Err(DiagnosticKind::BadStringLiteral));
    assert_eq!(parse_string(b"\"\\u\""), Err(DiagnosticKind::BadEscape));
}
