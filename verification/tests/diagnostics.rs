use discovery::ast::Span;
use discovery::state::{
    CompilerDiagnosticGenerator, CompilerDiagnosticTier, CompilerError, CompilerState, Target,
};

fn sp(start: u32, end: u32) -> Span {
    Span { start, end }
}

#[test]
fn related_diagnostic_points_at_its_primary() {
    let mut generator = CompilerDiagnosticGenerator::new();
    generator.format_error(&CompilerError::ExpectedPropertiesObject {
        at: sp(10, 20),
        special_function: sp(2, 7),
    });
    assert_eq!(generator.diagnostics.len(), 2);
    let primary = &generator.diagnostics[0];
    let related = &generator.diagnostics[1];
    assert_eq!(primary.message, "expected an object with parameters");
    assert_eq!(primary.span, sp(10, 20));
    assert!(matches!(primary.tier, CompilerDiagnosticTier::Error));
    assert_eq!(related.message, "because of this special function call");
    assert_eq!(related.span, sp(2, 7));
    match related.tier {
        CompilerDiagnosticTier::Related(parent) => assert_eq!(parent, primary.id),
        CompilerDiagnosticTier::Error => panic!("related tier expected"),
    }
}

#[test]
fn arity_message_spells_out_both_counts() {
    let mut generator = CompilerDiagnosticGenerator::new();
    generator.format_error(&CompilerError::IncorrectNumberOfArguments {
        span: sp(1, 9),
        expected: 2,
        found: 37,
    });
    assert_eq!(generator.diagnostics.len(), 1);
    assert_eq!(generator.diagnostics[0].message, "expected 2 arguments, but found 37");
}

#[test]
fn get_line_counts_line_breaks_before_the_offset() {
    let source = b"one\ntwo\nthree".to_vec();
    let state = CompilerState::new(Target::Client, source);
    assert_eq!(state.get_line(0), 0);
    assert_eq!(state.get_line(3), 0);
    assert_eq!(state.get_line(4), 1);
    assert_eq!(state.get_line(8), 2);
    assert_eq!(state.get_line(13), 2);
}

#[test]
fn line_content_returns_each_line_without_its_break() {
    let source = b"one\ntwo\r\nthree".to_vec();
    let state = CompilerState::new(Target::Client, source);
    assert_eq!(state.line_content(0), b"one".to_vec());
    assert_eq!(state.line_content(1), b"two".to_vec());
    assert_eq!(state.line_content(2), b"three".to_vec());
    assert_eq!(state.line_content(3), Vec::<u8>::new());
}

#[test]
fn debug_error_lines_sorts_by_span_start() {
    let source = b"first line\nsecond line\nthird line".to_vec();
    let mut state = CompilerState::new(Target::Client, source);
    state.add_error(CompilerError::ExpectedObject { at: sp(25, 30) });
    state.add_error(CompilerError::ExpectedStringLiteral { at: sp(2, 6) });
    let lines = state.debug_error_lines();
    assert_eq!(lines.len(), 2);
    assert_eq!(lines[0].message, "expected a string literal");
    assert_eq!(lines[0].line_number, 1);
    assert_eq!(lines[0].line, b"first line".to_vec());
    assert_eq!(lines[1].message, "expected an object");
    assert_eq!(lines[1].line_number, 3);
    assert_eq!(lines[1].line, b"third line".to_vec());
}

#[test]
fn get_diagnostics_keeps_error_order() {
    let mut state = CompilerState::new(Target::Client, Vec::new());
    state.add_error(CompilerError::SpreadPropertyNotAllowed { at: sp(5, 9) });
    state.add_error(CompilerError::ExpectedStaticPropertyKey { at: sp(12, 15) });
    let diagnostics = state.get_diagnostics();
    assert_eq!(diagnostics.len(), 2);
    assert_eq!(diagnostics[0].message, "spread properties are not allowed here");
    assert_eq!(diagnostics[0].span, (5, 9));
    assert_eq!(diagnostics[1].message, "expected a static property key");
    assert_eq!(diagnostics[1].span, (12, 15));
}
