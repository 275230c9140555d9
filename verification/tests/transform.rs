use discovery::ast::{
    CallExpression, Expression, ImportDeclaration, ImportSpecifier, ObjectPropertyKind, Program,
    PropertyKey, Span, Statement,
};
use discovery::compile;
use discovery::state::{
    CompilerDiagnosticTier, CompilerError, Discovery, ImportName, MagicFunction, RouteFrame,
};

fn sp(start: u32, end: u32) -> Span {
    Span { start, end }
}

fn route_import(symbol: u32) -> Statement {
    Statement::ImportDeclaration(ImportDeclaration {
        span: sp(0, 40),
        source: "@vortexjs/wormhole/route".to_string(),
        specifiers: Some(vec![ImportSpecifier {
            name: ImportName::Default,
            local_symbol: symbol,
        }]),
    })
}

fn ident(span: Span, symbol: u32) -> Expression {
    Expression::Identifier {
        span,
        symbol: Some(symbol),
    }
}

fn strlit(span: Span, value: &str) -> Expression {
    Expression::StringLiteral {
        span,
        value: value.to_string(),
    }
}

fn prop(key_span: Span, name: &str, value: Expression) -> ObjectPropertyKind {
    ObjectPropertyKind::ObjectProperty {
        span: key_span,
        key: PropertyKey::StaticIdentifier {
            span: key_span,
            name: name.to_string(),
        },
        value,
    }
}

fn discovery_parts(d: &Discovery) -> (RouteFrame, String, String) {
    match d {
        Discovery::Route {
            frame,
            path,
            export,
        } => (*frame, path.clone(), export.clone()),
    }
}

#[test]
fn page_and_layout_give_two_discoveries() {
    // route("/foo", { page: X, layout: Y }) under a default import of the
    // recognized module.
    let page_value = ident(sp(70, 71), 9);
    let layout_value = ident(sp(80, 81), 10);
    let call = CallExpression {
        span: sp(50, 90),
        callee: ident(sp(50, 55), 1),
        arguments: vec![
            strlit(sp(56, 62), "/foo"),
            Expression::ObjectExpression {
                span: sp(63, 89),
                properties: vec![
                    prop(sp(64, 68), "page", page_value),
                    prop(sp(74, 80), "layout", layout_value),
                ],
            },
        ],
    };
    let mut program = Program {
        body: vec![route_import(1), Statement::CallStatement(call)],
    };
    let (discoveries, diagnostics) = compile(Vec::new(), Vec::new(), &mut program);

    assert_eq!(diagnostics.len(), 0);
    assert_eq!(discoveries.len(), 2);
    let (f0, p0, e0) = discovery_parts(&discoveries[0]);
    let (f1, p1, e1) = discovery_parts(&discoveries[1]);
    assert!(matches!(f0, RouteFrame::Page));
    assert!(matches!(f1, RouteFrame::Layout));
    assert_eq!(p0, "/foo");
    assert_eq!(p1, "/foo");
    assert_eq!(e0, "discovery$70$71");
    assert_eq!(e1, "discovery$80$81");
    assert_ne!(e0, e1);

    // The call site is neutralized: no arguments, empty-closure callee.
    match &program.body[1] {
        Statement::CallStatement(c) => {
            assert_eq!(c.arguments.len(), 0);
            assert!(matches!(
                c.callee,
                Expression::EmptyArrowFunction {
                    span: Span { start: 0, end: 0 }
                }
            ));
        }
        _ => panic!("call statement expected"),
    }

    // Staged exports are flushed in reverse staging order: layout first.
    assert_eq!(program.body.len(), 4);
    match &program.body[2] {
        Statement::ExportedConstant { name, init, .. } => {
            assert_eq!(name, "discovery$80$81");
            assert!(matches!(init, Expression::Identifier { symbol: Some(10), .. }));
        }
        _ => panic!("exported constant expected"),
    }
    match &program.body[3] {
        Statement::ExportedConstant { name, init, .. } => {
            assert_eq!(name, "discovery$70$71");
            assert!(matches!(init, Expression::Identifier { symbol: Some(9), .. }));
        }
        _ => panic!("exported constant expected"),
    }
}

#[test]
fn one_argument_is_an_arity_error() {
    // route("/foo") keeps the call byte-for-byte and reports the arity.
    let call = CallExpression {
        span: sp(50, 63),
        callee: ident(sp(50, 55), 1),
        arguments: vec![strlit(sp(56, 62), "/foo")],
    };
    let mut program = Program {
        body: vec![route_import(1), Statement::CallStatement(call)],
    };
    let (discoveries, diagnostics) = compile(Vec::new(), Vec::new(), &mut program);

    assert_eq!(discoveries.len(), 0);
    assert_eq!(diagnostics.len(), 1);
    assert_eq!(diagnostics[0].message, "expected 2 arguments, but found 1");
    assert_eq!(diagnostics[0].span, (50, 63));
    assert!(matches!(diagnostics[0].tier, CompilerDiagnosticTier::Error));

    match &program.body[1] {
        Statement::CallStatement(c) => {
            assert_eq!(c.arguments.len(), 1);
            assert!(matches!(c.callee, Expression::Identifier { symbol: Some(1), .. }));
        }
        _ => panic!("call statement expected"),
    }
}

#[test]
fn non_string_path_still_produces_the_discovery() {
    // route(42, { page: X }): one diagnostic at the first argument, the
    // path defaults to empty, processing continues.
    let call = CallExpression {
        span: sp(50, 80),
        callee: ident(sp(50, 55), 1),
        arguments: vec![
            Expression::Other { span: sp(56, 58) },
            Expression::ObjectExpression {
                span: sp(60, 79),
                properties: vec![prop(sp(61, 65), "page", ident(sp(67, 68), 9))],
            },
        ],
    };
    let mut program = Program {
        body: vec![route_import(1), Statement::CallStatement(call)],
    };
    let (discoveries, diagnostics) = compile(Vec::new(), Vec::new(), &mut program);

    assert_eq!(diagnostics.len(), 1);
    assert_eq!(diagnostics[0].message, "expected a string literal");
    assert_eq!(diagnostics[0].span, (56, 58));
    assert_eq!(discoveries.len(), 1);
    let (frame, path, export) = discovery_parts(&discoveries[0]);
    assert!(matches!(frame, RouteFrame::Page));
    assert_eq!(path, "");
    assert_eq!(export, "discovery$67$68");
    match &program.body[1] {
        Statement::CallStatement(c) => {
            assert_eq!(c.arguments.len(), 0);
            assert!(matches!(c.callee, Expression::EmptyArrowFunction { .. }));
        }
        _ => panic!("call statement expected"),
    }
}

#[test]
fn unrelated_import_is_ignored() {
    // A call to an identifier imported from an unrelated module produces
    // zero discoveries and zero diagnostics and leaves the call unchanged.
    let import = Statement::ImportDeclaration(ImportDeclaration {
        span: sp(0, 30),
        source: "some/other/module".to_string(),
        specifiers: Some(vec![ImportSpecifier {
            name: ImportName::Named("route".to_string()),
            local_symbol: 1,
        }]),
    });
    let call = CallExpression {
        span: sp(50, 90),
        callee: ident(sp(50, 55), 1),
        arguments: vec![
            strlit(sp(56, 62), "/foo"),
            Expression::ObjectExpression {
                span: sp(63, 89),
                properties: vec![prop(sp(64, 68), "page", ident(sp(70, 71), 9))],
            },
        ],
    };
    let mut program = Program {
        body: vec![import, Statement::CallStatement(call)],
    };
    let (discoveries, diagnostics) = compile(Vec::new(), Vec::new(), &mut program);

    assert_eq!(discoveries.len(), 0);
    assert_eq!(diagnostics.len(), 0);
    assert_eq!(program.body.len(), 2);
    match &program.body[1] {
        Statement::CallStatement(c) => {
            assert_eq!(c.arguments.len(), 2);
            assert!(matches!(c.callee, Expression::Identifier { symbol: Some(1), .. }));
        }
        _ => panic!("call statement expected"),
    }
}

#[test]
fn recompiling_the_output_is_a_fixed_point() {
    let call = CallExpression {
        span: sp(50, 90),
        callee: ident(sp(50, 55), 1),
        arguments: vec![
            strlit(sp(56, 62), "/foo"),
            Expression::ObjectExpression {
                span: sp(63, 89),
                properties: vec![
                    prop(sp(64, 68), "page", ident(sp(70, 71), 9)),
                    prop(sp(74, 80), "layout", ident(sp(82, 83), 10)),
                ],
            },
        ],
    };
    let mut program = Program {
        body: vec![route_import(1), Statement::CallStatement(call)],
    };
    let (discoveries, diagnostics) = compile(Vec::new(), Vec::new(), &mut program);
    assert_eq!(discoveries.len(), 2);
    assert_eq!(diagnostics.len(), 0);
    let body_len = program.body.len();

    let (again_discoveries, again_diagnostics) = compile(Vec::new(), Vec::new(), &mut program);
    assert_eq!(again_discoveries.len(), 0);
    assert_eq!(again_diagnostics.len(), 0);
    assert_eq!(program.body.len(), body_len);
}

#[test]
fn two_calls_get_distinct_exports() {
    let call_at = |base: u32, symbol: u32| {
        Statement::CallStatement(CallExpression {
            span: sp(base, base + 40),
            callee: ident(sp(base, base + 5), symbol),
            arguments: vec![
                strlit(sp(base + 6, base + 12), "/p"),
                Expression::ObjectExpression {
                    span: sp(base + 13, base + 39),
                    properties: vec![prop(
                        sp(base + 14, base + 18),
                        "page",
                        ident(sp(base + 20, base + 21), 9),
                    )],
                },
            ],
        })
    };
    let mut program = Program {
        body: vec![route_import(1), call_at(50, 1), call_at(150, 1)],
    };
    let (discoveries, diagnostics) = compile(Vec::new(), Vec::new(), &mut program);
    assert_eq!(diagnostics.len(), 0);
    assert_eq!(discoveries.len(), 2);
    let (_, _, e0) = discovery_parts(&discoveries[0]);
    let (_, _, e1) = discovery_parts(&discoveries[1]);
    assert_eq!(e0, "discovery$70$71");
    assert_eq!(e1, "discovery$170$171");
    assert_ne!(e0, e1);
}

#[test]
fn later_duplicate_keys_overwrite_earlier_ones() {
    let call = CallExpression {
        span: sp(50, 90),
        callee: ident(sp(50, 55), 1),
        arguments: vec![
            strlit(sp(56, 62), "/foo"),
            Expression::ObjectExpression {
                span: sp(63, 89),
                properties: vec![
                    prop(sp(64, 68), "page", ident(sp(70, 71), 9)),
                    prop(sp(74, 78), "page", ident(sp(80, 81), 10)),
                ],
            },
        ],
    };
    let mut program = Program {
        body: vec![route_import(1), Statement::CallStatement(call)],
    };
    let (discoveries, diagnostics) = compile(Vec::new(), Vec::new(), &mut program);
    assert_eq!(diagnostics.len(), 0);
    assert_eq!(discoveries.len(), 1);
    let (_, _, export) = discovery_parts(&discoveries[0]);
    assert_eq!(export, "discovery$80$81");
}

#[test]
fn spread_and_computed_keys_are_skipped_with_errors() {
    let call = CallExpression {
        span: sp(50, 99),
        callee: ident(sp(50, 55), 1),
        arguments: vec![
            strlit(sp(56, 62), "/foo"),
            Expression::ObjectExpression {
                span: sp(63, 98),
                properties: vec![
                    ObjectPropertyKind::Spread { span: sp(64, 71) },
                    ObjectPropertyKind::ObjectProperty {
                        span: sp(73, 85),
                        key: PropertyKey::Other { span: sp(73, 79) },
                        value: ident(sp(81, 82), 9),
                    },
                    prop(sp(87, 91), "page", ident(sp(93, 94), 9)),
                ],
            },
        ],
    };
    let mut program = Program {
        body: vec![route_import(1), Statement::CallStatement(call)],
    };
    let (discoveries, diagnostics) = compile(Vec::new(), Vec::new(), &mut program);

    assert_eq!(diagnostics.len(), 2);
    assert_eq!(diagnostics[0].message, "spread properties are not allowed here");
    assert_eq!(diagnostics[0].span, (64, 71));
    assert_eq!(diagnostics[1].message, "expected a static property key");
    assert_eq!(diagnostics[1].span, (73, 79));
    assert_eq!(discoveries.len(), 1);
}

#[test]
fn non_object_options_abort_the_call() {
    let call = CallExpression {
        span: sp(50, 70),
        callee: ident(sp(50, 55), 1),
        arguments: vec![strlit(sp(56, 62), "/foo"), Expression::Other { span: sp(64, 66) }],
    };
    let mut program = Program {
        body: vec![route_import(1), Statement::CallStatement(call)],
    };
    let (discoveries, diagnostics) = compile(Vec::new(), Vec::new(), &mut program);

    assert_eq!(discoveries.len(), 0);
    assert_eq!(diagnostics.len(), 1);
    assert_eq!(diagnostics[0].message, "expected an object");
    assert_eq!(diagnostics[0].span, (64, 66));
    match &program.body[1] {
        Statement::CallStatement(c) => {
            assert_eq!(c.arguments.len(), 2);
            assert!(matches!(c.callee, Expression::Identifier { .. }));
        }
        _ => panic!("call statement expected"),
    }
}

#[test]
fn parse_errors_are_rendered_first() {
    let parse_error = CompilerError::OxcParsingError {
        message: "unexpected token".to_string(),
        labels: vec![sp(3, 7)],
    };
    let mut program = Program { body: vec![] };
    let (discoveries, diagnostics) = compile(Vec::new(), vec![parse_error], &mut program);
    assert_eq!(discoveries.len(), 0);
    assert_eq!(diagnostics.len(), 1);
    assert_eq!(diagnostics[0].message, "parsing error: unexpected token");
    assert_eq!(diagnostics[0].span, (3, 7));
}

#[test]
fn parse_error_without_labels_defaults_to_offset_zero() {
    let parse_error = CompilerError::OxcParsingError {
        message: "broken".to_string(),
        labels: vec![],
    };
    let mut program = Program { body: vec![] };
    let (_, diagnostics) = compile(Vec::new(), vec![parse_error], &mut program);
    assert_eq!(diagnostics.len(), 1);
    assert_eq!(diagnostics[0].message, "parsing error: broken");
    assert_eq!(diagnostics[0].span, (0, 0));
}

#[test]
fn named_route_import_is_recognized() {
    let import = Statement::ImportDeclaration(ImportDeclaration {
        span: sp(0, 40),
        source: "@vortexjs/wormhole/route".to_string(),
        specifiers: Some(vec![ImportSpecifier {
            name: ImportName::Named("route".to_string()),
            local_symbol: 2,
        }]),
    });
    let call = CallExpression {
        span: sp(50, 90),
        callee: ident(sp(50, 55), 2),
        arguments: vec![
            strlit(sp(56, 62), "/bar"),
            Expression::ObjectExpression {
                span: sp(63, 89),
                properties: vec![prop(sp(64, 70), "layout", ident(sp(72, 73), 9))],
            },
        ],
    };
    let mut program = Program {
        body: vec![import, Statement::CallStatement(call)],
    };
    let (discoveries, diagnostics) = compile(Vec::new(), Vec::new(), &mut program);
    assert_eq!(diagnostics.len(), 0);
    assert_eq!(discoveries.len(), 1);
    let (frame, path, _) = discovery_parts(&discoveries[0]);
    assert!(matches!(frame, RouteFrame::Layout));
    assert_eq!(path, "/bar");
}

#[test]
fn from_import_matches_the_registry_exactly() {
    assert!(matches!(
        MagicFunction::from_import("@vortexjs/wormhole/route", ImportName::Default),
        Some(MagicFunction::Route)
    ));
    assert!(matches!(
        MagicFunction::from_import(
            "@vortexjs/wormhole/route",
            ImportName::Named("route".to_string())
        ),
        Some(MagicFunction::Route)
    ));
    assert!(MagicFunction::from_import(
        "@vortexjs/wormhole/route",
        ImportName::Named("router".to_string())
    )
    .is_none());
    assert!(MagicFunction::from_import("@vortexjs/wormhole", ImportName::Default).is_none());
    assert!(
        MagicFunction::from_import("lodash", ImportName::Named("route".to_string())).is_none()
    );
}
