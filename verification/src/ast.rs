//! Model of the syntax tree, at the granularity the transform reads.
//!
//! The front-end parses source text and resolves identifier bindings; this
//! model holds what the transform needs of its output: byte-offset spans,
//! string literals, object literals with their properties, identifiers with
//! their resolved symbol identities, and import declarations. Everything the
//! transform does not inspect is an opaque node carrying only its span.

use vstd::prelude::*;

use crate::state::ImportName;

verus! {

/// A byte range `[start, end)` in the source text. Spans are unique within
/// one tree: no two distinct nodes carry the same span.
#[derive(Clone, Copy, PartialEq, Eq, Structural, Debug)]
pub struct Span {
    pub start: u32,
    pub end: u32,
}

impl Span {
    pub fn new(start: u32, end: u32) -> (s: Span)
        ensures
            s == (Span { start, end }),
    {
        Span { start, end }
    }
}

/// A session-unique handle the front-end assigns to each binding. Two
/// references to the same declaration share the same identity.
pub type SymbolId = u32;

/// The key of an object-literal property.
pub enum PropertyKey {
    /// A plain static identifier key, as in `{ page: x }`.
    StaticIdentifier { span: Span, name: String },
    /// Any other key form (computed, string, numeric, ...).
    Other { span: Span },
}

/// One declared property of an object literal.
pub enum ObjectPropertyKind {
    /// A `key: value` property.
    ObjectProperty { span: Span, key: PropertyKey, value: Expression },
    /// A spread element, as in `{ ...rest }`.
    Spread { span: Span },
}

/// An expression node, at the granularity the transform reads.
pub enum Expression {
    StringLiteral { span: Span, value: String },
    ObjectExpression { span: Span, properties: Vec<ObjectPropertyKind> },
    /// An identifier reference; `symbol` is the resolved binding identity,
    /// or `None` where resolution found no binding.
    Identifier { span: Span, symbol: Option<SymbolId> },
    /// A no-argument, no-body closure: the neutral callee a transformed
    /// call is left with.
    EmptyArrowFunction { span: Span },
    /// Any other expression form, carried through untouched.
    Other { span: Span },
}

impl Expression {
    pub open spec fn spec_span(&self) -> Span {
        match self {
            Expression::StringLiteral { span, .. } => *span,
            Expression::ObjectExpression { span, .. } => *span,
            Expression::Identifier { span, .. } => *span,
            Expression::EmptyArrowFunction { span } => *span,
            Expression::Other { span } => *span,
        }
    }

    #[verifier::when_used_as_spec(spec_span)]
    pub fn span(&self) -> (s: Span)
        ensures
            s == self.spec_span(),
    {
        match self {
            Expression::StringLiteral { span, .. } => *span,
            Expression::ObjectExpression { span, .. } => *span,
            Expression::Identifier { span, .. } => *span,
            Expression::EmptyArrowFunction { span } => *span,
            Expression::Other { span } => *span,
        }
    }
}

/// A call expression: a callee and an argument list.
pub struct CallExpression {
    pub span: Span,
    pub callee: Expression,
    pub arguments: Vec<Expression>,
}

/// One specifier of an import declaration: the import form together with
/// the symbol identity of the local binding it introduces.
pub struct ImportSpecifier {
    pub name: ImportName,
    pub local_symbol: SymbolId,
}

/// An import declaration: the module specifier string and its specifiers
/// (`None` for a bare `import "m";`).
pub struct ImportDeclaration {
    pub span: Span,
    pub source: String,
    pub specifiers: Option<Vec<ImportSpecifier>>,
}

/// A top-level statement, at the granularity the transform reads.
pub enum Statement {
    ImportDeclaration(ImportDeclaration),
    /// A call expression in statement position.
    CallStatement(CallExpression),
    /// An exported constant binding, `export const name = init;` — the form
    /// the hoister appends to the program body.
    ExportedConstant { span: Span, name: String, init: Expression },
    /// Any other statement form, carried through untouched.
    Other { span: Span },
}

/// A program: its top-level statement list.
pub struct Program {
    pub body: Vec<Statement>,
}

} // verus!
