//! Session state, the magic-function registry, error conditions, and the
//! diagnostic formatter.

use vstd::prelude::*;

use std::collections::HashMap;

use crate::ast::{Span, SymbolId};
use crate::numeral::{dec_digits, push_decimal};
use crate::options::OptionsMap;
use vstd::multiset::Multiset;

verus! {

/// Relies on rand::random: a freshly sampled value of the type, drawn from
/// the thread-local generator; nothing is promised of it.
pub assume_specification<T>[ rand::random::<T> ]() -> (r: T)
    where
        rand::distr::StandardUniform: rand::distr::Distribution<T>,
;

broadcast use vstd::std_specs::hash::group_hash_axioms;

/// Which runtime the compilation targets.
pub enum Target {
    Client,
    Server,
}

/// The kinds of framework-recognized magic functions.
#[derive(Hash, Eq, PartialEq, Structural, Debug, Clone, Copy)]
pub enum MagicFunction {
    Route,
}

/// How a binding was imported: `Default` covers default-import and
/// namespace-import forms; `Named` carries the imported name.
pub enum ImportName {
    Default,
    Named(String),
}

/// The module specifier the static registry recognizes.
pub open spec fn route_module_specifier() -> Seq<char> {
    "@vortexjs/wormhole/route"@
}

/// The named-import form the static registry recognizes.
pub open spec fn route_import_name() -> Seq<char> {
    "route"@
}

/// The static registry: which `(module specifier, import form)` pairs name a
/// magic function. The route function is reachable through the default
/// import of the recognized module, or through a named import literally
/// called `route` from that same module.
pub open spec fn spec_from_import(module: Seq<char>, import_name: ImportName) -> Option<
    MagicFunction,
> {
    if module == route_module_specifier() {
        match import_name {
            ImportName::Default => Some(MagicFunction::Route),
            ImportName::Named(n) => if n@ == route_import_name() {
                Some(MagicFunction::Route)
            } else {
                None
            },
        }
    } else {
        None
    }
}

impl MagicFunction {
    /// Look an import up in the static registry.
    pub fn from_import(module: &str, import_name: ImportName) -> (r: Option<MagicFunction>)
        ensures
            r == spec_from_import(module@, import_name),
    {
        let recognized_module: String = "@vortexjs/wormhole/route".to_owned();
        let m: String = module.to_owned();
        if m == recognized_module {
            match import_name {
                ImportName::Default => Some(MagicFunction::Route),
                ImportName::Named(n) => {
                    let recognized_name: String = "route".to_owned();
                    if n == recognized_name {
                        Some(MagicFunction::Route)
                    } else {
                        None
                    }
                },
            }
        } else {
            None
        }
    }
}

impl Clone for ImportName {
    fn clone(&self) -> (r: Self)
        ensures
            r == *self,
    {
        match self {
            ImportName::Default => ImportName::Default,
            ImportName::Named(n) => ImportName::Named(n.clone()),
        }
    }
}

/// The magic-function table after visiting an import declaration's
/// specifiers in order: each specifier whose `(module, form)` pair the
/// static registry recognizes records its local symbol's kind; the rest
/// leave the table as it is.
pub open spec fn table_after_import(
    table: Map<SymbolId, MagicFunction>,
    source: Seq<char>,
    specifiers: Seq<crate::ast::ImportSpecifier>,
) -> Map<SymbolId, MagicFunction>
    decreases specifiers.len(),
{
    if specifiers.len() == 0 {
        table
    } else {
        let prev = table_after_import(table, source, specifiers.drop_last());
        match spec_from_import(source, specifiers.last().name) {
            Some(mf) => prev.insert(specifiers.last().local_symbol, mf),
            None => prev,
        }
    }
}

/// Imports from any module other than the recognized one never feed the
/// magic-function table, whatever their specifiers.
pub proof fn lemma_unrelated_import_adds_nothing(
    table: Map<SymbolId, MagicFunction>,
    source: Seq<char>,
    specifiers: Seq<crate::ast::ImportSpecifier>,
)
    requires
        source != route_module_specifier(),
    ensures
        table_after_import(table, source, specifiers) == table,
    decreases specifiers.len(),
{
    if specifiers.len() > 0 {
        lemma_unrelated_import_adds_nothing(table, source, specifiers.drop_last());
    }
}

/// Which frame of a route a hoisted binding supplies.
#[derive(PartialEq, Eq, Structural, Debug, Clone, Copy)]
pub enum RouteFrame {
    Layout,
    Page,
}

/// A record of framework-relevant metadata extracted at compile time: a
/// route registration, with the frame kind, the route path, and the name of
/// the exported binding that now holds the frame expression.
#[derive(Debug)]
pub enum Discovery {
    Route { frame: RouteFrame, path: String, export: String },
}

/// A 32-bit diagnostic identifier, drawn from a process-wide random source.
/// Identifiers carry no uniqueness contract; they only distinguish a
/// `Related` diagnostic's parent within one formatting operation.
#[derive(Copy, Clone, PartialEq, Eq, Structural, Debug)]
pub struct DiagnosticId(pub u32);

/// Severity tier of a diagnostic: a primary error, or an explanation
/// related to a primary diagnostic emitted earlier, named by its id.
#[derive(Copy, Clone, PartialEq, Eq, Structural, Debug)]
pub enum CompilerDiagnosticTier {
    Error,
    Related(DiagnosticId),
}

/// A rendered diagnostic.
pub struct CompilerDiagnostic {
    pub message: String,
    pub span: Span,
    pub tier: CompilerDiagnosticTier,
    pub id: DiagnosticId,
}

/// A rendered diagnostic in the flat shape handed across the host boundary,
/// with the span as a plain `(start, end)` pair.
pub struct NapiCompilerDiagnostic {
    pub message: String,
    pub span: (u32, u32),
    pub tier: CompilerDiagnosticTier,
    pub id: DiagnosticId,
}

/// A raw error condition, recorded during traversal and rendered later.
pub enum CompilerError {
    ExpectedPropertiesObject { at: Span, special_function: Span },
    IncorrectNumberOfArguments { span: Span, expected: i32, found: usize },
    ExpectedObject { at: Span },
    SpreadPropertyNotAllowed { at: Span },
    ExpectedStaticPropertyKey { at: Span },
    ExpectedStringLiteral { at: Span },
    /// A parse error the front-end reported: its message, and the spans of
    /// its labels (possibly none).
    OxcParsingError { message: String, labels: Vec<Span> },
}

/// The number of line breaks in `s`.
pub open spec fn newline_count(s: Seq<u8>) -> nat
    decreases s.len(),
{
    if s.len() == 0 {
        0
    } else {
        newline_count(s.drop_last()) + if s.last() == 10 {
            1nat
        } else {
            0
        }
    }
}

/// The bytes of `s` before its first line break (all of `s` if it has
/// none).
pub open spec fn head_line(s: Seq<u8>) -> Seq<u8>
    decreases s.len(),
{
    if s.len() == 0 {
        s
    } else if s[0] == 10 {
        Seq::<u8>::empty()
    } else {
        seq![s[0]] + head_line(s.skip(1))
    }
}

/// `s` without its first line, line break included (empty if `s` has no
/// line break).
pub open spec fn drop_line(s: Seq<u8>) -> Seq<u8>
    decreases s.len(),
{
    if s.len() == 0 {
        s
    } else if s[0] == 10 {
        s.skip(1)
    } else {
        drop_line(s.skip(1))
    }
}

/// A line with a trailing carriage return stripped, as a line of a
/// carriage-return-line-feed text reads.
pub open spec fn strip_cr(s: Seq<u8>) -> Seq<u8> {
    if s.len() > 0 && s.last() == 13 {
        s.drop_last()
    } else {
        s
    }
}

/// The `index`-th line of `s` (0-based), line break excluded and a
/// trailing carriage return stripped; empty past the last line.
pub open spec fn line_at(s: Seq<u8>, index: nat) -> Seq<u8>
    decreases index,
{
    if index == 0 {
        strip_cr(head_line(s))
    } else {
        line_at(drop_line(s), (index - 1) as nat)
    }
}

/// The path a string-literal expression contributes: its value, or the
/// empty string as the safe default for any other expression form.
pub open spec fn strlit_value(e: crate::ast::Expression) -> Seq<char> {
    match e {
        crate::ast::Expression::StringLiteral { value, .. } => value@,
        _ => Seq::<char>::empty(),
    }
}

/// The errors reading a route path from an expression records: none for a
/// string literal, one `ExpectedStringLiteral` otherwise.
pub open spec fn strlit_errors(e: crate::ast::Expression) -> Seq<CompilerError> {
    match e {
        crate::ast::Expression::StringLiteral { .. } => Seq::<CompilerError>::empty(),
        _ => seq![CompilerError::ExpectedStringLiteral { at: e.spec_span() }],
    }
}

/// The key-to-value map an object literal's property list declares,
/// starting from `m`: spread elements and non-static keys contribute
/// nothing; later duplicate keys overwrite earlier ones.
pub open spec fn props_map_from(
    m: Map<Seq<char>, crate::ast::Expression>,
    props: Seq<crate::ast::ObjectPropertyKind>,
) -> Map<Seq<char>, crate::ast::Expression>
    decreases props.len(),
{
    if props.len() == 0 {
        m
    } else {
        let prev = props_map_from(m, props.drop_last());
        match props.last() {
            crate::ast::ObjectPropertyKind::ObjectProperty { key, value, .. } => match key {
                crate::ast::PropertyKey::StaticIdentifier { name, .. } => prev.insert(name@, value),
                crate::ast::PropertyKey::Other { .. } => prev,
            },
            crate::ast::ObjectPropertyKind::Spread { .. } => prev,
        }
    }
}

/// The errors scanning an object literal's property list records, in
/// order: one per spread element, one per property whose key is not a
/// plain static identifier.
pub open spec fn props_errors(props: Seq<crate::ast::ObjectPropertyKind>) -> Seq<CompilerError>
    decreases props.len(),
{
    if props.len() == 0 {
        Seq::<CompilerError>::empty()
    } else {
        props_errors(props.drop_last()) + match props.last() {
            crate::ast::ObjectPropertyKind::ObjectProperty { key, .. } => match key {
                crate::ast::PropertyKey::StaticIdentifier { .. } => Seq::<CompilerError>::empty(),
                crate::ast::PropertyKey::Other { span } => seq![
                    CompilerError::ExpectedStaticPropertyKey { at: span },
                ],
            },
            crate::ast::ObjectPropertyKind::Spread { span } => seq![
                CompilerError::SpreadPropertyNotAllowed { at: span },
            ],
        }
    }
}

/// Per-session compiler state: the magic-function table built from imports,
/// the raw error conditions in detection order, the discoveries in
/// traversal order, and the source text (as bytes, for line lookups in the
/// debug rendering).
pub struct CompilerState {
    pub target: Target,
    pub errors: Vec<CompilerError>,
    pub magic_function_table: HashMap<SymbolId, MagicFunction>,
    pub source: Vec<u8>,
    pub discoveries: Vec<Discovery>,
}

impl CompilerState {
    pub fn new(target: Target, source: Vec<u8>) -> (s: Self)
        ensures
            s.target == target,
            s.errors@ == Seq::<CompilerError>::empty(),
            s.magic_function_table@ == Map::<SymbolId, MagicFunction>::empty(),
            s.source == source,
            s.discoveries@ == Seq::<Discovery>::empty(),
    {
        Self {
            target,
            errors: Vec::new(),
            magic_function_table: HashMap::new(),
            source,
            discoveries: Vec::new(),
        }
    }

    pub fn add_error(&mut self, error: CompilerError)
        ensures
            final(self).errors@ == old(self).errors@.push(error),
            final(self).target == old(self).target,
            final(self).magic_function_table == old(self).magic_function_table,
            final(self).source == old(self).source,
            final(self).discoveries == old(self).discoveries,
    {
        self.errors.push(error);
    }

    /// The string value of a string-literal expression. A non-literal
    /// records an `ExpectedStringLiteral` error at the expression's span
    /// and yields the empty string as a safe default.
    pub fn get_literal_string(&mut self, expression: &crate::ast::Expression) -> (r: String)
        ensures
            r@ == strlit_value(*expression),
            final(self).errors@ == old(self).errors@ + strlit_errors(*expression),
            final(self).target == old(self).target,
            final(self).magic_function_table == old(self).magic_function_table,
            final(self).source == old(self).source,
            final(self).discoveries == old(self).discoveries,
    {
        match expression {
            crate::ast::Expression::StringLiteral { value, .. } => {
                proof {
                    assert(old(self).errors@ + strlit_errors(*expression) =~= old(self).errors@);
                }
                value.clone()
            },
            _ => {
                self.errors.push(
                    CompilerError::ExpectedStringLiteral { at: expression.span() },
                );
                proof {
                    assert(final(self).errors@ =~= old(self).errors@ + strlit_errors(
                        *expression,
                    ));
                }
                String::new()
            },
        }
    }

    /// Scan an object literal's declared properties into `keys`: each
    /// well-formed `name: expr` pair is inserted (later duplicates
    /// overwrite earlier ones); spread elements and non-static keys are
    /// skipped, each recording one error. A non-object expression records
    /// one `ExpectedObject` error and leaves `keys` untouched.
    pub fn get_object_keys(&mut self, object: crate::ast::Expression, keys: &mut OptionsMap)
        requires
            old(keys).wf(),
        ensures
            final(keys).wf(),
            match object {
                crate::ast::Expression::ObjectExpression { properties, .. } => {
                    &&& final(keys)@ == props_map_from(old(keys)@, properties@)
                    &&& final(self).errors@ == old(self).errors@ + props_errors(properties@)
                },
                _ => {
                    &&& final(keys)@ == old(keys)@
                    &&& final(self).errors@ == old(self).errors@.push(
                        CompilerError::ExpectedObject { at: object.spec_span() },
                    )
                },
            },
            final(self).target == old(self).target,
            final(self).magic_function_table == old(self).magic_function_table,
            final(self).source == old(self).source,
            final(self).discoveries == old(self).discoveries,
    {
        match object {
            crate::ast::Expression::ObjectExpression { properties, .. } => {
                let ghost all = properties@;
                let ghost m0 = keys@;
                let ghost e0 = self.errors@;
                let mut remaining = properties;
                let ghost k: int = 0;
                while remaining.len() > 0
                    invariant
                        old(keys).wf(),
                        keys.wf(),
                        0 <= k <= all.len(),
                        remaining@ =~= all.skip(k),
                        keys@ == props_map_from(m0, all.take(k)),
                        self.errors@ == e0 + props_errors(all.take(k)),
                        self.target == old(self).target,
                        self.magic_function_table == old(self).magic_function_table,
                        self.source == old(self).source,
                        self.discoveries == old(self).discoveries,
                    decreases remaining@.len(),
                {
                    let prop = remaining.remove(0);
                    proof {
                        assert(prop == all[k]);
                        assert(all.take(k + 1).drop_last() =~= all.take(k));
                        assert(all.take(k + 1).last() == all[k]);
                    }
                    match prop {
                        crate::ast::ObjectPropertyKind::ObjectProperty { key, value, .. } => {
                            match key {
                                crate::ast::PropertyKey::StaticIdentifier { name, .. } => {
                                    keys.insert(name, value);
                                    proof {
                                        assert(self.errors@ =~= e0 + props_errors(
                                            all.take(k + 1),
                                        ));
                                    }
                                },
                                crate::ast::PropertyKey::Other { span } => {
                                    self.errors.push(
                                        CompilerError::ExpectedStaticPropertyKey { at: span },
                                    );
                                    proof {
                                        assert(self.errors@ =~= e0 + props_errors(
                                            all.take(k + 1),
                                        ));
                                    }
                                },
                            }
                        },
                        crate::ast::ObjectPropertyKind::Spread { span } => {
                            self.errors.push(
                                CompilerError::SpreadPropertyNotAllowed { at: span },
                            );
                            proof {
                                assert(self.errors@ =~= e0 + props_errors(all.take(k + 1)));
                            }
                        },
                    }
                    proof {
                        k = k + 1;
                        assert(remaining@ =~= all.skip(k));
                    }
                }
                proof {
                    assert(all.take(all.len() as int) =~= all);
                    assert(k == all.len());
                }
            },
            _ => {
                self.errors.push(CompilerError::ExpectedObject { at: object.span() });
            },
        }
    }

    /// The 0-based line index at a byte offset: the number of line breaks
    /// before the offset.
    pub fn get_line(&self, offset: usize) -> (r: usize)
        requires
            offset <= self.source@.len(),
        ensures
            r == newline_count(self.source@.take(offset as int)),
            r <= offset,
    {
        let mut count: usize = 0;
        for i in 0..offset
            invariant
                offset <= self.source@.len(),
                count == newline_count(self.source@.take(i as int)),
                count <= i,
        {
            proof {
                assert(self.source@.take(i + 1).drop_last() =~= self.source@.take(i as int));
                assert(self.source@.take(i + 1).last() == self.source@[i as int]);
            }
            if self.source[i] == 10 {
                count += 1;
            }
        }
        count
    }

    /// The text of the `index`-th source line (0-based), or empty past the
    /// last line.
    pub fn line_content(&self, index: usize) -> (r: Vec<u8>)
        ensures
            r@ == line_at(self.source@, index as nat),
    {
        proof {
            assert(self.source@.skip(0) =~= self.source@);
        }
        line_at_from(&self.source, 0, index)
    }

    /// Render all recorded error conditions, in order, into the flat
    /// host-boundary diagnostic list.
    pub fn get_diagnostics(&self) -> (r: Vec<NapiCompilerDiagnostic>)
        ensures
            is_rendering(self.errors@, r@),
    {
        let mut out: Vec<NapiCompilerDiagnostic> = Vec::new();
        let n = self.errors.len();
        for i in 0..n
            invariant
                n == self.errors.len(),
                is_rendering(self.errors@.take(i as int), out@),
        {
            let mut generator = CompilerDiagnosticGenerator::new();
            generator.format_error(&self.errors[i]);
            let ghost rendered = generator.diagnostics@;
            let ghost out_before = out@;
            let mut j: usize = 0;
            while j < generator.diagnostics.len()
                invariant
                    j <= generator.diagnostics.len(),
                    generator.diagnostics@ == rendered,
                    out@ == out_before + rendered.take(j as int).map_values(
                        |x: CompilerDiagnostic| napi_of(x),
                    ),
                decreases generator.diagnostics.len() - j,
            {
                let d = &generator.diagnostics[j];
                out.push(
                    NapiCompilerDiagnostic {
                        message: d.message.clone(),
                        span: (d.span.start, d.span.end),
                        tier: d.tier,
                        id: d.id,
                    },
                );
                proof {
                    assert(napi_of(rendered[j as int]).message@ == rendered[j as int].message@);
                    assert(out@.last().message@ == rendered[j as int].message@);
                    assert(out@.last().span == napi_of(rendered[j as int]).span);
                    assert(out@.last().tier == napi_of(rendered[j as int]).tier);
                    assert(out@.last().id == napi_of(rendered[j as int]).id);
                    assert(out@.last() == napi_of(rendered[j as int])) by {
                        assert(out@.last().message@ == napi_of(rendered[j as int]).message@);
                    };
                    assert(out@ =~= out_before + rendered.take(j as int + 1).map_values(
                        |x: CompilerDiagnostic| napi_of(x),
                    ));
                }
                j += 1;
            }
            proof {
                lemma_rendering_extend(
                    self.errors@.take(i as int),
                    out_before,
                    self.errors@[i as int],
                    rendered,
                );
                assert(self.errors@.take(i as int).push(self.errors@[i as int])
                    =~= self.errors@.take(i as int + 1));
                assert(rendered.take(rendered.len() as int) =~= rendered);
                assert(out@ == out_before + rendered.map_values(
                    |x: CompilerDiagnostic| napi_of(x),
                ));
            }
        }
        proof {
            assert(self.errors@.take(n as int) =~= self.errors@);
        }
        out
    }

    /// Render all recorded error conditions, in order, keeping the spans
    /// as spans.
    pub fn render_diagnostics(&self) -> (r: Vec<CompilerDiagnostic>)
        ensures
            is_rendering_diags(self.errors@, r@),
    {
        let mut out: Vec<CompilerDiagnostic> = Vec::new();
        let n = self.errors.len();
        for i in 0..n
            invariant
                n == self.errors.len(),
                is_rendering_diags(self.errors@.take(i as int), out@),
        {
            let mut generator = CompilerDiagnosticGenerator::new();
            generator.format_error(&self.errors[i]);
            let ghost rendered = generator.diagnostics@;
            let ghost out_before = out@;
            let ghost j: int = 0;
            while generator.diagnostics.len() > 0
                invariant
                    0 <= j <= rendered.len(),
                    generator.diagnostics@ =~= rendered.skip(j),
                    out@ == out_before + rendered.take(j),
                decreases generator.diagnostics@.len(),
            {
                let d = generator.diagnostics.remove(0);
                out.push(d);
                proof {
                    assert(d == rendered[j]);
                    assert(out@ =~= out_before + rendered.take(j + 1));
                    j = j + 1;
                    assert(generator.diagnostics@ =~= rendered.skip(j));
                }
            }
            proof {
                assert(rendered.take(rendered.len() as int) =~= rendered);
                lemma_rendering_diags_extend(
                    self.errors@.take(i as int),
                    out_before,
                    self.errors@[i as int],
                    rendered,
                );
                assert(self.errors@.take(i as int).push(self.errors@[i as int])
                    =~= self.errors@.take(i as int + 1));
            }
        }
        proof {
            assert(self.errors@.take(n as int) =~= self.errors@);
        }
        out
    }

    /// The sorted human-facing rendering of all recorded errors: one entry
    /// per diagnostic, ordered by span start, each carrying the 1-based
    /// line number of its span's start, that source line's text, and the
    /// diagnostic's message.
    pub fn debug_error_lines(&self) -> (r: Vec<DebugLine>)
        requires
            self.source@.len() < usize::MAX,
        ensures
            exists|ds: Seq<CompilerDiagnostic>, sds: Seq<CompilerDiagnostic>|
                {
                    &&& is_rendering_diags(self.errors@, ds)
                    &&& #[trigger] sds.to_multiset() == #[trigger] ds.to_multiset()
                    &&& sorted_spans(sds)
                    &&& r@.len() == sds.len()
                    &&& forall|i: int|
                        0 <= i < sds.len() ==> debug_entry_matches(r@[i], sds[i], self.source@)
                },
    {
        let diagnostics = self.render_diagnostics();
        let ghost ds = diagnostics@;
        let diagnostics = sort_diagnostics_by_start(diagnostics);
        let ghost sds = diagnostics@;
        let mut out: Vec<DebugLine> = Vec::new();
        let n = diagnostics.len();
        for i in 0..n
            invariant
                n == diagnostics.len(),
                diagnostics@ == sds,
                self.source@.len() < usize::MAX,
                out@.len() == i,
                forall|k: int| 0 <= k < i ==> debug_entry_matches(out@[k], sds[k], self.source@),
        {
            let d = &diagnostics[i];
            let offset = if d.span.start as usize <= self.source.len() {
                d.span.start as usize
            } else {
                self.source.len()
            };
            let line_number = self.get_line(offset) + 1;
            let line = self.line_content(line_number - 1);
            out.push(DebugLine { line_number, line, message: d.message.clone() });
            proof {
                assert(out@.last().message@ == sds[i as int].message@);
                assert(debug_entry_matches(out@[i as int], sds[i as int], self.source@));
            }
        }
        out
    }
}

/// The bytes of the line starting at `pos`, up to the next line break.
fn head_line_from(v: &Vec<u8>, pos: usize) -> (r: Vec<u8>)
    requires
        pos <= v@.len(),
    ensures
        r@ == head_line(v@.skip(pos as int)),
    decreases v@.len() - pos,
{
    if pos == v.len() {
        proof {
            assert(v@.skip(pos as int) =~= Seq::<u8>::empty());
        }
        Vec::new()
    } else if v[pos] == 10 {
        Vec::new()
    } else {
        let mut rest = head_line_from(v, pos + 1);
        rest.insert(0, v[pos]);
        proof {
            assert(v@.skip(pos as int).skip(1) =~= v@.skip(pos as int + 1));
            assert(rest@ =~= seq![v@[pos as int]] + head_line(v@.skip(pos as int + 1)));
        }
        rest
    }
}

/// The position just past the first line break at or after `pos` (the end
/// of the text if there is none).
fn drop_line_from(v: &Vec<u8>, pos: usize) -> (p: usize)
    requires
        pos <= v@.len(),
    ensures
        pos <= p <= v@.len(),
        v@.skip(p as int) == drop_line(v@.skip(pos as int)),
    decreases v@.len() - pos,
{
    if pos == v.len() {
        proof {
            assert(v@.skip(pos as int) =~= Seq::<u8>::empty());
        }
        pos
    } else if v[pos] == 10 {
        proof {
            assert(v@.skip(pos as int).skip(1) =~= v@.skip(pos as int + 1));
        }
        pos + 1
    } else {
        proof {
            assert(v@.skip(pos as int).skip(1) =~= v@.skip(pos as int + 1));
        }
        drop_line_from(v, pos + 1)
    }
}

/// The `index`-th line of the text starting at `pos`.
fn line_at_from(v: &Vec<u8>, pos: usize, index: usize) -> (r: Vec<u8>)
    requires
        pos <= v@.len(),
    ensures
        r@ == line_at(v@.skip(pos as int), index as nat),
    decreases index,
{
    if index == 0 {
        let mut line = head_line_from(v, pos);
        if line.len() > 0 && line[line.len() - 1] == 13 {
            let _ = line.pop();
        }
        line
    } else {
        let p = drop_line_from(v, pos);
        line_at_from(v, p, index - 1)
    }
}

/// One entry of the human-facing debug rendering: a 1-based line number,
/// the text of that source line, and the diagnostic's message.
pub struct DebugLine {
    pub line_number: usize,
    pub line: Vec<u8>,
    pub message: String,
}

/// The diagnostics are ordered by span start.
pub open spec fn sorted_spans(s: Seq<CompilerDiagnostic>) -> bool {
    forall|i: int, j: int| 0 <= i < j < s.len() ==> s[i].span.start <= s[j].span.start
}

/// `e` is the debug entry for diagnostic `d` against source `src`: the
/// 1-based line number counts the line breaks before the span's start
/// (clamped to the source's end), and the line is that line's text.
pub open spec fn debug_entry_matches(e: DebugLine, d: CompilerDiagnostic, src: Seq<u8>) -> bool {
    let off: int = if d.span.start as int <= src.len() {
        d.span.start as int
    } else {
        src.len() as int
    };
    let ln = newline_count(src.take(off)) + 1;
    &&& e.line_number == ln
    &&& e.line@ == line_at(src, (ln - 1) as nat)
    &&& e.message@ == d.message@
}

/// `out` is the rendering of the error list `errors`, in order.
pub open spec fn is_rendering_diags(
    errors: Seq<CompilerError>,
    out: Seq<CompilerDiagnostic>,
) -> bool
    decreases errors.len(),
{
    if errors.len() == 0 {
        out.len() == 0
    } else {
        let k = error_diag_count(errors.last());
        &&& out.len() >= k
        &&& is_rendering_diags(errors.drop_last(), out.take(out.len() - k))
        &&& matches_rendering(errors.last(), out.skip(out.len() - k))
    }
}

proof fn lemma_rendering_diags_extend(
    errors: Seq<CompilerError>,
    out: Seq<CompilerDiagnostic>,
    e: CompilerError,
    d: Seq<CompilerDiagnostic>,
)
    requires
        is_rendering_diags(errors, out),
        matches_rendering(e, d),
    ensures
        is_rendering_diags(errors.push(e), out + d),
{
    let combined = out + d;
    let k = error_diag_count(e);
    assert(errors.push(e).last() == e);
    assert(errors.push(e).drop_last() =~= errors);
    assert(combined.take(combined.len() - k) =~= out);
    assert(combined.skip(combined.len() - k) =~= d);
}

/// Selection sort of diagnostics by span start, keeping the multiset of
/// entries.
fn sort_diagnostics_by_start(v: Vec<CompilerDiagnostic>) -> (r: Vec<CompilerDiagnostic>)
    ensures
        sorted_spans(r@),
        r@.to_multiset() == v@.to_multiset(),
{
    broadcast use vstd::seq_lib::group_to_multiset_ensures;

    let mut rest = v;
    let mut out: Vec<CompilerDiagnostic> = Vec::new();
    while rest.len() > 0
        invariant
            sorted_spans(out@),
            out@.to_multiset().add(rest@.to_multiset()) =~= v@.to_multiset(),
            forall|i: int, j: int|
                0 <= i < out@.len() && 0 <= j < rest@.len() ==> out@[i].span.start
                    <= rest@[j].span.start,
        decreases rest@.len(),
    {
        let mut m: usize = 0;
        let n = rest.len();
        for i in 1..n
            invariant
                n == rest@.len(),
                m < n,
                forall|j: int| 0 <= j < i ==> rest@[m as int].span.start <= rest@[j].span.start,
        {
            if rest[i].span.start < rest[m].span.start {
                m = i;
            }
        }
        let ghost rest0 = rest@;
        let ghost out0 = out@;
        let d = rest.remove(m);
        out.push(d);
        proof {
            assert(d == rest0[m as int]);
            assert(rest0.contains(d));
            rest0.to_multiset_ensures();
            out0.to_multiset_ensures();
            assert(rest@ == rest0.remove(m as int));
            assert(out@ == out0.push(d));
            assert(rest@.to_multiset() =~= rest0.to_multiset().remove(d));
            assert(out@.to_multiset() =~= out0.to_multiset().insert(d));
            assert(out@.to_multiset().add(rest@.to_multiset()) =~= out0.to_multiset().add(
                rest0.to_multiset(),
            ));
            assert(forall|j: int| 0 <= j < rest@.len() ==> rest0.contains(#[trigger] rest@[j]));
            assert(forall|j: int|
                0 <= j < rest@.len() ==> d.span.start <= #[trigger] rest@[j].span.start);
            assert(forall|i: int| 0 <= i < out0.len() ==> #[trigger] out@[i] == out0[i]);
            assert(out@.last() == d);
        }
    }
    proof {
        assert(rest@.to_multiset() =~= Multiset::<CompilerDiagnostic>::empty());
        assert(out@.to_multiset().add(Multiset::<CompilerDiagnostic>::empty())
            =~= out@.to_multiset());
    }
    out
}

/// Appending the rendering of one more error keeps the rendering relation.
proof fn lemma_rendering_extend(
    errors: Seq<CompilerError>,
    out: Seq<NapiCompilerDiagnostic>,
    e: CompilerError,
    d: Seq<CompilerDiagnostic>,
)
    requires
        is_rendering(errors, out),
        matches_rendering(e, d),
    ensures
        is_rendering(
            errors.push(e),
            out + d.map_values(|x: CompilerDiagnostic| napi_of(x)),
        ),
{
    let mapped = d.map_values(|x: CompilerDiagnostic| napi_of(x));
    let combined = out + mapped;
    let k = error_diag_count(e);
    assert(errors.push(e).last() == e);
    assert(errors.push(e).drop_last() =~= errors);
    assert(combined.len() == out.len() + k);
    assert(combined.take(combined.len() - k) =~= out);
    assert(combined.skip(combined.len() - k) =~= mapped);
}

/// The decimal rendering of an integer, with a sign for negative values.
pub open spec fn dec_int(n: int) -> Seq<char> {
    if n < 0 {
        seq!['-'] + dec_digits((-n) as nat)
    } else {
        dec_digits(n as nat)
    }
}

/// The message of a wrong-arity diagnostic.
pub open spec fn arity_message(expected: int, found: nat) -> Seq<char> {
    "expected "@ + dec_int(expected) + " arguments, but found "@ + dec_digits(found)
}

/// The message of the one (primary) diagnostic each error condition renders
/// to.
pub open spec fn error_primary_message(e: CompilerError) -> Seq<char> {
    match e {
        CompilerError::ExpectedPropertiesObject { .. } => "expected an object with parameters"@,
        CompilerError::IncorrectNumberOfArguments { expected, found, .. } => arity_message(
            expected as int,
            found as nat,
        ),
        CompilerError::ExpectedObject { .. } => "expected an object"@,
        CompilerError::SpreadPropertyNotAllowed { .. } => "spread properties are not allowed here"@,
        CompilerError::ExpectedStaticPropertyKey { .. } => "expected a static property key"@,
        CompilerError::ExpectedStringLiteral { .. } => "expected a string literal"@,
        CompilerError::OxcParsingError { message, .. } => "parsing error: "@ + message@,
    }
}

/// The span of the primary diagnostic an error condition renders to. A
/// parse error takes the span of its first label, defaulting to the
/// zero-length span at offset 0 if it has none.
pub open spec fn error_primary_span(e: CompilerError) -> Span {
    match e {
        CompilerError::ExpectedPropertiesObject { at, .. } => at,
        CompilerError::IncorrectNumberOfArguments { span, .. } => span,
        CompilerError::ExpectedObject { at } => at,
        CompilerError::SpreadPropertyNotAllowed { at } => at,
        CompilerError::ExpectedStaticPropertyKey { at } => at,
        CompilerError::ExpectedStringLiteral { at } => at,
        CompilerError::OxcParsingError { labels, .. } => if labels@.len() > 0 {
            labels@[0]
        } else {
            Span { start: 0, end: 0 }
        },
    }
}

/// How many diagnostics an error condition renders to.
pub open spec fn error_diag_count(e: CompilerError) -> nat {
    match e {
        CompilerError::ExpectedPropertiesObject { .. } => 2,
        _ => 1,
    }
}

/// `d` is a rendering of the error condition `e`: its length, messages,
/// spans, and tiers are fixed by `e`; ids are free except that a `Related`
/// diagnostic names the id of the primary diagnostic before it.
pub open spec fn matches_rendering(e: CompilerError, d: Seq<CompilerDiagnostic>) -> bool {
    &&& d.len() == error_diag_count(e)
    &&& d[0].message@ == error_primary_message(e)
    &&& d[0].span == error_primary_span(e)
    &&& d[0].tier == CompilerDiagnosticTier::Error
    &&& match e {
        CompilerError::ExpectedPropertiesObject { special_function, .. } => {
            &&& d[1].message@ == "because of this special function call"@
            &&& d[1].span == special_function
            &&& d[1].tier == CompilerDiagnosticTier::Related(d[0].id)
        },
        _ => true,
    }
}

/// The flat host-boundary image of a rendered diagnostic.
pub open spec fn napi_of(d: CompilerDiagnostic) -> NapiCompilerDiagnostic {
    NapiCompilerDiagnostic {
        message: d.message,
        span: (d.span.start, d.span.end),
        tier: d.tier,
        id: d.id,
    }
}

/// `out` is the rendering of the error list `errors`, in order, in the flat
/// host-boundary shape.
pub open spec fn is_rendering(errors: Seq<CompilerError>, out: Seq<NapiCompilerDiagnostic>) -> bool
    decreases errors.len(),
{
    if errors.len() == 0 {
        out.len() == 0
    } else {
        let k = error_diag_count(errors.last());
        &&& out.len() >= k
        &&& is_rendering(errors.drop_last(), out.take(out.len() - k))
        &&& exists|d: Seq<CompilerDiagnostic>|
            matches_rendering(errors.last(), d) && out.skip(out.len() - k) =~= d.map_values(
                |x: CompilerDiagnostic| napi_of(x),
            )
    }
}

/// Renders raw error conditions into user-facing diagnostics. Ids are drawn
/// from a random source; a `Related` diagnostic carries the id of the
/// primary diagnostic rendered just before it in the same operation.
pub struct CompilerDiagnosticGenerator {
    pub diagnostics: Vec<CompilerDiagnostic>,
}

impl Default for CompilerDiagnosticGenerator {
    fn default() -> (s: Self)
        ensures
            s.diagnostics@ == Seq::<CompilerDiagnostic>::empty(),
    {
        Self::new()
    }
}

/// A fresh diagnostic identifier from the process-wide random source.
fn fresh_diagnostic_id() -> DiagnosticId {
    DiagnosticId(rand::random::<u32>())
}

impl CompilerDiagnosticGenerator {
    pub fn new() -> (s: Self)
        ensures
            s.diagnostics@ == Seq::<CompilerDiagnostic>::empty(),
    {
        Self { diagnostics: Vec::new() }
    }

    /// Render one error condition, appending its diagnostics.
    pub fn format_error(&mut self, error: &CompilerError)
        ensures
            final(self).diagnostics@.len() == old(self).diagnostics@.len() + error_diag_count(
                *error,
            ),
            final(self).diagnostics@.take(old(self).diagnostics@.len() as int) == old(
                self,
            ).diagnostics@,
            matches_rendering(
                *error,
                final(self).diagnostics@.skip(old(self).diagnostics@.len() as int),
            ),
    {
        match error {
            CompilerError::ExpectedPropertiesObject { at, special_function } => {
                let main = fresh_diagnostic_id();
                let message: String = "expected an object with parameters".to_owned();
                self.diagnostics.push(
                    CompilerDiagnostic {
                        id: main,
                        message,
                        span: *at,
                        tier: CompilerDiagnosticTier::Error,
                    },
                );
                let related_message: String = "because of this special function call".to_owned();
                self.diagnostics.push(
                    CompilerDiagnostic {
                        id: fresh_diagnostic_id(),
                        message: related_message,
                        span: *special_function,
                        tier: CompilerDiagnosticTier::Related(main),
                    },
                );
                proof {
                    assert(final(self).diagnostics@.take(old(self).diagnostics@.len() as int)
                        =~= old(self).diagnostics@);
                }
            },
            CompilerError::IncorrectNumberOfArguments { span, expected, found } => {
                let mut message: String = "expected ".to_owned();
                if *expected >= 0 {
                    push_decimal(&mut message, *expected as u64);
                } else {
                    message.append("-");
                    proof {
                        reveal_strlit("-");
                    }
                    let magnitude: i64 = -(*expected as i64);
                    push_decimal(&mut message, magnitude as u64);
                }
                message.append(" arguments, but found ");
                push_decimal(&mut message, *found as u64);
                proof {
                    assert(message@ =~= arity_message(*expected as int, *found as nat));
                }
                self.diagnostics.push(
                    CompilerDiagnostic {
                        id: fresh_diagnostic_id(),
                        message,
                        span: *span,
                        tier: CompilerDiagnosticTier::Error,
                    },
                );
                proof {
                    assert(final(self).diagnostics@.take(old(self).diagnostics@.len() as int)
                        =~= old(self).diagnostics@);
                }
            },
            CompilerError::ExpectedObject { at } => {
                let message: String = "expected an object".to_owned();
                self.push_simple_error(message, *at);
            },
            CompilerError::SpreadPropertyNotAllowed { at } => {
                let message: String = "spread properties are not allowed here".to_owned();
                self.push_simple_error(message, *at);
            },
            CompilerError::ExpectedStaticPropertyKey { at } => {
                let message: String = "expected a static property key".to_owned();
                self.push_simple_error(message, *at);
            },
            CompilerError::ExpectedStringLiteral { at } => {
                let message: String = "expected a string literal".to_owned();
                self.push_simple_error(message, *at);
            },
            CompilerError::OxcParsingError { message, labels } => {
                let mut rendered: String = "parsing error: ".to_owned();
                rendered.append(message.as_str());
                let span = if labels.len() > 0 {
                    labels[0]
                } else {
                    Span { start: 0, end: 0 }
                };
                self.push_simple_error(rendered, span);
            },
        }
    }

    /// Append one primary diagnostic with the given message and span.
    fn push_simple_error(&mut self, message: String, span: Span)
        ensures
            final(self).diagnostics@.len() == old(self).diagnostics@.len() + 1,
            final(self).diagnostics@.take(old(self).diagnostics@.len() as int) == old(
                self,
            ).diagnostics@,
            final(self).diagnostics@.last().message == message,
            final(self).diagnostics@.last().span == span,
            final(self).diagnostics@.last().tier == CompilerDiagnosticTier::Error,
    {
        self.diagnostics.push(
            CompilerDiagnostic {
                id: fresh_diagnostic_id(),
                message,
                span,
                tier: CompilerDiagnosticTier::Error,
            },
        );
        proof {
            assert(final(self).diagnostics@.take(old(self).diagnostics@.len() as int) =~= old(
                self,
            ).diagnostics@);
        }
    }
}

} // verus!
