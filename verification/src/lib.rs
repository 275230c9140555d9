//! A source-to-source transform pass for framework route registration.
//!
//! The pass scans a parsed program for calls to recognized "magic" functions
//! (identified by import provenance, not by name), validates each call's
//! shape, hoists selected call arguments into new top-level exported
//! bindings, records a discovery for each hoisted binding, and renders
//! diagnostics for malformed calls. Parsing source text into a tree,
//! resolving identifiers to symbols, and printing the tree back to text are
//! the front-end's and back-end's work; this crate owns the transform logic
//! over a tree model whose nodes carry byte-offset spans and resolved
//! symbol identities.

pub mod ast;
pub mod numeral;
pub mod options;
pub mod route;
pub mod state;

use vstd::prelude::*;

use crate::ast::{CallExpression, Expression, ImportDeclaration, Program, Span, Statement};
use crate::route::{exit_call_rel, handle_route_rel, is_recognized};
use crate::state::{
    is_rendering, table_after_import, CompilerError, CompilerState, Discovery, MagicFunction,
    NapiCompilerDiagnostic, Target,
};

verus! {

broadcast use vstd::std_specs::hash::group_hash_axioms;

/// The traversal pass: per-session compiler state together with the
/// top-level declarations staged by the hoister, inserted once traversal
/// of the whole program completes.
pub struct DiscoveryTraverser {
    pub state: CompilerState,
    pub declarations_to_add: Vec<Statement>,
}

impl DiscoveryTraverser {
    /// The neutral callee a transformed call is left with: a no-argument,
    /// no-body closure, so the call site keeps evaluating to a harmless
    /// no-op.
    pub fn create_empty_iife(&self) -> (r: Expression)
        ensures
            r == (Expression::EmptyArrowFunction { span: Span { start: 0, end: 0 } }),
    {
        Expression::EmptyArrowFunction { span: Span { start: 0, end: 0 } }
    }

    /// Flush the staged declarations into the program body: the
    /// most-recently-staged statement is appended first, so staging order
    /// is reversed in the output.
    pub fn exit_program(&mut self, node: &mut Program)
        ensures
            final(node).body@ == old(node).body@ + old(self).declarations_to_add@.reverse(),
            final(self).declarations_to_add@.len() == 0,
            final(self).state == old(self).state,
    {
        let ghost st = old(self).declarations_to_add@;
        while self.declarations_to_add.len() > 0
            invariant
                self.declarations_to_add@.len() <= st.len(),
                self.declarations_to_add@ =~= st.take(self.declarations_to_add@.len() as int),
                node.body@ =~= old(node).body@ + st.skip(
                    self.declarations_to_add@.len() as int,
                ).reverse(),
                self.state == old(self).state,
            decreases self.declarations_to_add@.len(),
        {
            let ghost k = self.declarations_to_add@.len() as int;
            let declaration = self.declarations_to_add.pop().unwrap();
            node.body.push(declaration);
            proof {
                assert(st.take(k).drop_last() =~= st.take(k - 1));
                assert(declaration == st.take(k).last());
                assert(declaration == st[k - 1]);
                assert(st.skip(k - 1).reverse() =~= st.skip(k).reverse().push(st[k - 1])) by {
                    assert(st.skip(k - 1).reverse().len() == st.len() - k + 1);
                    assert forall|i: int| 0 <= i < st.len() - k + 1 implies #[trigger] st.skip(
                        k - 1,
                    ).reverse()[i] == st.skip(k).reverse().push(st[k - 1])[i] by {
                        assert(st.skip(k - 1).reverse()[i] == st.skip(k - 1)[st.len() - k - i]);
                        assert(st.skip(k - 1)[st.len() - k - i] == st[st.len() - 1 - i]);
                        if i < st.len() - k {
                            assert(st.skip(k).reverse()[i] == st.skip(k)[st.len() - k - 1 - i]);
                        }
                    };
                };
                assert(node.body@ =~= old(node).body@ + st.skip(k - 1).reverse());
            }
        }
        proof {
            assert(st.skip(0) =~= st);
        }
    }

    /// Visit an import declaration: classify each specifier, look it up in
    /// the static registry, and on a hit record the local symbol's magic
    /// kind in the session table. Unmatched imports are silently ordinary.
    pub fn enter_import_declaration(&mut self, node: &ImportDeclaration)
        ensures
            final(self).state.magic_function_table@ == table_after_import(
                old(self).state.magic_function_table@,
                node.source@,
                match node.specifiers {
                    Some(specifiers) => specifiers@,
                    None => Seq::empty(),
                },
            ),
            final(self).state.target == old(self).state.target,
            final(self).state.errors == old(self).state.errors,
            final(self).state.source == old(self).state.source,
            final(self).state.discoveries == old(self).state.discoveries,
            final(self).declarations_to_add == old(self).declarations_to_add,
    {
        match &node.specifiers {
            Some(specifiers) => {
                let ghost all = specifiers@;
                let ghost t0 = self.state.magic_function_table@;
                let n = specifiers.len();
                for i in 0..n
                    invariant
                        n == all.len(),
                        specifiers@ == all,
                        self.state.magic_function_table@ == table_after_import(
                            t0,
                            node.source@,
                            all.take(i as int),
                        ),
                        self.state.target == old(self).state.target,
                        self.state.errors == old(self).state.errors,
                        self.state.source == old(self).state.source,
                        self.state.discoveries == old(self).state.discoveries,
                        self.declarations_to_add == old(self).declarations_to_add,
                {
                    let specifier = &specifiers[i];
                    let name = specifier.name.clone();
                    let magic_function = MagicFunction::from_import(node.source.as_str(), name);
                    proof {
                        assert(all.take(i + 1).drop_last() =~= all.take(i as int));
                        assert(all.take(i + 1).last() == all[i as int]);
                    }
                    match magic_function {
                        Some(magic_function) => {
                            let symbol_id = specifier.local_symbol;
                            self.state.magic_function_table.insert(symbol_id, magic_function);
                        },
                        None => {},
                    }
                }
                proof {
                    assert(all.take(all.len() as int) =~= all);
                }
            },
            None => {},
        }
    }

    /// What visiting one top-level statement does: an import declaration
    /// feeds the magic-function table and passes through unchanged; a call
    /// statement is visited as a call expression; anything else passes
    /// through with no effect at all.
    pub open spec fn stmt_rel(
        t0: DiscoveryTraverser,
        t1: DiscoveryTraverser,
        pre: Statement,
        post: Statement,
    ) -> bool {
        match pre {
            Statement::ImportDeclaration(d) => {
                &&& post == pre
                &&& t1.state.magic_function_table@ == table_after_import(
                    t0.state.magic_function_table@,
                    d.source@,
                    match d.specifiers {
                        Some(specifiers) => specifiers@,
                        None => Seq::empty(),
                    },
                )
                &&& t1.state.target == t0.state.target
                &&& t1.state.errors == t0.state.errors
                &&& t1.state.source == t0.state.source
                &&& t1.state.discoveries == t0.state.discoveries
                &&& t1.declarations_to_add == t0.declarations_to_add
            },
            Statement::CallStatement(c) => match post {
                Statement::CallStatement(c2) => exit_call_rel(t0, c, t1, c2),
                _ => false,
            },
            _ => post == pre && t1 == t0,
        }
    }

    /// What one traversal over a statement list does, statement by
    /// statement, from traverser `t0` to traverser `t1`.
    pub open spec fn body_rel(
        pre: Seq<Statement>,
        post: Seq<Statement>,
        t0: DiscoveryTraverser,
        t1: DiscoveryTraverser,
    ) -> bool
        decreases pre.len(),
    {
        if pre.len() == 0 {
            post.len() == 0 && t1 == t0
        } else {
            &&& post.len() == pre.len()
            &&& exists|tm: DiscoveryTraverser|
                #[trigger] Self::stmt_rel(tm, t1, pre.last(), post.last()) && Self::body_rel(
                    pre.drop_last(),
                    post.drop_last(),
                    t0,
                    tm,
                )
        }
    }

    /// Visit a call expression on the way out of its subtree. The callee
    /// must be a plain identifier whose resolved symbol is in the session's
    /// magic-function table; any other callee is ignored with no side
    /// effect at all.
    pub fn exit_call_expression(&mut self, node: &mut CallExpression)
        ensures
            exit_call_rel(*old(self), *old(node), *final(self), *final(node)),
    {
        let magic = match &node.callee {
            Expression::Identifier { symbol: Some(s), .. } => {
                match self.state.magic_function_table.get(s) {
                    Some(magic_function) => Some(*magic_function),
                    None => None,
                }
            },
            _ => None,
        };
        match magic {
            Some(MagicFunction::Route) => {
                self.handle_route_function(node);
            },
            None => {
                proof {
                    assert(!is_recognized(old(self).state, old(node).callee));
                }
            },
        }
    }
}

/// A fresh traverser at the start of a compile call: client target, the
/// front-end's parse errors already recorded, and everything else empty.
pub open spec fn is_initial_traverser(
    t: DiscoveryTraverser,
    source: Vec<u8>,
    parse_errors: Seq<CompilerError>,
) -> bool {
    &&& t.state.target == Target::Client
    &&& t.state.errors@ == parse_errors
    &&& t.state.magic_function_table@ == Map::<crate::ast::SymbolId, MagicFunction>::empty()
    &&& t.state.source == source
    &&& t.state.discoveries@ == Seq::<Discovery>::empty()
    &&& t.declarations_to_add@ == Seq::<Statement>::empty()
}

/// What a compile call hands back to the host: the printed transformed
/// source, the discoveries in traversal order, and the rendered
/// diagnostics.
pub struct CompileResult {
    pub source: String,
    pub discoveries: Vec<Discovery>,
    pub diagnostics: Vec<NapiCompilerDiagnostic>,
}

/// One compilation session over a parsed program: record the front-end's
/// parse errors, traverse the body exactly once (feeding the import
/// resolver and the call detector), flush the staged hoisted declarations
/// onto the program's end in reverse staging order, and render all
/// accumulated error conditions. Returns the discoveries in traversal
/// order and the rendered diagnostics; no malformed call ever aborts the
/// session.
pub fn compile(source: Vec<u8>, parse_errors: Vec<CompilerError>, program: &mut Program) -> (r: (
    Vec<Discovery>,
    Vec<NapiCompilerDiagnostic>,
))
    ensures
        exists|t0: DiscoveryTraverser, t1: DiscoveryTraverser, mid: Seq<Statement>|
            {
                &&& is_initial_traverser(t0, source, parse_errors@)
                &&& #[trigger] DiscoveryTraverser::body_rel(old(program).body@, mid, t0, t1)
                &&& final(program).body@ == mid + t1.declarations_to_add@.reverse()
                &&& r.0 == t1.state.discoveries
                &&& is_rendering(t1.state.errors@, r.1@)
            },
{
    let ghost pe = parse_errors@;
    let mut parse_errors = parse_errors;
    let mut state = CompilerState::new(Target::Client, source);
    while parse_errors.len() > 0
        invariant
            state.errors@ + parse_errors@ =~= pe,
            state.target == Target::Client,
            state.magic_function_table@ == Map::<crate::ast::SymbolId, MagicFunction>::empty(),
            state.source == source,
            state.discoveries@ == Seq::<Discovery>::empty(),
        decreases parse_errors@.len(),
    {
        let error = parse_errors.remove(0);
        state.add_error(error);
    }
    let mut traverser = DiscoveryTraverser { state, declarations_to_add: Vec::new() };
    let ghost t0 = traverser;
    proof {
        assert(is_initial_traverser(t0, source, pe));
    }
    let ghost pre_body = program.body@;
    let mut new_body: Vec<Statement> = Vec::new();
    let ghost k: int = 0;
    while program.body.len() > 0
        invariant
            0 <= k <= pre_body.len(),
            program.body@ =~= pre_body.skip(k),
            DiscoveryTraverser::body_rel(pre_body.take(k), new_body@, t0, traverser),
        decreases program.body@.len(),
    {
        let ghost tm = traverser;
        let ghost prev_new = new_body@;
        let statement = program.body.remove(0);
        proof {
            assert(statement == pre_body[k]);
        }
        match statement {
            Statement::ImportDeclaration(declaration) => {
                traverser.enter_import_declaration(&declaration);
                new_body.push(Statement::ImportDeclaration(declaration));
            },
            Statement::CallStatement(mut call) => {
                traverser.exit_call_expression(&mut call);
                new_body.push(Statement::CallStatement(call));
            },
            other => {
                new_body.push(other);
            },
        }
        proof {
            assert(DiscoveryTraverser::stmt_rel(tm, traverser, pre_body[k], new_body@.last()));
            assert(pre_body.take(k + 1).drop_last() =~= pre_body.take(k));
            assert(pre_body.take(k + 1).last() == pre_body[k]);
            assert(new_body@.drop_last() =~= prev_new);
            assert(DiscoveryTraverser::body_rel(pre_body.take(k + 1), new_body@, t0, traverser));
            k = k + 1;
            assert(program.body@ =~= pre_body.skip(k));
        }
    }
    proof {
        assert(pre_body.take(pre_body.len() as int) =~= pre_body);
    }
    program.body = new_body;
    let ghost t1 = traverser;
    let ghost mid = program.body@;
    traverser.exit_program(program);
    let diagnostics = traverser.state.get_diagnostics();
    (traverser.state.discoveries, diagnostics)
}

/// One traversal step only appends to the error list.
proof fn lemma_stmt_rel_errors_extend(
    t0: DiscoveryTraverser,
    t1: DiscoveryTraverser,
    pre: Statement,
    post: Statement,
)
    requires
        DiscoveryTraverser::stmt_rel(t0, t1, pre, post),
    ensures
        t1.state.errors@.len() >= t0.state.errors@.len(),
        t1.state.errors@.take(t0.state.errors@.len() as int) == t0.state.errors@,
{
    let n = t0.state.errors@.len() as int;
    match pre {
        Statement::CallStatement(c) => {
            match post {
                Statement::CallStatement(c2) => {
                    if is_recognized(t0.state, c.callee) {
                        if c.arguments@.len() != 2 {
                            assert(t1.state.errors@.take(n) =~= t0.state.errors@);
                        } else {
                            match c.arguments@[1] {
                                Expression::ObjectExpression { .. } => {
                                    assert(t1.state.errors@.take(n) =~= t0.state.errors@);
                                },
                                _ => {
                                    assert(t1.state.errors@.take(n) =~= t0.state.errors@);
                                },
                            }
                        }
                    } else {
                        assert(t1.state.errors@.take(n) =~= t0.state.errors@);
                    }
                },
                _ => {
                    assert(false);
                },
            }
        },
        _ => {
            assert(t1.state.errors@.take(n) =~= t0.state.errors@);
        },
    }
}

/// A whole traversal only appends to the error list.
proof fn lemma_body_rel_errors_extend(
    pre: Seq<Statement>,
    post: Seq<Statement>,
    t0: DiscoveryTraverser,
    t1: DiscoveryTraverser,
)
    requires
        DiscoveryTraverser::body_rel(pre, post, t0, t1),
    ensures
        t1.state.errors@.len() >= t0.state.errors@.len(),
        t1.state.errors@.take(t0.state.errors@.len() as int) == t0.state.errors@,
    decreases pre.len(),
{
    if pre.len() == 0 {
    } else {
        let tm = choose|tm: DiscoveryTraverser|
            #[trigger] DiscoveryTraverser::stmt_rel(tm, t1, pre.last(), post.last())
                && DiscoveryTraverser::body_rel(pre.drop_last(), post.drop_last(), t0, tm);
        lemma_body_rel_errors_extend(pre.drop_last(), post.drop_last(), t0, tm);
        lemma_stmt_rel_errors_extend(tm, t1, pre.last(), post.last());
        let a = t0.state.errors@.len() as int;
        let m = tm.state.errors@.len() as int;
        assert(t1.state.errors@.take(a) =~= t1.state.errors@.take(m).take(a));
    }
}

/// Everything a traversal stages for the hoist flush is an exported
/// constant.
proof fn lemma_body_rel_staged_exports(
    pre: Seq<Statement>,
    post: Seq<Statement>,
    t0: DiscoveryTraverser,
    t1: DiscoveryTraverser,
)
    requires
        DiscoveryTraverser::body_rel(pre, post, t0, t1),
    ensures
        t1.declarations_to_add@.len() >= t0.declarations_to_add@.len(),
        t1.declarations_to_add@.take(t0.declarations_to_add@.len() as int)
            == t0.declarations_to_add@,
        forall|i: int|
            t0.declarations_to_add@.len() <= i < t1.declarations_to_add@.len()
                ==> (#[trigger] t1.declarations_to_add@[i]) is ExportedConstant,
    decreases pre.len(),
{
    if pre.len() == 0 {
    } else {
        let tm = choose|tm: DiscoveryTraverser|
            #[trigger] DiscoveryTraverser::stmt_rel(tm, t1, pre.last(), post.last())
                && DiscoveryTraverser::body_rel(pre.drop_last(), post.drop_last(), t0, tm);
        lemma_body_rel_staged_exports(pre.drop_last(), post.drop_last(), t0, tm);
        let a = t0.declarations_to_add@.len() as int;
        let m = tm.declarations_to_add@.len() as int;
        match pre.last() {
            Statement::CallStatement(c) => {
                match post.last() {
                    Statement::CallStatement(c2) => {
                        if is_recognized(tm.state, c.callee) && c.arguments@.len() == 2 {
                            match c.arguments@[1] {
                                Expression::ObjectExpression { .. } => {
                                    assert(t1.declarations_to_add@.take(m)
                                        == tm.declarations_to_add@);
                                },
                                _ => {},
                            }
                        }
                    },
                    _ => {
                        assert(false);
                    },
                }
            },
            _ => {},
        }
        assert(t1.declarations_to_add@.take(a) =~= t1.declarations_to_add@.take(m).take(a));
        assert forall|i: int| a <= i < t1.declarations_to_add@.len() implies (
        #[trigger] t1.declarations_to_add@[i]) is ExportedConstant by {
            if i < m {
                assert(t1.declarations_to_add@[i] == tm.declarations_to_add@[i]);
            } else {
                assert(DiscoveryTraverser::stmt_rel(tm, t1, pre.last(), post.last()));
                match pre.last() {
                    Statement::CallStatement(c) => {
                        match post.last() {
                            Statement::CallStatement(c2) => {
                                if is_recognized(tm.state, c.callee) {
                                    assert(handle_route_rel(tm, c, t1, c2));
                                }
                            },
                            _ => {},
                        }
                    },
                    _ => {},
                }
            }
        };
    }
}

/// Traversing a statement list made only of exported constants changes
/// nothing at all.
proof fn lemma_exports_inert(
    b: Seq<Statement>,
    post: Seq<Statement>,
    s0: DiscoveryTraverser,
    s2: DiscoveryTraverser,
)
    requires
        DiscoveryTraverser::body_rel(b, post, s0, s2),
        forall|i: int| 0 <= i < b.len() ==> (#[trigger] b[i]) is ExportedConstant,
    ensures
        post == b,
        s2 == s0,
    decreases b.len(),
{
    if b.len() == 0 {
        assert(post =~= b);
    } else {
        let tm = choose|tm: DiscoveryTraverser|
            #[trigger] DiscoveryTraverser::stmt_rel(tm, s2, b.last(), post.last())
                && DiscoveryTraverser::body_rel(b.drop_last(), post.drop_last(), s0, tm);
        assert(b.last() == b[b.len() - 1]);
        lemma_exports_inert(b.drop_last(), post.drop_last(), s0, tm);
        assert(post =~= post.drop_last().push(post.last()));
        assert(b =~= b.drop_last().push(b.last()));
    }
}

/// Splitting a traversal over a concatenated statement list at the seam.
proof fn lemma_body_rel_split(
    a: Seq<Statement>,
    b: Seq<Statement>,
    post: Seq<Statement>,
    s0: DiscoveryTraverser,
    s2: DiscoveryTraverser,
)
    requires
        DiscoveryTraverser::body_rel(a + b, post, s0, s2),
    ensures
        exists|sm: DiscoveryTraverser|
            #[trigger] DiscoveryTraverser::body_rel(a, post.take(a.len() as int), s0, sm)
                && DiscoveryTraverser::body_rel(b, post.skip(a.len() as int), sm, s2),
    decreases b.len(),
{
    if b.len() == 0 {
        assert(a + b =~= a);
        assert(post.len() == a.len()) by {
            if a.len() > 0 {
            }
        };
        assert(post.take(a.len() as int) =~= post);
        assert(post.skip(a.len() as int) =~= Seq::<Statement>::empty());
        assert(DiscoveryTraverser::body_rel(a, post.take(a.len() as int), s0, s2));
        assert(DiscoveryTraverser::body_rel(
            b,
            post.skip(a.len() as int),
            s2,
            s2,
        ));
    } else {
        let whole = a + b;
        let tm = choose|tm: DiscoveryTraverser|
            #[trigger] DiscoveryTraverser::stmt_rel(tm, s2, whole.last(), post.last())
                && DiscoveryTraverser::body_rel(whole.drop_last(), post.drop_last(), s0, tm);
        assert(whole.drop_last() =~= a + b.drop_last());
        assert(whole.last() == b.last());
        lemma_body_rel_split(a, b.drop_last(), post.drop_last(), s0, tm);
        let sm = choose|sm: DiscoveryTraverser|
            #[trigger] DiscoveryTraverser::body_rel(
                a,
                post.drop_last().take(a.len() as int),
                s0,
                sm,
            ) && DiscoveryTraverser::body_rel(
                b.drop_last(),
                post.drop_last().skip(a.len() as int),
                sm,
                tm,
            );
        assert(post.drop_last().take(a.len() as int) =~= post.take(a.len() as int));
        let tail = post.skip(a.len() as int);
        assert(tail.len() == b.len());
        assert(tail.last() == post.last());
        assert(tail.drop_last() =~= post.drop_last().skip(a.len() as int));
        assert(DiscoveryTraverser::stmt_rel(tm, s2, b.last(), tail.last()));
        assert(DiscoveryTraverser::body_rel(b, tail, sm, s2));
    }
}

/// A second pass over the traversed statement list of an error-free run
/// changes nothing: every recognized call of the first run was neutralized,
/// every other statement passed through, and the rebuilt magic-function
/// table evolves exactly as in the first run.
proof fn lemma_second_pass_inert(
    pre: Seq<Statement>,
    mid: Seq<Statement>,
    t0: DiscoveryTraverser,
    t1: DiscoveryTraverser,
    out2: Seq<Statement>,
    u0: DiscoveryTraverser,
    u1: DiscoveryTraverser,
)
    requires
        DiscoveryTraverser::body_rel(pre, mid, t0, t1),
        t1.state.errors@ == t0.state.errors@,
        u0.state.magic_function_table@ == t0.state.magic_function_table@,
        DiscoveryTraverser::body_rel(mid, out2, u0, u1),
    ensures
        out2 == mid,
        u1.state.errors == u0.state.errors,
        u1.state.discoveries == u0.state.discoveries,
        u1.declarations_to_add == u0.declarations_to_add,
        u1.state.target == u0.state.target,
        u1.state.source == u0.state.source,
        u1.state.magic_function_table@ == t1.state.magic_function_table@,
    decreases pre.len(),
{
    if pre.len() == 0 {
        assert(out2 =~= mid);
    } else {
        let tm = choose|tm: DiscoveryTraverser|
            #[trigger] DiscoveryTraverser::stmt_rel(tm, t1, pre.last(), mid.last())
                && DiscoveryTraverser::body_rel(pre.drop_last(), mid.drop_last(), t0, tm);
        let um = choose|um: DiscoveryTraverser|
            #[trigger] DiscoveryTraverser::stmt_rel(um, u1, mid.last(), out2.last())
                && DiscoveryTraverser::body_rel(mid.drop_last(), out2.drop_last(), u0, um);
        // The first run added no errors at all, so it added none up to and
        // none at this step.
        lemma_body_rel_errors_extend(pre.drop_last(), mid.drop_last(), t0, tm);
        lemma_stmt_rel_errors_extend(tm, t1, pre.last(), mid.last());
        assert(tm.state.errors@.len() == t0.state.errors@.len());
        assert(tm.state.errors@ == t1.state.errors@.take(tm.state.errors@.len() as int));
        assert(tm.state.errors@ =~= t0.state.errors@);
        lemma_second_pass_inert(
            pre.drop_last(),
            mid.drop_last(),
            t0,
            tm,
            out2.drop_last(),
            u0,
            um,
        );
        // The last statement of the second pass changes nothing.
        match pre.last() {
            Statement::ImportDeclaration(d) => {
                assert(mid.last() == pre.last());
                assert(out2.last() == mid.last());
            },
            Statement::CallStatement(c0) => {
                match mid.last() {
                    Statement::CallStatement(c1) => {
                        if is_recognized(tm.state, c0.callee) {
                            assert(handle_route_rel(tm, c0, t1, c1));
                            if c0.arguments@.len() != 2 {
                                assert(t1.state.errors@.len() == tm.state.errors@.len() + 1);
                                assert(false);
                            } else {
                                match c0.arguments@[1] {
                                    Expression::ObjectExpression { .. } => {
                                        assert(c1.callee == (Expression::EmptyArrowFunction {
                                            span: Span { start: 0, end: 0 },
                                        }));
                                        assert(!is_recognized(um.state, c1.callee));
                                    },
                                    _ => {
                                        assert(t1.state.errors@.len() >= tm.state.errors@.len()
                                            + 1);
                                        assert(false);
                                    },
                                }
                            }
                        } else {
                            assert(c1 == c0);
                            assert(um.state.magic_function_table@
                                == tm.state.magic_function_table@);
                            assert(!is_recognized(um.state, c1.callee));
                        }
                        match out2.last() {
                            Statement::CallStatement(c2) => {
                                assert(exit_call_rel(um, c1, u1, c2));
                                assert(u1 == um && c2 == c1);
                            },
                            _ => {
                                assert(false);
                            },
                        }
                    },
                    _ => {
                        assert(false);
                    },
                }
            },
            _ => {
                assert(mid.last() == pre.last());
                assert(out2.last() == mid.last());
            },
        }
        assert(out2 =~= out2.drop_last().push(out2.last()));
        assert(mid =~= mid.drop_last().push(mid.last()));
        assert(out2 == mid);
    }
}

/// Re-compiling the traversal output of an error-free run is a fixed
/// point: the second traversal produces no discovery, no error, stages
/// nothing, and leaves every statement — the traversed originals and the
/// appended exported constants alike — exactly as it found them.
pub proof fn lemma_recompile_fixed_point(
    pre: Seq<Statement>,
    mid: Seq<Statement>,
    t0: DiscoveryTraverser,
    t1: DiscoveryTraverser,
    out2: Seq<Statement>,
    u0: DiscoveryTraverser,
    u1: DiscoveryTraverser,
)
    requires
        DiscoveryTraverser::body_rel(pre, mid, t0, t1),
        t0.declarations_to_add@.len() == 0,
        t1.state.errors@ == t0.state.errors@,
        u0.state.magic_function_table@ == t0.state.magic_function_table@,
        DiscoveryTraverser::body_rel(
            mid + t1.declarations_to_add@.reverse(),
            out2,
            u0,
            u1,
        ),
    ensures
        out2 == mid + t1.declarations_to_add@.reverse(),
        u1.state.errors == u0.state.errors,
        u1.state.discoveries == u0.state.discoveries,
        u1.declarations_to_add == u0.declarations_to_add,
{
    let staged = t1.declarations_to_add@.reverse();
    lemma_body_rel_split(mid, staged, out2, u0, u1);
    let um = choose|um: DiscoveryTraverser|
        #[trigger] DiscoveryTraverser::body_rel(mid, out2.take(mid.len() as int), u0, um)
            && DiscoveryTraverser::body_rel(staged, out2.skip(mid.len() as int), um, u1);
    lemma_second_pass_inert(pre, mid, t0, t1, out2.take(mid.len() as int), u0, um);
    lemma_body_rel_staged_exports(pre, mid, t0, t1);
    assert(forall|i: int|
        0 <= i < staged.len() ==> (#[trigger] staged[i])
            == t1.declarations_to_add@[staged.len() - 1 - i]);
    assert(forall|i: int| 0 <= i < staged.len() ==> (#[trigger] staged[i]) is ExportedConstant);
    lemma_exports_inert(staged, out2.skip(mid.len() as int), um, u1);
    assert(out2 =~= out2.take(mid.len() as int) + out2.skip(mid.len() as int));
    assert(out2 =~= mid + staged);
}

} // verus!
