//! The route transform: validation of a recognized call's shape, hoisting
//! of the `page` and `layout` option expressions into staged top-level
//! exports, and neutralization of the call site.

use vstd::prelude::*;

use crate::ast::{CallExpression, Expression, Span, Statement};
use crate::numeral::push_decimal;
use crate::options::OptionsMap;
use crate::state::{
    props_errors, props_map_from, strlit_errors, strlit_value, CompilerError, CompilerState,
    Discovery, RouteFrame,
};
use crate::DiscoveryTraverser;

verus! {

/// The deterministic name of the export hoisted from the expression at
/// `span`: `discovery$<start>$<end>`. Spans are unique within one tree, so
/// the names generated in one session never collide.
pub open spec fn export_name_seq(span: Span) -> Seq<char> {
    "discovery$"@ + crate::numeral::dec_digits(span.start as nat) + "$"@
        + crate::numeral::dec_digits(span.end as nat)
}

/// `st` is the staged export the hoister builds for the expression `v`: an
/// exported constant at `v`'s span, named from that span, whose
/// initializer is `v` itself.
pub open spec fn is_staged_export(st: Statement, v: Expression) -> bool {
    match st {
        Statement::ExportedConstant { span, name, init } => {
            &&& span == v.spec_span()
            &&& name@ == export_name_seq(v.spec_span())
            &&& init == v
        },
        _ => false,
    }
}

/// `d` is the discovery recorded for hoisting the expression `v` as the
/// given frame of the route at `path`.
pub open spec fn is_route_discovery(
    d: Discovery,
    frame: RouteFrame,
    path: Seq<char>,
    v: Expression,
) -> bool {
    match d {
        Discovery::Route { frame: f, path: p, export: e } => {
            &&& f == frame
            &&& p@ == path
            &&& e@ == export_name_seq(v.spec_span())
        },
    }
}

/// What handling a recognized route call does, relating the traverser and
/// the call node before and after.
///
/// - Wrong arity: one `IncorrectNumberOfArguments` error; the call subtree
///   is left completely unmodified and nothing else changes.
/// - Second argument not an object literal: the path is still read first
///   (recording `ExpectedStringLiteral` if it is not a string literal),
///   then one `ExpectedObject` error; no transform, no discoveries.
/// - Otherwise: the option map is built from the object's properties
///   (recording one error per spread element or non-static key), the
///   `page` and then `layout` values present in it are each staged as an
///   exported constant and recorded as a discovery carrying the path, and
///   the call is neutralized: its argument list emptied and its callee
///   replaced by an empty closure.
pub open spec fn handle_route_rel(
    t0: DiscoveryTraverser,
    n0: CallExpression,
    t1: DiscoveryTraverser,
    n1: CallExpression,
) -> bool {
    &&& t1.state.target == t0.state.target
    &&& t1.state.source == t0.state.source
    &&& t1.state.magic_function_table == t0.state.magic_function_table
    &&& if n0.arguments@.len() != 2 {
        &&& t1.state.errors@ == t0.state.errors@.push(
            CompilerError::IncorrectNumberOfArguments {
                span: n0.span,
                expected: 2,
                found: n0.arguments@.len() as usize,
            },
        )
        &&& t1.state.discoveries == t0.state.discoveries
        &&& t1.declarations_to_add == t0.declarations_to_add
        &&& n1 == n0
    } else {
        match n0.arguments@[1] {
            Expression::ObjectExpression { properties, .. } => {
                let opts = props_map_from(Map::empty(), properties@);
                let path = strlit_value(n0.arguments@[0]);
                let page = opts.contains_key("page"@);
                let layout = opts.contains_key("layout"@);
                let pn: int = if page {
                    1
                } else {
                    0
                };
                let ln: int = if layout {
                    1
                } else {
                    0
                };
                let d0 = t0.state.discoveries@.len() as int;
                let s0 = t0.declarations_to_add@.len() as int;
                &&& t1.state.errors@ == t0.state.errors@ + strlit_errors(n0.arguments@[0])
                    + props_errors(properties@)
                &&& t1.state.discoveries@.len() == d0 + pn + ln
                &&& t1.state.discoveries@.take(d0) == t0.state.discoveries@
                &&& t1.declarations_to_add@.len() == s0 + pn + ln
                &&& t1.declarations_to_add@.take(s0) == t0.declarations_to_add@
                &&& (page ==> is_route_discovery(
                    t1.state.discoveries@[d0],
                    RouteFrame::Page,
                    path,
                    opts["page"@],
                ) && is_staged_export(t1.declarations_to_add@[s0], opts["page"@]))
                &&& (layout ==> is_route_discovery(
                    t1.state.discoveries@[d0 + pn],
                    RouteFrame::Layout,
                    path,
                    opts["layout"@],
                ) && is_staged_export(t1.declarations_to_add@[s0 + pn], opts["layout"@]))
                &&& n1.span == n0.span
                &&& n1.arguments@.len() == 0
                &&& n1.callee == (Expression::EmptyArrowFunction {
                    span: Span { start: 0, end: 0 },
                })
            },
            _ => {
                &&& t1.state.errors@ == (t0.state.errors@ + strlit_errors(n0.arguments@[0])).push(
                    CompilerError::ExpectedObject { at: n0.arguments@[1].spec_span() },
                )
                &&& t1.state.discoveries == t0.state.discoveries
                &&& t1.declarations_to_add == t0.declarations_to_add
                &&& n1 == n0
            },
        }
    }
}

/// The callee is a plain identifier whose resolved symbol the session's
/// magic-function table holds.
pub open spec fn is_recognized(state: CompilerState, callee: Expression) -> bool {
    match callee {
        Expression::Identifier { symbol, .. } => match symbol {
            Some(s) => state.magic_function_table@.contains_key(s),
            None => false,
        },
        _ => false,
    }
}

/// What visiting a call expression does: a recognized callee is handled as
/// a route call; anything else is ignored with no side effect at all.
pub open spec fn exit_call_rel(
    t0: DiscoveryTraverser,
    n0: CallExpression,
    t1: DiscoveryTraverser,
    n1: CallExpression,
) -> bool {
    if is_recognized(t0.state, n0.callee) {
        handle_route_rel(t0, n0, t1, n1)
    } else {
        t1 == t0 && n1 == n0
    }
}

/// Generated export names never collide: distinct spans give distinct
/// names. Since spans are unique within one tree, two distinct hoisted
/// expressions — whether from one recognized call or from two — always
/// receive distinct `export` identifiers.
pub proof fn lemma_export_name_injective(a: Span, b: Span)
    requires
        export_name_seq(a) == export_name_seq(b),
    ensures
        a == b,
{
    reveal_strlit("discovery$");
    reveal_strlit("$");
    let p = "discovery$"@;
    let s = "$"@;
    assert(p.len() == 10);
    assert(s.len() == 1);
    assert(s[0] == '$');
    let a1 = crate::numeral::dec_digits(a.start as nat);
    let a2 = crate::numeral::dec_digits(a.end as nat);
    let b1 = crate::numeral::dec_digits(b.start as nat);
    let b2 = crate::numeral::dec_digits(b.end as nat);
    crate::numeral::lemma_dec_digits_are_digits(a.start as nat);
    crate::numeral::lemma_dec_digits_are_digits(a.end as nat);
    crate::numeral::lemma_dec_digits_are_digits(b.start as nat);
    crate::numeral::lemma_dec_digits_are_digits(b.end as nat);
    crate::numeral::lemma_dec_digits_len(a.start as nat);
    crate::numeral::lemma_dec_digits_len(a.end as nat);
    crate::numeral::lemma_dec_digits_len(b.start as nat);
    crate::numeral::lemma_dec_digits_len(b.end as nat);
    let whole_a = p + a1 + s + a2;
    let whole_b = p + b1 + s + b2;
    assert(whole_a == whole_b);
    assert(whole_a.len() == 10 + a1.len() + 1 + a2.len());
    assert(whole_b.len() == 10 + b1.len() + 1 + b2.len());
    // The first digit block has the same length on both sides: the
    // separator is not a digit, so it marks the block's end.
    if a1.len() < b1.len() {
        let i = 10 + a1.len() as int;
        assert(whole_a[i] == '$');
        assert(whole_b[i] == b1[a1.len() as int]);
        assert('0' <= whole_b[i] && whole_b[i] <= '9');
        assert(false);
    }
    if b1.len() < a1.len() {
        let i = 10 + b1.len() as int;
        assert(whole_b[i] == '$');
        assert(whole_a[i] == a1[b1.len() as int]);
        assert('0' <= whole_a[i] && whole_a[i] <= '9');
        assert(false);
    }
    assert(a1.len() == b1.len());
    assert(a1 =~= b1) by {
        assert(forall|j: int|
            0 <= j < a1.len() ==> #[trigger] a1[j] == whole_a[10 + j] && b1[j] == whole_b[10 + j]);
    };
    crate::numeral::lemma_dec_digits_injective(a.start as nat, b.start as nat);
    assert(a2.len() == b2.len());
    assert(a2 =~= b2) by {
        let base = 10 + a1.len() as int + 1;
        assert(forall|j: int|
            0 <= j < a2.len() ==> #[trigger] a2[j] == whole_a[base + j] && b2[j] == whole_b[base
                + j]);
    };
    crate::numeral::lemma_dec_digits_injective(a.end as nat, b.end as nat);
}

/// A call whose callee the session does not recognize — not a plain
/// identifier, an unresolved identifier, or a symbol absent from the
/// magic-function table (as for an import from an unrelated module) — is
/// left byte-for-byte unchanged and contributes no discovery and no
/// diagnostic.
pub proof fn lemma_unrecognized_call_untouched(
    t0: DiscoveryTraverser,
    n0: CallExpression,
    t1: DiscoveryTraverser,
    n1: CallExpression,
)
    requires
        exit_call_rel(t0, n0, t1, n1),
        !is_recognized(t0.state, n0.callee),
    ensures
        t1 == t0,
        n1 == n0,
{
}

/// Transforming is idempotent at the call site: once a recognized call of
/// valid shape has been handled, its callee is an empty closure, so
/// visiting the transformed call again — under any session state — changes
/// neither the session nor the call.
pub proof fn lemma_transform_idempotent(
    t0: DiscoveryTraverser,
    n0: CallExpression,
    t1: DiscoveryTraverser,
    n1: CallExpression,
    u0: DiscoveryTraverser,
    u1: DiscoveryTraverser,
    n2: CallExpression,
)
    requires
        handle_route_rel(t0, n0, t1, n1),
        n0.arguments@.len() == 2,
        n0.arguments@[1] is ObjectExpression,
        exit_call_rel(u0, n1, u1, n2),
    ensures
        u1 == u0,
        n2 == n1,
{
    assert(n1.callee == (Expression::EmptyArrowFunction { span: Span { start: 0, end: 0 } }));
    assert(!is_recognized(u0.state, n1.callee));
}

impl DiscoveryTraverser {
    /// Stage a new top-level exported constant holding `to_export`, named
    /// deterministically from its span, and return the generated name.
    /// The statement is staged, not inserted: insertion happens when
    /// traversal of the whole program completes.
    pub fn create_export(&mut self, to_export: Expression) -> (id: String)
        ensures
            id@ == export_name_seq(to_export.spec_span()),
            final(self).declarations_to_add@.len() == old(self).declarations_to_add@.len() + 1,
            final(self).declarations_to_add@.take(old(self).declarations_to_add@.len() as int)
                == old(self).declarations_to_add@,
            is_staged_export(final(self).declarations_to_add@.last(), to_export),
            final(self).state == old(self).state,
    {
        let span = to_export.span();
        let mut id: String = "discovery$".to_owned();
        push_decimal(&mut id, span.start as u64);
        id.append("$");
        push_decimal(&mut id, span.end as u64);
        proof {
            assert(id@ =~= export_name_seq(span));
        }
        let name = id.clone();
        self.declarations_to_add.push(Statement::ExportedConstant { span, name, init: to_export });
        proof {
            assert(final(self).declarations_to_add@.take(
                old(self).declarations_to_add@.len() as int,
            ) =~= old(self).declarations_to_add@);
        }
        id
    }

    /// Handle a recognized route call, per `handle_route_rel`.
    pub fn handle_route_function(&mut self, node: &mut CallExpression)
        ensures
            handle_route_rel(*old(self), *old(node), *final(self), *final(node)),
    {
        if node.arguments.len() != 2 {
            self.state.add_error(
                CompilerError::IncorrectNumberOfArguments {
                    span: node.span,
                    expected: 2,
                    found: node.arguments.len(),
                },
            );
            return ;
        }
        let route = self.state.get_literal_string(&node.arguments[0]);
        let second_is_object = match &node.arguments[1] {
            Expression::ObjectExpression { .. } => true,
            _ => false,
        };
        if !second_is_object {
            let at = node.arguments[1].span();
            self.state.add_error(CompilerError::ExpectedObject { at });
            return ;
        }
        let _first = node.arguments.remove(0);
        let second = node.arguments.remove(0);
        let mut opts = OptionsMap::new();
        self.state.get_object_keys(second, &mut opts);
        proof {
            reveal_strlit("page");
            reveal_strlit("layout");
            assert("page"@.len() == 4);
            assert("layout"@.len() == 6);
        }
        let ghost d0 = self.state.discoveries@.len() as int;
        let ghost s0 = self.declarations_to_add@.len() as int;
        let page_key: String = "page".to_owned();
        match opts.take(&page_key) {
            Some(value) => {
                let export_id = self.create_export(value);
                self.state.discoveries.push(
                    Discovery::Route {
                        frame: RouteFrame::Page,
                        path: route.clone(),
                        export: export_id,
                    },
                );
            },
            None => {},
        }
        let layout_key: String = "layout".to_owned();
        match opts.take(&layout_key) {
            Some(value) => {
                let export_id = self.create_export(value);
                self.state.discoveries.push(
                    Discovery::Route {
                        frame: RouteFrame::Layout,
                        path: route.clone(),
                        export: export_id,
                    },
                );
            },
            None => {},
        }
        node.callee = self.create_empty_iife();
        proof {
            assert(self.state.discoveries@.take(d0) =~= old(self).state.discoveries@);
            assert(self.declarations_to_add@.take(s0) =~= old(self).declarations_to_add@);
            assert(node.arguments@.len() == 0);
        }
    }
}

} // verus!
