//! Laws of synthesis, stated over the plan model and proved.
use vstd::prelude::*;
use crate::descriptor::{PrimKind, TypeShape};
use crate::plan::{bound_name, bound_type, ops_model, Draw, GenOp, OpModel};
use crate::render::ops_text;
use crate::policy::BoundingPolicy;
use crate::synth::{
    calls_all, elem_name, elems_plan, first_unsupported, first_unsupported_all, int_max, int_min,
    is_integer, lemma_first_unsupported_all_none, plan_for, synth_calls, synth_model, window_for,
};

verus! {

/// Whether `v` is a value of the integer type `k`.
pub open spec fn in_domain(k: PrimKind, v: int) -> bool {
    int_min(k) <= v <= int_max(k)
}

/// Whether `v` satisfies the range assumed with window `w` for a binding of type `k`.
pub open spec fn in_window(k: PrimKind, w: u64, v: int) -> bool {
    if k is Signed {
        -(w as int) < v < w as int
    } else {
        v < w as int
    }
}

/// The plan of a descriptor with no rejected part ends with an operation that binds
/// the requested name.
pub proof fn lemma_plan_binds_name(p: BoundingPolicy, n: Seq<char>, d: TypeShape, m: bool)
    requires
        first_unsupported(d) is None,
    ensures
        plan_for(p, n, d, m).len() > 0,
        bound_name(plan_for(p, n, d, m).last()) == Some(n),
{
}

/// Type preservation: for every descriptor with no rejected part, other than a bare
/// slice (which has no values of its own and is drawn as its bounded backing array),
/// the plan ends with a binding of the requested name whose declared type is the
/// descriptor itself.
pub proof fn lemma_type_preservation(p: BoundingPolicy, n: Seq<char>, d: TypeShape, m: bool)
    requires
        first_unsupported(d) is None,
        !(d is Slice),
    ensures
        synth_model(p, n, d, m).len() > 0,
        bound_name(synth_model(p, n, d, m).last()) == Some(n),
        bound_type(synth_model(p, n, d, m).last()) == Some(d),
{
}

/// A bare slice is drawn as its backing array of the policy's sequence limit, under
/// the requested name.
pub proof fn lemma_slice_backing(p: BoundingPolicy, n: Seq<char>, e: TypeShape, m: bool)
    requires
        first_unsupported(e) is None,
    ensures
        synth_model(p, n, TypeShape::Slice(Box::new(e)), m) == seq![
            OpModel::BindSymbolic {
                name: n,
                ty: TypeShape::FixedArray(Box::new(e), p.seq_limit as u64),
                mutable: m,
                draw: Draw::Any,
                window: None,
            },
        ],
{
}

/// Range assumption: a primitive binding is a single symbolic draw. An integer type
/// that reaches the policy's window gets the window as its assumed range; that range
/// holds of some value of the type (zero) and excludes another (the window itself), so
/// it is satisfiable and strictly narrower than the type. Narrower integer types,
/// booleans, floats and characters get no assumption, and neither does any type under
/// a zero window.
pub proof fn lemma_range_assumption(p: BoundingPolicy, n: Seq<char>, k: PrimKind, m: bool)
    ensures
        synth_model(p, n, TypeShape::Primitive(k), m) == seq![
            OpModel::BindSymbolic {
                name: n,
                ty: TypeShape::Primitive(k),
                mutable: m,
                draw: Draw::Any,
                window: window_for(p, k),
            },
        ],
        window_for(p, k) is Some <==> (is_integer(k) && p.int_window > 0 && int_max(k) >= p.int_window),
        !is_integer(k) ==> window_for(p, k) is None,
        window_for(p, k) is Some ==> {
            let w = window_for(p, k)->0;
            &&& in_domain(k, 0) && in_window(k, w, 0)
            &&& in_domain(k, w as int) && !in_window(k, w, w as int)
        },
{
}

/// The position in the plan of a tuple at which its `i`-th element is finally bound.
pub open spec fn elem_end(p: BoundingPolicy, n: Seq<char>, es: Seq<TypeShape>, m: bool, i: int) -> int {
    elems_plan(p, n, es.take(i + 1), m).len() - 1
}

proof fn lemma_elems_prefix(p: BoundingPolicy, n: Seq<char>, es: Seq<TypeShape>, m: bool, k: int)
    requires
        0 <= k <= es.len(),
    ensures
        elems_plan(p, n, es.take(k), m).len() <= elems_plan(p, n, es, m).len(),
        elems_plan(p, n, es, m).take(elems_plan(p, n, es.take(k), m).len() as int)
            == elems_plan(p, n, es.take(k), m),
    decreases es.len(),
{
    if k == es.len() {
        assert(es.take(k) =~= es);
        assert(elems_plan(p, n, es, m).take(elems_plan(p, n, es, m).len() as int)
            =~= elems_plan(p, n, es, m));
    } else {
        let pre = es.drop_last();
        assert(pre.take(k) =~= es.take(k));
        lemma_elems_prefix(p, n, pre, m, k);
        let a = elems_plan(p, n, pre, m);
        let b = plan_for(p, elem_name(n, (es.len() - 1) as nat), es.last(), m);
        let len = elems_plan(p, n, es.take(k), m).len() as int;
        assert((a + b).take(len) =~= a.take(len));
    }
}

proof fn lemma_elems_step(p: BoundingPolicy, n: Seq<char>, es: Seq<TypeShape>, m: bool, i: int)
    requires
        0 <= i < es.len(),
    ensures
        elems_plan(p, n, es.take(i + 1), m)
            == elems_plan(p, n, es.take(i), m) + plan_for(p, elem_name(n, i as nat), es[i], m),
{
    assert(es.take(i + 1).drop_last() =~= es.take(i));
    assert(es.take(i + 1).last() == es[i]);
}

proof fn lemma_elems_grow(p: BoundingPolicy, n: Seq<char>, es: Seq<TypeShape>, m: bool, i: int, j: int)
    requires
        first_unsupported_all(es) is None,
        0 <= i < j <= es.len(),
    ensures
        elems_plan(p, n, es.take(i), m).len() < elems_plan(p, n, es.take(j), m).len(),
    decreases j - i,
{
    lemma_elems_step(p, n, es, m, j - 1);
    lemma_first_unsupported_all_none(es, j - 1);
    lemma_plan_binds_name(p, elem_name(n, (j - 1) as nat), es[j - 1], m);
    if i < j - 1 {
        lemma_elems_grow(p, n, es, m, i, j - 1);
    }
}

/// Assembly order of tuples: the plan of a tuple of `k` elements ends with one derived
/// binding of the tuple, whose expression names exactly `k` element bindings, in the
/// declared order; each of them is bound earlier in the plan, and they are bound in
/// that same order.
pub proof fn lemma_tuple_order(p: BoundingPolicy, n: Seq<char>, es: Seq<TypeShape>, m: bool)
    requires
        first_unsupported(TypeShape::Tuple(es)) is None,
    ensures
        ({
            let plan = synth_model(p, n, TypeShape::Tuple(es), m);
            &&& plan.len() > 0
            &&& plan.last() is BindDerived
            &&& plan.last()->BindDerived_expr is TupleOf
            &&& plan.last()->BindDerived_expr->TupleOf_0.len() == es.len()
            &&& forall|i: int| 0 <= i < es.len() ==> {
                let name = #[trigger] plan.last()->BindDerived_expr->TupleOf_0[i];
                &&& name == elem_name(n, i as nat)
                &&& 0 <= elem_end(p, n, es, m, i) < plan.len() - 1
                &&& bound_name(plan[elem_end(p, n, es, m, i)]) == Some(name)
            }
            &&& forall|i: int, j: int| 0 <= i < j < es.len()
                ==> #[trigger] elem_end(p, n, es, m, i) < #[trigger] elem_end(p, n, es, m, j)
        }),
{
    let plan = synth_model(p, n, TypeShape::Tuple(es), m);
    let all = elems_plan(p, n, es, m);
    assert(plan == all.push(plan.last()));
    assert forall|i: int| 0 <= i < es.len() implies {
        let name = #[trigger] plan.last()->BindDerived_expr->TupleOf_0[i];
        &&& name == elem_name(n, i as nat)
        &&& 0 <= elem_end(p, n, es, m, i) < plan.len() - 1
        &&& bound_name(plan[elem_end(p, n, es, m, i)]) == Some(name)
    } by {
        lemma_first_unsupported_all_none(es, i);
        lemma_elems_step(p, n, es, m, i);
        lemma_plan_binds_name(p, elem_name(n, i as nat), es[i], m);
        lemma_elems_prefix(p, n, es, m, i + 1);
        let upto = elems_plan(p, n, es.take(i + 1), m);
        assert(upto.last() == plan_for(p, elem_name(n, i as nat), es[i], m).last());
        assert(all.take(upto.len() as int) == upto);
        assert(all[upto.len() - 1] == upto[upto.len() - 1]);
    }
    assert forall|i: int, j: int| 0 <= i < j < es.len()
        implies #[trigger] elem_end(p, n, es, m, i) < #[trigger] elem_end(p, n, es, m, j) by {
        lemma_elems_grow(p, n, es, m, i + 1, j + 1);
    }
}

/// Determinism: two plans synthesized for the same name, descriptor and mutability
/// under the same policy are the same plan, and render to the same text.
pub proof fn lemma_determinism(
    p: BoundingPolicy,
    n: Seq<char>,
    d: TypeShape,
    m: bool,
    first: Seq<GenOp>,
    second: Seq<GenOp>,
)
    requires
        ops_model(first) == synth_model(p, n, d, m),
        ops_model(second) == synth_model(p, n, d, m),
    ensures
        ops_model(first) == ops_model(second),
        ops_text(ops_model(first)) == ops_text(ops_model(second)),
{
}

/// The number of nodes of a descriptor tree.
pub open spec fn node_count(d: TypeShape) -> nat
    decreases d,
{
    match d {
        TypeShape::FixedArray(e, _) => 1 + node_count(*e),
        TypeShape::Slice(e) => 1 + node_count(*e),
        TypeShape::Tuple(es) => 1 + nodes_all(es),
        TypeShape::Reference(e, _) => 1 + node_count(*e),
        TypeShape::RawPointer(e, _) => 1 + node_count(*e),
        TypeShape::Sequence(e) => 1 + node_count(*e),
        TypeShape::Optional(e) => 1 + node_count(*e),
        TypeShape::Fallible(o, e) => 1 + node_count(*o) + node_count(*e),
        _ => 1,
    }
}

pub open spec fn nodes_all(s: Seq<TypeShape>) -> nat
    decreases s,
{
    if s.len() == 0 {
        0
    } else {
        nodes_all(s.drop_last()) + node_count(s.last())
    }
}

/// Termination: synthesis of a descriptor takes one step for the descriptor and one
/// for each part that it synthesizes on its own, and no more steps than the
/// descriptor tree has nodes; it recurses only into strictly smaller parts.
pub proof fn lemma_synthesis_steps(d: TypeShape)
    ensures
        1 <= synth_calls(d) <= node_count(d),
    decreases d,
{
    match d {
        TypeShape::Tuple(es) => lemma_steps_all(es),
        TypeShape::Reference(t, _) => lemma_synthesis_steps(*t),
        TypeShape::Optional(t) => lemma_synthesis_steps(*t),
        TypeShape::Fallible(o, e) => {
            lemma_synthesis_steps(*o);
            lemma_synthesis_steps(*e);
        },
        _ => {},
    }
}

proof fn lemma_steps_all(s: Seq<TypeShape>)
    ensures
        calls_all(s) <= nodes_all(s),
    decreases s,
{
    if s.len() > 0 {
        lemma_steps_all(s.drop_last());
        lemma_synthesis_steps(s.last());
    }
}

} // verus!
