//! The names that a plan binds at top level, and why they never repeat.
use vstd::prelude::*;
use crate::descriptor::TypeShape;
use crate::plan::{bound_name, OpModel};
use crate::policy::BoundingPolicy;
use crate::synth::{
    elem_name, elems_plan, first_unsupported, first_unsupported_all, lemma_first_unsupported_all_none, plan_for,
    suffixed,
};
use crate::laws::lemma_plan_binds_name;
use crate::synth::synth_model;
use crate::text::{decimal, lemma_decimal_digits, lemma_decimal_injective};

verus! {

/// The names bound at top level by the operations of a plan, in order. Names bound
/// inside the arms of an optional or fallible value are scoped to their arm.
pub open spec fn plan_names(s: Seq<OpModel>) -> Seq<Seq<char>>
    decreases s.len(),
{
    if s.len() == 0 {
        Seq::empty()
    } else {
        match bound_name(s.last()) {
            Some(x) => plan_names(s.drop_last()).push(x),
            None => plan_names(s.drop_last()),
        }
    }
}

/// Whether `x` is `n`, or `n` followed by an underscore and more.
pub open spec fn has_stem(x: Seq<char>, n: Seq<char>) -> bool {
    &&& n.len() <= x.len()
    &&& x.subrange(0, n.len() as int) == n
    &&& (x.len() == n.len() || x[n.len() as int] == '_')
}

pub proof fn lemma_plan_names_push(s: Seq<OpModel>, op: OpModel)
    ensures
        plan_names(s.push(op)) == match bound_name(op) {
            Some(x) => plan_names(s).push(x),
            None => plan_names(s),
        },
{
    assert(s.push(op).drop_last() =~= s);
}

pub proof fn lemma_plan_names_pair(a: OpModel, b: OpModel)
    requires
        bound_name(a) is Some,
        bound_name(b) is Some,
    ensures
        plan_names(seq![a, b]) == seq![bound_name(a)->0, bound_name(b)->0],
{
    lemma_plan_names_push(Seq::empty(), a);
    assert(Seq::<OpModel>::empty().push(a) =~= seq![a]);
    lemma_plan_names_push(seq![a], b);
    assert(seq![a].push(b) =~= seq![a, b]);
    assert(plan_names(Seq::<OpModel>::empty()) =~= Seq::<Seq<char>>::empty());
    assert(Seq::<Seq<char>>::empty().push(bound_name(a)->0).push(bound_name(b)->0) =~= seq![bound_name(a)->0, bound_name(b)->0]);
}

pub proof fn lemma_plan_names_concat(a: Seq<OpModel>, b: Seq<OpModel>)
    ensures
        plan_names(a + b) == plan_names(a) + plan_names(b),
    decreases b.len(),
{
    if b.len() == 0 {
        assert(a + b =~= a);
        assert(plan_names(a) + plan_names(b) =~= plan_names(a));
    } else {
        lemma_plan_names_concat(a, b.drop_last());
        assert((a + b).drop_last() =~= a + b.drop_last());
        assert((a + b).last() == b.last());
        match bound_name(b.last()) {
            Some(x) => {
                assert(plan_names(a) + plan_names(b.drop_last()).push(x)
                    =~= (plan_names(a) + plan_names(b.drop_last())).push(x));
            },
            None => {},
        }
    }
}

/// A name with a stem `n + s`, where `s` starts with an underscore, has the stem `n`
/// and is longer than `n`.
pub proof fn lemma_stem_extend(x: Seq<char>, n: Seq<char>, s: Seq<char>)
    requires
        s.len() > 0,
        s[0] == '_',
        has_stem(x, n + s),
    ensures
        has_stem(x, n),
        x.len() > n.len(),
{
    assert(x.subrange(0, n.len() as int) =~= (n + s).subrange(0, n.len() as int));
    assert((n + s).subrange(0, n.len() as int) =~= n);
    assert(x[n.len() as int] == (n + s)[n.len() as int]);
}

/// Names stemming from the names of two different tuple elements differ.
pub proof fn lemma_elem_stems_apart(x: Seq<char>, y: Seq<char>, n: Seq<char>, i: nat, j: nat)
    requires
        i != j,
        has_stem(x, elem_name(n, i)),
        has_stem(y, elem_name(n, j)),
    ensures
        x != y,
{
    reveal_strlit("_elem");
    let a = decimal(i);
    let b = decimal(j);
    let l: int = n.len() as int + 5;
    lemma_decimal_digits(i);
    lemma_decimal_digits(j);
    if x == y {
        assert(elem_name(n, i).len() == l + a.len());
        assert(elem_name(n, j).len() == l + b.len());
        if a.len() == b.len() {
            assert(elem_name(n, i) == elem_name(n, j));
            assert(a =~= elem_name(n, i).subrange(l, l + a.len()));
            assert(b =~= elem_name(n, j).subrange(l, l + b.len()));
            lemma_decimal_injective(i, j);
        } else if a.len() < b.len() {
            let q: int = l + a.len();
            assert(y[q] == elem_name(n, j)[q]);
            assert(elem_name(n, j)[q] == b[a.len() as int]);
        } else {
            let q: int = l + b.len();
            assert(x[q] == elem_name(n, i)[q]);
            assert(elem_name(n, i)[q] == a[b.len() as int]);
        }
    }
}

pub proof fn lemma_first_unsupported_all_from_each(s: Seq<TypeShape>)
    requires
        forall|i: int| 0 <= i < s.len() ==> (#[trigger] first_unsupported(s[i])) is None,
    ensures
        first_unsupported_all(s) is None,
    decreases s.len(),
{
    if s.len() > 0 {
        assert(first_unsupported(s[0]) is None);
        assert forall|i: int| 0 <= i < s.drop_first().len() implies (#[trigger] first_unsupported(s.drop_first()[i])) is None by {
            assert(s.drop_first()[i] == s[i + 1]);
        }
        lemma_first_unsupported_all_from_each(s.drop_first());
    }
}

/// The names that a plan binds at top level are pairwise distinct, and each is the
/// plan's name or that name followed by an underscore and more.
pub proof fn lemma_plan_names(p: BoundingPolicy, n: Seq<char>, d: TypeShape, m: bool)
    requires
        first_unsupported(d) is None,
    ensures
        plan_names(plan_for(p, n, d, m)).no_duplicates(),
        forall|k: int| 0 <= k < plan_names(plan_for(p, n, d, m)).len()
            ==> has_stem(#[trigger] plan_names(plan_for(p, n, d, m))[k], n),
    decreases d,
{
    let plan = plan_for(p, n, d, m);
    assert(n.subrange(0, n.len() as int) =~= n);
    match d {
        TypeShape::Tuple(es) => {
            lemma_elems_names(p, n, es, m);
            let inner = elems_plan(p, n, es, m);
            lemma_plan_names_push(inner, plan.last());
            assert(plan == inner.push(plan.last()));
            let ns = plan_names(inner);
            reveal_strlit("_elem");
            assert forall|k: int| 0 <= k < ns.len() implies has_stem(#[trigger] ns[k], n) && ns[k].len() > n.len() by {
                let i = choose|i: nat| i < es.len() && has_stem(ns[k], elem_name(n, i));
                assert(elem_name(n, i) =~= n + ("_elem"@ + decimal(i)));
                lemma_stem_extend(ns[k], n, "_elem"@ + decimal(i));
            }
        },
        TypeShape::Reference(t, rm) => {
            lemma_plan_names(p, suffixed(n, "_obj"), *t, rm);
            let inner = plan_for(p, suffixed(n, "_obj"), *t, rm);
            lemma_plan_names_push(inner, plan.last());
            assert(plan == inner.push(plan.last()));
            let ns = plan_names(inner);
            reveal_strlit("_obj");
            assert forall|k: int| 0 <= k < ns.len() implies has_stem(#[trigger] ns[k], n) && ns[k].len() > n.len() by {
                lemma_stem_extend(ns[k], n, "_obj"@);
            }
        },
        TypeShape::Text => {
            reveal_strlit("_arr");
            lemma_plan_names_pair(plan[0], plan[1]);
            assert(plan =~= seq![plan[0], plan[1]]);
            let x = suffixed(n, "_arr");
            assert(x.subrange(0, x.len() as int) =~= x);
            lemma_stem_extend(x, n, "_arr"@);
        },
        TypeShape::RawPointer(..) => {
            reveal_strlit("_gen");
            lemma_plan_names_pair(plan[0], plan[1]);
            assert(plan =~= seq![plan[0], plan[1]]);
            let x = suffixed(n, "_gen");
            assert(x.subrange(0, n.len() as int) =~= n);
        },
        TypeShape::Optional(..) => {
            reveal_strlit("_flag");
            lemma_plan_names_pair(plan[0], plan[1]);
            assert(plan =~= seq![plan[0], plan[1]]);
            let x = suffixed(n, "_flag");
            assert(x.subrange(0, n.len() as int) =~= n);
        },
        TypeShape::Fallible(..) => {
            reveal_strlit("_flag");
            lemma_plan_names_pair(plan[0], plan[1]);
            assert(plan =~= seq![plan[0], plan[1]]);
            let x = suffixed(n, "_flag");
            assert(x.subrange(0, n.len() as int) =~= n);
        },
        TypeShape::Unsupported(_) => {},
        _ => {
            lemma_plan_names_push(Seq::empty(), plan[0]);
            assert(Seq::<OpModel>::empty().push(plan[0]) =~= plan);
            assert(plan_names(plan) =~= seq![n]);
        },
    }
}

/// The names that the element plans of a tuple bind at top level are pairwise
/// distinct, and each stems from the name of one element.
pub proof fn lemma_elems_names(p: BoundingPolicy, n: Seq<char>, es: Seq<TypeShape>, m: bool)
    requires
        first_unsupported_all(es) is None,
    ensures
        plan_names(elems_plan(p, n, es, m)).no_duplicates(),
        forall|k: int| 0 <= k < plan_names(elems_plan(p, n, es, m)).len() ==> exists|i: nat|
            i < es.len() && has_stem(#[trigger] plan_names(elems_plan(p, n, es, m))[k], elem_name(n, i)),
    decreases es,
{
    if es.len() > 0 {
        let pre = es.drop_last();
        let last = (es.len() - 1) as nat;
        assert forall|i: int| 0 <= i < pre.len() implies (#[trigger] first_unsupported(pre[i])) is None by {
            lemma_first_unsupported_all_none(es, i);
        }
        lemma_first_unsupported_all_from_each(pre);
        lemma_first_unsupported_all_none(es, es.len() - 1);
        lemma_elems_names(p, n, pre, m);
        lemma_plan_names(p, elem_name(n, last), es.last(), m);
        let a = elems_plan(p, n, pre, m);
        let b = plan_for(p, elem_name(n, last), es.last(), m);
        lemma_plan_names_concat(a, b);
        let na = plan_names(a);
        let nb = plan_names(b);
        let all = na + nb;
        assert forall|x: int, y: int| 0 <= x < na.len() && 0 <= y < nb.len() implies na[x] != nb[y] by {
            let i = choose|i: nat| i < pre.len() && has_stem(na[x], elem_name(n, i));
            lemma_elem_stems_apart(na[x], nb[y], n, i, last);
        }
        assert forall|x: int, y: int| 0 <= x < all.len() && 0 <= y < all.len() && x != y implies all[x] != all[y] by {
            if x < na.len() && y >= na.len() {
                assert(all[y] == nb[y - na.len()]);
            } else if y < na.len() && x >= na.len() {
                assert(all[x] == nb[x - na.len()]);
            } else if x >= na.len() {
                assert(all[x] == nb[x - na.len()] && all[y] == nb[y - na.len()]);
            }
        }
        assert forall|k: int| 0 <= k < all.len() implies exists|i: nat|
            i < es.len() && has_stem(#[trigger] all[k], elem_name(n, i)) by {
            if k < na.len() {
                let i = choose|i: nat| i < pre.len() && has_stem(na[k], elem_name(n, i));
            } else {
                assert(all[k] == nb[k - na.len()]);
                assert(has_stem(all[k], elem_name(n, last)));
            }
        }
    }
}

/// The names that a value bound under `n` claims in a harness: those its plan binds at
/// top level, or `n` alone where its type was rejected.
pub open spec fn claimed_names(p: BoundingPolicy, n: Seq<char>, d: TypeShape, m: bool) -> Seq<Seq<char>> {
    match first_unsupported(d) {
        Some(_) => seq![n],
        None => plan_names(plan_for(p, n, d, m)),
    }
}

/// The claimed names are pairwise distinct, each stems from `n`, and the last is `n`.
pub proof fn lemma_claimed_names(p: BoundingPolicy, n: Seq<char>, d: TypeShape, m: bool)
    ensures
        claimed_names(p, n, d, m).no_duplicates(),
        claimed_names(p, n, d, m).len() > 0,
        claimed_names(p, n, d, m).last() == n,
        forall|k: int| 0 <= k < claimed_names(p, n, d, m).len() ==> has_stem(#[trigger] claimed_names(p, n, d, m)[k], n),
        forall|k: int| 0 <= k < claimed_names(p, n, d, m).len() ==> n.len() <= (#[trigger] claimed_names(p, n, d, m)[k]).len(),
{
    assert(n.subrange(0, n.len() as int) =~= n);
    if first_unsupported(d) is None {
        lemma_plan_names(p, n, d, m);
        lemma_plan_binds_name(p, n, d, m);
        let plan = plan_for(p, n, d, m);
        assert(plan == plan.drop_last().push(plan.last()));
        lemma_plan_names_push(plan.drop_last(), plan.last());
    }
}

/// The names that synthesis binds at top level are the claimed ones, or none where
/// the type was rejected.
pub proof fn lemma_synth_names(p: BoundingPolicy, n: Seq<char>, d: TypeShape, m: bool)
    ensures
        plan_names(synth_model(p, n, d, m)) == if first_unsupported(d) is None {
            claimed_names(p, n, d, m)
        } else {
            Seq::<Seq<char>>::empty()
        },
{
    if first_unsupported(d) is Some {
        let s = synth_model(p, n, d, m);
        assert(s.len() == 1);
        assert(bound_name(s.last()) is None);
        assert(s.drop_last() =~= Seq::<OpModel>::empty());
        assert(plan_names(s.drop_last()) =~= Seq::<Seq<char>>::empty());
    }
}

} // verus!
