//! The recursive generator synthesizer.
use vstd::prelude::*;
use vstd::string::StringExecFns;
use crate::descriptor::{shape_of, shapes_of, Diagnostic, IntWidth, PrimKind, TypeDescriptor, TypeShape};
use crate::plan::{
    lemma_ops_model_concat, names_model, ops_model, Draw, DerivedExpr, ExprModel, GenOp, OpModel,
};
use crate::policy::BoundingPolicy;
use crate::text::{decimal, push_decimal};

verus! {

broadcast use vstd::std_specs::vec::group_vec_axioms;

/// The largest value of an integer type.
pub open spec fn int_max(k: PrimKind) -> int {
    match k {
        PrimKind::Unsigned(IntWidth::W8) => u8::MAX as int,
        PrimKind::Unsigned(IntWidth::W16) => u16::MAX as int,
        PrimKind::Unsigned(IntWidth::W32) => u32::MAX as int,
        PrimKind::Unsigned(IntWidth::W64) => u64::MAX as int,
        PrimKind::Unsigned(IntWidth::W128) => u128::MAX as int,
        PrimKind::Unsigned(IntWidth::Size) => usize::MAX as int,
        PrimKind::Signed(IntWidth::W8) => i8::MAX as int,
        PrimKind::Signed(IntWidth::W16) => i16::MAX as int,
        PrimKind::Signed(IntWidth::W32) => i32::MAX as int,
        PrimKind::Signed(IntWidth::W64) => i64::MAX as int,
        PrimKind::Signed(IntWidth::W128) => i128::MAX as int,
        PrimKind::Signed(IntWidth::Size) => isize::MAX as int,
        _ => 0,
    }
}

/// The smallest value of an integer type.
pub open spec fn int_min(k: PrimKind) -> int {
    match k {
        PrimKind::Signed(IntWidth::W8) => i8::MIN as int,
        PrimKind::Signed(IntWidth::W16) => i16::MIN as int,
        PrimKind::Signed(IntWidth::W32) => i32::MIN as int,
        PrimKind::Signed(IntWidth::W64) => i64::MIN as int,
        PrimKind::Signed(IntWidth::W128) => i128::MIN as int,
        PrimKind::Signed(IntWidth::Size) => isize::MIN as int,
        _ => 0,
    }
}

pub open spec fn is_integer(k: PrimKind) -> bool {
    k is Unsigned || k is Signed
}

/// The range assumed of an integer binding: the policy's window where the type
/// reaches beyond it, none otherwise. A zero window admits no value and is taken as
/// no window.
pub open spec fn window_for(p: BoundingPolicy, k: PrimKind) -> Option<u64> {
    if is_integer(k) && p.int_window > 0 && int_max(k) >= p.int_window {
        Some(p.int_window)
    } else {
        None
    }
}

/// The first rejected type met in a descriptor, left to right.
pub open spec fn first_unsupported(d: TypeShape) -> Option<Diagnostic>
    decreases d,
{
    match d {
        TypeShape::Unsupported(x) => Some(x),
        TypeShape::FixedArray(e, _) => first_unsupported(*e),
        TypeShape::Slice(e) => first_unsupported(*e),
        TypeShape::Tuple(es) => first_unsupported_all(es),
        TypeShape::Reference(e, _) => first_unsupported(*e),
        TypeShape::RawPointer(e, _) => first_unsupported(*e),
        TypeShape::Sequence(e) => first_unsupported(*e),
        TypeShape::Optional(e) => first_unsupported(*e),
        TypeShape::Fallible(o, e) => match first_unsupported(*o) {
            Some(x) => Some(x),
            None => first_unsupported(*e),
        },
        _ => None,
    }
}

pub open spec fn first_unsupported_all(s: Seq<TypeShape>) -> Option<Diagnostic>
    decreases s,
{
    if s.len() == 0 {
        None
    } else {
        match first_unsupported(s[0]) {
            Some(x) => Some(x),
            None => first_unsupported_all(s.drop_first()),
        }
    }
}

pub open spec fn suffixed(n: Seq<char>, suffix: &str) -> Seq<char> {
    n + suffix@
}

/// The name of the `i`-th element of a tuple bound to `n`.
pub open spec fn elem_name(n: Seq<char>, i: nat) -> Seq<char> {
    n + "_elem"@ + decimal(i)
}

pub open spec fn elem_names(n: Seq<char>, k: nat) -> Seq<Seq<char>> {
    Seq::new(k, |i: int| elem_name(n, i as nat))
}

/// The plan for a descriptor with no rejected part.
pub open spec fn plan_for(p: BoundingPolicy, n: Seq<char>, d: TypeShape, m: bool) -> Seq<OpModel>
    decreases d,
{
    match d {
        TypeShape::Primitive(k) => seq![
            OpModel::BindSymbolic { name: n, ty: d, mutable: m, draw: Draw::Any, window: window_for(p, k) },
        ],
        TypeShape::Text => seq![
            OpModel::BindSymbolic {
                name: suffixed(n, "_arr"),
                ty: TypeShape::FixedArray(Box::new(TypeShape::Primitive(PrimKind::Char)), p.string_limit as u64),
                mutable: false,
                draw: Draw::Any,
                window: None,
            },
            OpModel::BindDerived {
                name: n,
                declared: Some(d),
                mutable: m,
                expr: ExprModel::TextFromChars(suffixed(n, "_arr")),
            },
        ],
        TypeShape::Slice(e) => seq![
            OpModel::BindSymbolic {
                name: n,
                ty: TypeShape::FixedArray(e, p.seq_limit as u64),
                mutable: m,
                draw: Draw::Any,
                window: None,
            },
        ],
        TypeShape::Tuple(es) => elems_plan(p, n, es, m).push(
            OpModel::BindDerived {
                name: n,
                declared: Some(d),
                mutable: m,
                expr: ExprModel::TupleOf(elem_names(n, es.len())),
            },
        ),
        // The referent takes the reference's own mutability; the reference binding
        // itself is never rebound, so it takes none.
        TypeShape::Reference(t, rm) => plan_for(p, suffixed(n, "_obj"), *t, rm).push(
            OpModel::BindDerived {
                name: n,
                declared: Some(d),
                mutable: false,
                expr: if (*t) is Slice {
                    ExprModel::SliceView(suffixed(n, "_obj"), rm)
                } else {
                    ExprModel::Borrow(suffixed(n, "_obj"), rm)
                },
            },
        ),
        TypeShape::RawPointer(t, _) => seq![
            OpModel::BindDerived {
                name: suffixed(n, "_gen"),
                declared: None,
                mutable: true,
                expr: ExprModel::PointerGenerator(*t),
            },
            OpModel::BindDerived {
                name: n,
                declared: Some(d),
                mutable: m,
                expr: ExprModel::AllocatedPointer(suffixed(n, "_gen")),
            },
        ],
        TypeShape::Sequence(_) => seq![
            OpModel::BindSymbolic { name: n, ty: d, mutable: m, draw: Draw::BoundedSequence(p.seq_limit), window: None },
        ],
        TypeShape::Optional(t) => seq![
            OpModel::BindSymbolic {
                name: suffixed(n, "_flag"),
                ty: TypeShape::Primitive(PrimKind::Bool),
                mutable: false,
                draw: Draw::Any,
                window: None,
            },
            OpModel::BindDerived {
                name: n,
                declared: Some(d),
                mutable: m,
                expr: ExprModel::OptionalOf {
                    flag: suffixed(n, "_flag"),
                    plan: plan_for(p, suffixed(n, "_some"), *t, m),
                    value: suffixed(n, "_some"),
                },
            },
        ],
        TypeShape::Fallible(o, e) => seq![
            OpModel::BindSymbolic {
                name: suffixed(n, "_flag"),
                ty: TypeShape::Primitive(PrimKind::Bool),
                mutable: false,
                draw: Draw::Any,
                window: None,
            },
            OpModel::BindDerived {
                name: n,
                declared: Some(d),
                mutable: m,
                expr: ExprModel::FallibleOf {
                    flag: suffixed(n, "_flag"),
                    ok_plan: plan_for(p, suffixed(n, "_ok"), *o, m),
                    ok: suffixed(n, "_ok"),
                    err_plan: plan_for(p, suffixed(n, "_err"), *e, m),
                    err: suffixed(n, "_err"),
                },
            },
        ],
        TypeShape::Unsupported(x) => seq![OpModel::EmitDiagnostic(x)],
        // Fixed arrays and opaque types are drawn whole.
        _ => seq![OpModel::BindSymbolic { name: n, ty: d, mutable: m, draw: Draw::Any, window: None }],
    }
}

/// The plans of the elements of a tuple bound to `n`, concatenated in order.
pub open spec fn elems_plan(p: BoundingPolicy, n: Seq<char>, es: Seq<TypeShape>, m: bool) -> Seq<OpModel>
    decreases es,
{
    if es.len() == 0 {
        Seq::empty()
    } else {
        elems_plan(p, n, es.drop_last(), m) + plan_for(p, elem_name(n, (es.len() - 1) as nat), es.last(), m)
    }
}

/// The number of synthesis steps a descriptor takes: one for itself and those of
/// the parts it synthesizes on their own (tuple elements, referents, and the arms of
/// optional and fallible values). Arrays, slices, sequences and pointees are drawn or
/// named whole.
pub open spec fn synth_calls(d: TypeShape) -> nat
    decreases d,
{
    match d {
        TypeShape::Tuple(es) => 1 + calls_all(es),
        TypeShape::Reference(t, _) => 1 + synth_calls(*t),
        TypeShape::Optional(t) => 1 + synth_calls(*t),
        TypeShape::Fallible(o, e) => 1 + synth_calls(*o) + synth_calls(*e),
        _ => 1,
    }
}

pub open spec fn calls_all(s: Seq<TypeShape>) -> nat
    decreases s,
{
    if s.len() == 0 {
        0
    } else {
        calls_all(s.drop_last()) + synth_calls(s.last())
    }
}

/// The plan that synthesis yields: a single diagnostic where any part of the
/// descriptor was rejected, the plan of the descriptor otherwise.
pub open spec fn synth_model(p: BoundingPolicy, n: Seq<char>, d: TypeShape, m: bool) -> Seq<OpModel> {
    match first_unsupported(d) {
        Some(x) => seq![OpModel::EmitDiagnostic(x)],
        None => plan_for(p, n, d, m),
    }
}

/// Where no element of a sequence has a rejected part, neither has any one of them.
pub proof fn lemma_first_unsupported_all_none(s: Seq<TypeShape>, i: int)
    requires
        first_unsupported_all(s) is None,
        0 <= i < s.len(),
    ensures
        first_unsupported(s[i]) is None,
    decreases s.len(),
{
    if i > 0 {
        lemma_first_unsupported_all_none(s.drop_first(), i - 1);
    }
}

proof fn lemma_first_unsupported_all_step(s: Seq<TypeShape>, i: int)
    requires
        0 <= i < s.len(),
        first_unsupported(s[i]) is None,
    ensures
        first_unsupported_all(s.subrange(i, s.len() as int))
            == first_unsupported_all(s.subrange(i + 1, s.len() as int)),
{
    let t = s.subrange(i, s.len() as int);
    assert(t[0] == s[i]);
    assert(t.drop_first() =~= s.subrange(i + 1, s.len() as int));
}

fn suffix_name(n: &String, suffix: &str) -> (r: String)
    ensures
        r@ == suffixed(n@, suffix),
{
    n.clone().concat(suffix)
}

fn elem_name_text(n: &String, i: usize) -> (r: String)
    ensures
        r@ == elem_name(n@, i as nat),
{
    let mut s = n.clone().concat("_elem");
    push_decimal(&mut s, i as u64);
    s
}

/// The first rejected type met in a descriptor, left to right.
pub fn find_unsupported(d: &TypeDescriptor) -> (r: Option<Diagnostic>)
    ensures
        r == first_unsupported(d@),
    decreases d,
{
    match d {
        TypeDescriptor::Unsupported(x) => Some(*x),
        TypeDescriptor::FixedArray(e, _) => find_unsupported(e),
        TypeDescriptor::Slice(e) => find_unsupported(e),
        TypeDescriptor::Tuple(es) => {
            let ghost s = shapes_of(es@);
            assert(s.subrange(0, s.len() as int) =~= s);
            let mut i: usize = 0;
            while i < es.len()
                invariant
                    *d == TypeDescriptor::Tuple(*es),
                    s == shapes_of(es@),
                    i <= es.len(),
                    first_unsupported_all(s) == first_unsupported_all(s.subrange(i as int, s.len() as int)),
                decreases es.len() - i,
            {
                proof {
                    assert(decreases_to!(*d => (*d)->Tuple_0));
                    assert(decreases_to!((*d)->Tuple_0 => (*d)->Tuple_0[i as int]));
                }
                let r = find_unsupported(&es[i]);
                match r {
                    Some(x) => {
                        proof {
                            let t = s.subrange(i as int, s.len() as int);
                            assert(t[0] == s[i as int]);
                        }
                        return Some(x);
                    },
                    None => {
                        proof { lemma_first_unsupported_all_step(s, i as int); }
                    },
                }
                i = i + 1;
            }
            proof {
                assert(s.subrange(i as int, s.len() as int) =~= Seq::<TypeShape>::empty());
            }
            None
        },
        TypeDescriptor::Reference(e, _) => find_unsupported(e),
        TypeDescriptor::RawPointer(e, _) => find_unsupported(e),
        TypeDescriptor::Sequence(e) => find_unsupported(e),
        TypeDescriptor::Optional(e) => find_unsupported(e),
        TypeDescriptor::Fallible(o, e) => match find_unsupported(o) {
            Some(x) => Some(x),
            None => find_unsupported(e),
        },
        _ => None,
    }
}

fn window_of(p: &BoundingPolicy, k: PrimKind) -> (r: Option<u64>)
    ensures
        r == window_for(*p, k),
{
    let w = p.int_window;
    let reaches = match k {
        PrimKind::Unsigned(IntWidth::W8) => w <= 255,
        PrimKind::Unsigned(IntWidth::W16) => w <= 65535,
        PrimKind::Unsigned(IntWidth::W32) => w <= 4294967295,
        PrimKind::Unsigned(IntWidth::W64) => true,
        PrimKind::Unsigned(IntWidth::W128) => true,
        PrimKind::Unsigned(IntWidth::Size) => (w as u128) <= (usize::MAX as u128),
        PrimKind::Signed(IntWidth::W8) => w <= 127,
        PrimKind::Signed(IntWidth::W16) => w <= 32767,
        PrimKind::Signed(IntWidth::W32) => w <= 2147483647,
        PrimKind::Signed(IntWidth::W64) => w <= 9223372036854775807,
        PrimKind::Signed(IntWidth::W128) => true,
        PrimKind::Signed(IntWidth::Size) => (w as u128) <= (isize::MAX as u128),
        _ => false,
    };
    if reaches && w > 0 {
        Some(w)
    } else {
        None
    }
}

fn symbolic(n: String, ty: TypeDescriptor, m: bool, draw: Draw, window: Option<u64>) -> (r: GenOp)
    ensures
        r@ == (OpModel::BindSymbolic { name: n@, ty: ty@, mutable: m, draw, window }),
{
    GenOp::BindSymbolic { name: n, ty, mutable: m, draw, window }
}

fn derived(n: String, declared: Option<TypeDescriptor>, m: bool, expr: DerivedExpr) -> (r: GenOp)
    ensures
        r@ == (OpModel::BindDerived {
            name: n@,
            declared: crate::plan::opt_shape(declared),
            mutable: m,
            expr: crate::plan::expr_model(expr),
        }),
{
    GenOp::BindDerived { name: n, declared, mutable: m, expr }
}

/// Builds the plan for a descriptor with no rejected part. The ghost result counts
/// the invocations of this function that the build made, this one included: one for
/// the descriptor and those for the parts it synthesizes on their own.
pub fn build_plan(p: &BoundingPolicy, n: &String, d: &TypeDescriptor, m: bool) -> (r: (Vec<GenOp>, Ghost<nat>))
    requires
        first_unsupported(d@) is None,
    ensures
        ops_model(r.0@) == plan_for(*p, n@, d@, m),
        r.1@ == synth_calls(d@),
    decreases d,
{
    let ghost mut calls: nat = 1;
    let r = match d {
        TypeDescriptor::Primitive(k) => {
            let op = symbolic(n.clone(), d.copy(), m, Draw::Any, window_of(p, *k));
            let r = vec![op];
            assert(ops_model(r@) =~= plan_for(*p, n@, d@, m));
            r
        },
        TypeDescriptor::Text => {
            let arr = suffix_name(n, "_arr");
            let arr_ty = TypeDescriptor::FixedArray(
                Box::new(TypeDescriptor::Primitive(PrimKind::Char)),
                p.string_limit as u64,
            );
            assert(shape_of(TypeDescriptor::Primitive(PrimKind::Char)) == TypeShape::Primitive(PrimKind::Char));
            let first = symbolic(arr.clone(), arr_ty, false, Draw::Any, None);
            let second = derived(n.clone(), Some(TypeDescriptor::Text), m, DerivedExpr::TextFromChars(arr));
            let r = vec![first, second];
            assert(ops_model(r@) =~= plan_for(*p, n@, d@, m));
            r
        },
        TypeDescriptor::Slice(e) => {
            let arr_ty = TypeDescriptor::FixedArray(Box::new(e.copy()), p.seq_limit as u64);
            let r = vec![symbolic(n.clone(), arr_ty, m, Draw::Any, None)];
            assert(ops_model(r@) =~= plan_for(*p, n@, d@, m));
            r
        },
        TypeDescriptor::Tuple(es) => {
            let ghost s = shapes_of(es@);
            let mut ops: Vec<GenOp> = Vec::new();
            let mut names: Vec<String> = Vec::new();
            let mut i: usize = 0;
            while i < es.len()
                invariant
                    *d == TypeDescriptor::Tuple(*es),
                    s == shapes_of(es@),
                    first_unsupported_all(s) is None,
                    i <= es.len(),
                    ops_model(ops@) == elems_plan(*p, n@, s.take(i as int), m),
                    names.len() == i,
                    names_model(names@) == elem_names(n@, i as nat),
                    calls == 1 + calls_all(s.take(i as int)),
                decreases es.len() - i,
            {
                proof {
                    assert(decreases_to!(*d => (*d)->Tuple_0));
                    assert(decreases_to!((*d)->Tuple_0 => (*d)->Tuple_0[i as int]));
                    lemma_first_unsupported_all_none(s, i as int);
                }
                let elem = elem_name_text(n, i);
                let (mut sub, c) = build_plan(p, &elem, &es[i], m);
                proof {
                    calls = calls + c@;
                    lemma_ops_model_concat(ops@, sub@);
                    assert(s.take(i + 1).drop_last() =~= s.take(i as int));
                    assert(s.take(i + 1).last() == s[i as int]);
                }
                ops.append(&mut sub);
                let ghost prev = names@;
                let ghost e = elem;
                names.push(elem);
                proof {
                    assert(names@ == prev.push(e) && e@ == elem_name(n@, i as nat));
                    assert forall|j: int| 0 <= j < i + 1 implies #[trigger] names_model(names@)[j] == elem_names(n@, (i + 1) as nat)[j] by {
                        if j < i {
                            assert(names_model(prev)[j] == elem_names(n@, i as nat)[j]);
                        }
                    }
                    assert(names_model(names@) =~= elem_names(n@, (i + 1) as nat));
                }
                i = i + 1;
            }
            proof {
                assert(s.take(i as int) =~= s);
            }
            let op = derived(n.clone(), Some(d.copy()), m, DerivedExpr::TupleOf(names));
            proof {
                lemma_ops_model_concat(ops@, seq![op]);
            }
            ops.push(op);
            proof {
                assert(ops_model(ops@) =~= plan_for(*p, n@, d@, m));
            }
            ops
        },
        TypeDescriptor::Reference(t, rm) => {
            let obj = suffix_name(n, "_obj");
            let (mut ops, c) = build_plan(p, &obj, t, *rm);
            proof {
                calls = calls + c@;
            }
            let expr = match &**t {
                TypeDescriptor::Slice(_) => DerivedExpr::SliceView(obj, *rm),
                _ => DerivedExpr::Borrow(obj, *rm),
            };
            let op = derived(n.clone(), Some(d.copy()), false, expr);
            proof {
                lemma_ops_model_concat(ops@, seq![op]);
            }
            ops.push(op);
            proof {
                assert(ops_model(ops@) =~= plan_for(*p, n@, d@, m));
            }
            ops
        },
        TypeDescriptor::RawPointer(t, _) => {
            let generator = suffix_name(n, "_gen");
            let first = derived(generator.clone(), None, true, DerivedExpr::PointerGenerator(t.copy()));
            let second = derived(n.clone(), Some(d.copy()), m, DerivedExpr::AllocatedPointer(generator));
            let r = vec![first, second];
            assert(ops_model(r@) =~= plan_for(*p, n@, d@, m));
            r
        },
        TypeDescriptor::Sequence(_) => {
            let r = vec![symbolic(n.clone(), d.copy(), m, Draw::BoundedSequence(p.seq_limit), None)];
            assert(ops_model(r@) =~= plan_for(*p, n@, d@, m));
            r
        },
        TypeDescriptor::Optional(t) => {
            let flag = suffix_name(n, "_flag");
            let value = suffix_name(n, "_some");
            let (plan, c) = build_plan(p, &value, t, m);
            proof {
                calls = calls + c@;
            }
            let first = symbolic(flag.clone(), TypeDescriptor::Primitive(PrimKind::Bool), false, Draw::Any, None);
            let second = derived(n.clone(), Some(d.copy()), m, DerivedExpr::OptionalOf { flag, plan, value });
            let r = vec![first, second];
            assert(ops_model(r@) =~= plan_for(*p, n@, d@, m));
            r
        },
        TypeDescriptor::Fallible(o, e) => {
            let flag = suffix_name(n, "_flag");
            let ok = suffix_name(n, "_ok");
            let err = suffix_name(n, "_err");
            let (ok_plan, c_ok) = build_plan(p, &ok, o, m);
            let (err_plan, c_err) = build_plan(p, &err, e, m);
            proof {
                calls = calls + c_ok@ + c_err@;
            }
            let first = symbolic(flag.clone(), TypeDescriptor::Primitive(PrimKind::Bool), false, Draw::Any, None);
            let second = derived(
                n.clone(),
                Some(d.copy()),
                m,
                DerivedExpr::FallibleOf { flag, ok_plan, ok, err_plan, err },
            );
            let r = vec![first, second];
            assert(ops_model(r@) =~= plan_for(*p, n@, d@, m));
            r
        },
        TypeDescriptor::Unsupported(x) => {
            let r = vec![GenOp::EmitDiagnostic(*x)];
            assert(ops_model(r@) =~= plan_for(*p, n@, d@, m));
            r
        },
        _ => {
            let r = vec![symbolic(n.clone(), d.copy(), m, Draw::Any, None)];
            assert(ops_model(r@) =~= plan_for(*p, n@, d@, m));
            r
        },
    };
    (r, Ghost(calls))
}

/// Synthesizes the generator plan for a value named `name` of the type `d`,
/// bound with the given mutability.
pub fn synthesize(policy: &BoundingPolicy, name: &str, d: &TypeDescriptor, mutable: bool) -> (r: Vec<GenOp>)
    ensures
        ops_model(r@) == synth_model(*policy, name@, d@, mutable),
{
    match find_unsupported(d) {
        Some(x) => {
            let r = vec![GenOp::EmitDiagnostic(x)];
            assert(ops_model(r@) =~= synth_model(*policy, name@, d@, mutable));
            r
        },
        None => {
            let n = String::from_str(name);
            let (r, _) = build_plan(policy, &n, d, mutable);
            r
        },
    }
}

} // verus!
