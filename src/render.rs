//! Rendering of plans, harnesses and capabilities as Rust source text.
use vstd::prelude::*;
use vstd::string::StringExecFns;
use crate::descriptor::{shapes_of, diagnostic_message, Diagnostic, FloatWidth, IntWidth, PrimKind, TypeDescriptor, TypeShape};
use crate::plan::{expr_model, names_model, ops_model, Draw, DerivedExpr, ExprModel, GenOp, OpModel};
use crate::extension::{ArbitraryBody, ArbitraryImpl, FieldInit};
use crate::harness::{HarnessSpec, Invocation, ParamPlan};
use crate::policy::BoundingPolicy;
use crate::text::{decimal, push_decimal};

verus! {

broadcast use vstd::std_specs::vec::group_vec_axioms;

pub open spec fn prim_text(k: PrimKind) -> Seq<char> {
    match k {
        PrimKind::Unsigned(IntWidth::W8) => "u8"@,
        PrimKind::Unsigned(IntWidth::W16) => "u16"@,
        PrimKind::Unsigned(IntWidth::W32) => "u32"@,
        PrimKind::Unsigned(IntWidth::W64) => "u64"@,
        PrimKind::Unsigned(IntWidth::W128) => "u128"@,
        PrimKind::Unsigned(IntWidth::Size) => "usize"@,
        PrimKind::Signed(IntWidth::W8) => "i8"@,
        PrimKind::Signed(IntWidth::W16) => "i16"@,
        PrimKind::Signed(IntWidth::W32) => "i32"@,
        PrimKind::Signed(IntWidth::W64) => "i64"@,
        PrimKind::Signed(IntWidth::W128) => "i128"@,
        PrimKind::Signed(IntWidth::Size) => "isize"@,
        PrimKind::Bool => "bool"@,
        PrimKind::Float(FloatWidth::F32) => "f32"@,
        PrimKind::Float(FloatWidth::F64) => "f64"@,
        PrimKind::Char => "char"@,
    }
}

pub open spec fn mut_text(m: bool) -> Seq<char> {
    if m { "mut "@ } else { Seq::empty() }
}

/// The Rust spelling of a type.
pub open spec fn type_text(t: TypeShape) -> Seq<char>
    decreases t,
{
    match t {
        TypeShape::Primitive(k) => prim_text(k),
        TypeShape::Text => "String"@,
        TypeShape::FixedArray(e, n) => "["@ + type_text(*e) + "; "@ + decimal(n as nat) + "]"@,
        TypeShape::Slice(e) => "["@ + type_text(*e) + "]"@,
        TypeShape::Tuple(es) => if es.len() == 1 {
            "("@ + types_text(es) + ",)"@
        } else {
            "("@ + types_text(es) + ")"@
        },
        TypeShape::Reference(e, m) => "&"@ + mut_text(m) + type_text(*e),
        TypeShape::RawPointer(e, m) => if m { "*mut "@ + type_text(*e) } else { "*const "@ + type_text(*e) },
        TypeShape::Sequence(e) => "Vec<"@ + type_text(*e) + ">"@,
        TypeShape::Optional(e) => "Option<"@ + type_text(*e) + ">"@,
        TypeShape::Fallible(o, e) => "Result<"@ + type_text(*o) + ", "@ + type_text(*e) + ">"@,
        TypeShape::Opaque(n) => n,
        TypeShape::Unsupported(_) => "_"@,
    }
}

/// Types separated by commas.
pub open spec fn types_text(s: Seq<TypeShape>) -> Seq<char>
    decreases s,
{
    if s.len() == 0 {
        Seq::empty()
    } else if s.len() == 1 {
        type_text(s[0])
    } else {
        types_text(s.drop_last()) + ", "@ + type_text(s.last())
    }
}

/// Names separated by commas.
pub open spec fn join_names(s: Seq<Seq<char>>) -> Seq<char>
    decreases s.len(),
{
    if s.len() == 0 {
        Seq::empty()
    } else if s.len() == 1 {
        s[0]
    } else {
        join_names(s.drop_last()) + ", "@ + s.last()
    }
}

pub open spec fn draw_text(ty: TypeShape, draw: Draw) -> Seq<char> {
    match draw {
        Draw::Any => "kani::any()"@,
        Draw::BoundedSequence(l) => {
            let elem = match ty {
                TypeShape::Sequence(e) => type_text(*e),
                _ => "_"@,
            };
            "kani::vec::any_vec::<"@ + elem + ", "@ + decimal(l as nat) + ">()"@
        },
    }
}

pub open spec fn window_text(name: Seq<char>, ty: TypeShape, window: Option<u64>) -> Seq<char> {
    match window {
        None => Seq::empty(),
        Some(w) => if ty is Primitive && ty->Primitive_0 is Signed {
            "kani::assume("@ + name + " < "@ + decimal(w as nat) + " && "@ + name + " > -"@ + decimal(w as nat) + ");\n"@
        } else {
            "kani::assume("@ + name + " < "@ + decimal(w as nat) + ");\n"@
        },
    }
}

pub open spec fn declared_text(t: Option<TypeShape>) -> Seq<char> {
    match t {
        Some(ty) => ": "@ + type_text(ty),
        None => Seq::empty(),
    }
}

/// The statements of one operation.
pub open spec fn op_text(op: OpModel) -> Seq<char>
    decreases op,
{
    match op {
        OpModel::BindSymbolic { name, ty, mutable, draw, window } =>
            "let "@ + mut_text(mutable) + name + ": "@ + type_text(ty) + " = "@ + draw_text(ty, draw) + ";\n"@
                + window_text(name, ty, window),
        OpModel::BindDerived { name, declared, mutable, expr } =>
            "let "@ + mut_text(mutable) + name + declared_text(declared) + " = "@ + expr_text(expr) + ";\n"@,
        OpModel::EmitDiagnostic(d) => "compile_error!(\""@ + diagnostic_message(d) + "\");\n"@,
    }
}

/// The statements of a plan, in order.
pub open spec fn ops_text(s: Seq<OpModel>) -> Seq<char>
    decreases s,
{
    if s.len() == 0 {
        Seq::empty()
    } else {
        ops_text(s.drop_last()) + op_text(s.last())
    }
}

pub open spec fn expr_text(e: ExprModel) -> Seq<char>
    decreases e,
{
    match e {
        ExprModel::TextFromChars(a) => "String::from_iter("@ + a + ")"@,
        ExprModel::Borrow(t, m) => "&"@ + mut_text(m) + t,
        ExprModel::SliceView(b, m) => if m {
            "kani::slice::any_slice_of_array_mut(&mut "@ + b + ")"@
        } else {
            "kani::slice::any_slice_of_array(&"@ + b + ")"@
        },
        ExprModel::TupleOf(ns) => if ns.len() == 1 {
            "("@ + join_names(ns) + ",)"@
        } else {
            "("@ + join_names(ns) + ")"@
        },
        ExprModel::PointerGenerator(t) =>
            "kani::PointerGenerator::<{ std::mem::size_of::<"@ + type_text(t) + ">() }>::new()"@,
        ExprModel::AllocatedPointer(g) => g + ".any_alloc_status().ptr"@,
        ExprModel::OptionalOf { flag, plan, value } =>
            "if "@ + flag + " {\n"@ + ops_text(plan) + "Some("@ + value + ")\n} else {\nNone\n}"@,
        ExprModel::FallibleOf { flag, ok_plan, ok, err_plan, err } =>
            "if "@ + flag + " {\n"@ + ops_text(ok_plan) + "Ok("@ + ok + ")\n} else {\n"@ + ops_text(err_plan)
                + "Err("@ + err + ")\n}"@,
    }
}

fn write_prim(out: &mut String, k: PrimKind)
    ensures
        final(out)@ == old(out)@ + prim_text(k),
{
    let s = match k {
        PrimKind::Unsigned(IntWidth::W8) => "u8",
        PrimKind::Unsigned(IntWidth::W16) => "u16",
        PrimKind::Unsigned(IntWidth::W32) => "u32",
        PrimKind::Unsigned(IntWidth::W64) => "u64",
        PrimKind::Unsigned(IntWidth::W128) => "u128",
        PrimKind::Unsigned(IntWidth::Size) => "usize",
        PrimKind::Signed(IntWidth::W8) => "i8",
        PrimKind::Signed(IntWidth::W16) => "i16",
        PrimKind::Signed(IntWidth::W32) => "i32",
        PrimKind::Signed(IntWidth::W64) => "i64",
        PrimKind::Signed(IntWidth::W128) => "i128",
        PrimKind::Signed(IntWidth::Size) => "isize",
        PrimKind::Bool => "bool",
        PrimKind::Float(FloatWidth::F32) => "f32",
        PrimKind::Float(FloatWidth::F64) => "f64",
        PrimKind::Char => "char",
    };
    out.append(s);
}

fn write_mut(out: &mut String, m: bool)
    ensures
        final(out)@ == old(out)@ + mut_text(m),
{
    if m {
        out.append("mut ");
    } else {
        assert(old(out)@ + mut_text(m) =~= old(out)@);
    }
}

/// Appends the Rust spelling of a type.
pub fn write_type(out: &mut String, t: &TypeDescriptor)
    ensures
        final(out)@ == old(out)@ + type_text(t@),
    decreases t,
{
    let ghost start = out@;
    match t {
        TypeDescriptor::Primitive(k) => write_prim(out, *k),
        TypeDescriptor::Text => out.append("String"),
        TypeDescriptor::FixedArray(e, n) => {
            out.append("[");
            write_type(out, e);
            out.append("; ");
            push_decimal(out, *n);
            out.append("]");
        },
        TypeDescriptor::Slice(e) => {
            out.append("[");
            write_type(out, e);
            out.append("]");
        },
        TypeDescriptor::Tuple(es) => {
            out.append("(");
            let ghost s = shapes_of(es@);
            let ghost mid = out@;
            let mut i: usize = 0;
            while i < es.len()
                invariant
                    *t == TypeDescriptor::Tuple(*es),
                    s == shapes_of(es@),
                    i <= es.len(),
                    out@ == mid + types_text(s.take(i as int)),
                decreases es.len() - i,
            {
                proof {
                    assert(decreases_to!(*t => (*t)->Tuple_0));
                    assert(decreases_to!((*t)->Tuple_0 => (*t)->Tuple_0[i as int]));
                    assert(s.take(i + 1).drop_last() =~= s.take(i as int));
                    assert(s.take(i + 1).last() == s[i as int]);
                }
                if i > 0 {
                    out.append(", ");
                }
                write_type(out, &es[i]);
                proof {
                    if i == 0 {
                        assert(s.take(1)[0] == s[0]);
                    }
                }
                i = i + 1;
            }
            proof {
                assert(s.take(i as int) =~= s);
            }
            if es.len() == 1 {
                out.append(",)");
            } else {
                out.append(")");
            }
        },
        TypeDescriptor::Reference(e, m) => {
            out.append("&");
            write_mut(out, *m);
            write_type(out, e);
        },
        TypeDescriptor::RawPointer(e, m) => {
            if *m {
                out.append("*mut ");
            } else {
                out.append("*const ");
            }
            write_type(out, e);
        },
        TypeDescriptor::Sequence(e) => {
            out.append("Vec<");
            write_type(out, e);
            out.append(">");
        },
        TypeDescriptor::Optional(e) => {
            out.append("Option<");
            write_type(out, e);
            out.append(">");
        },
        TypeDescriptor::Fallible(o, e) => {
            out.append("Result<");
            write_type(out, o);
            out.append(", ");
            write_type(out, e);
            out.append(">");
        },
        TypeDescriptor::Opaque(n) => out.append(n.as_str()),
        TypeDescriptor::Unsupported(_) => out.append("_"),
    }
    assert(out@ =~= start + type_text(t@));
}

/// Appends names separated by commas.
pub fn write_names(out: &mut String, names: &Vec<String>)
    ensures
        final(out)@ == old(out)@ + join_names(names_model(names@)),
{
    let ghost start = out@;
    let ghost s = names_model(names@);
    let mut i: usize = 0;
    while i < names.len()
        invariant
            s == names_model(names@),
            i <= names.len(),
            out@ == start + join_names(s.take(i as int)),
        decreases names.len() - i,
    {
        proof {
            assert(s.take(i + 1).drop_last() =~= s.take(i as int));
            assert(s.take(i + 1).last() == s[i as int]);
        }
        if i > 0 {
            out.append(", ");
        }
        out.append(names[i].as_str());
        proof {
            if i == 0 {
                assert(s.take(1)[0] == s[0]);
            }
        }
        assert(out@ =~= start + join_names(s.take(i + 1)));
        i = i + 1;
    }
    assert(s.take(i as int) =~= s);
}

fn write_window(out: &mut String, name: &String, ty: &TypeDescriptor, window: Option<u64>)
    ensures
        final(out)@ == old(out)@ + window_text(name@, ty@, window),
{
    let ghost start = out@;
    match window {
        None => {},
        Some(w) => {
            let signed = match ty {
                TypeDescriptor::Primitive(PrimKind::Signed(_)) => true,
                _ => false,
            };
            out.append("kani::assume(");
            out.append(name.as_str());
            out.append(" < ");
            push_decimal(out, w);
            if signed {
                out.append(" && ");
                out.append(name.as_str());
                out.append(" > -");
                push_decimal(out, w);
            }
            out.append(");\n");
        },
    }
    assert(out@ =~= start + window_text(name@, ty@, window));
}

fn write_draw(out: &mut String, ty: &TypeDescriptor, draw: Draw)
    ensures
        final(out)@ == old(out)@ + draw_text(ty@, draw),
{
    let ghost start = out@;
    match draw {
        Draw::Any => out.append("kani::any()"),
        Draw::BoundedSequence(l) => {
            out.append("kani::vec::any_vec::<");
            match ty {
                TypeDescriptor::Sequence(e) => write_type(out, e),
                _ => out.append("_"),
            }
            out.append(", ");
            push_decimal(out, l as u64);
            out.append(">()");
        },
    }
    assert(out@ =~= start + draw_text(ty@, draw));
}

fn write_symbolic(out: &mut String, name: &String, ty: &TypeDescriptor, mutable: bool, draw: Draw, window: Option<u64>)
    ensures
        final(out)@ == old(out)@ + op_text(OpModel::BindSymbolic { name: name@, ty: ty@, mutable, draw, window }),
{
    let ghost start = out@;
    out.append("let ");
    write_mut(out, mutable);
    out.append(name.as_str());
    out.append(": ");
    write_type(out, ty);
    out.append(" = ");
    write_draw(out, ty, draw);
    out.append(";\n");
    write_window(out, name, ty, window);
    assert(out@ =~= start + op_text(OpModel::BindSymbolic { name: name@, ty: ty@, mutable, draw, window }));
}

fn write_let(out: &mut String, name: &String, declared: &Option<TypeDescriptor>, mutable: bool)
    ensures
        final(out)@ == old(out)@ + "let "@ + mut_text(mutable) + name@ + declared_text(crate::plan::opt_shape(*declared)) + " = "@,
{
    let ghost start = out@;
    out.append("let ");
    write_mut(out, mutable);
    out.append(name.as_str());
    match declared {
        Some(t) => {
            out.append(": ");
            write_type(out, t);
        },
        None => {},
    }
    out.append(" = ");
    assert(out@ =~= start + "let "@ + mut_text(mutable) + name@ + declared_text(crate::plan::opt_shape(*declared)) + " = "@);
}

/// Appends the statements of one operation.
pub fn write_op(out: &mut String, op: &GenOp)
    ensures
        final(out)@ == old(out)@ + op_text(op@),
    decreases op,
{
    let ghost start = out@;
    match op {
        GenOp::BindSymbolic { name, ty, mutable, draw, window } => {
            write_symbolic(out, name, ty, *mutable, *draw, *window);
        },
        GenOp::BindDerived { name, declared, mutable, expr } => {
            write_let(out, name, declared, *mutable);
            let ghost mid = out@;
            write_expr(out, expr);
            out.append(";\n");
            assert(out@ =~= start + op_text(op@));
        },
        GenOp::EmitDiagnostic(d) => {
            out.append("compile_error!(\"");
            out.append(d.message());
            out.append("\");\n");
            assert(out@ =~= start + op_text(op@));
        },
    }
}

/// Appends the statements of a plan, in order.
pub fn write_ops(out: &mut String, ops: &Vec<GenOp>)
    ensures
        final(out)@ == old(out)@ + ops_text(ops_model(ops@)),
    decreases ops,
{
    let ghost start = out@;
    let ghost s = ops_model(ops@);
    let mut i: usize = 0;
    while i < ops.len()
        invariant
            s == ops_model(ops@),
            i <= ops.len(),
            out@ == start + ops_text(s.take(i as int)),
        decreases ops.len() - i,
    {
        proof {
            assert(decreases_to!(*ops => ops[i as int]));
            assert(s.take(i + 1).drop_last() =~= s.take(i as int));
            assert(s.take(i + 1).last() == s[i as int]);
        }
        write_op(out, &ops[i]);
        assert(out@ =~= start + ops_text(s.take(i + 1)));
        i = i + 1;
    }
    assert(s.take(i as int) =~= s);
}

fn write_expr(out: &mut String, e: &DerivedExpr)
    ensures
        final(out)@ == old(out)@ + expr_text(expr_model(*e)),
    decreases e,
{
    let ghost start = out@;
    match e {
        DerivedExpr::TextFromChars(a) => {
            out.append("String::from_iter(");
            out.append(a.as_str());
            out.append(")");
        },
        DerivedExpr::Borrow(t, m) => {
            out.append("&");
            write_mut(out, *m);
            out.append(t.as_str());
        },
        DerivedExpr::SliceView(b, m) => {
            if *m {
                out.append("kani::slice::any_slice_of_array_mut(&mut ");
            } else {
                out.append("kani::slice::any_slice_of_array(&");
            }
            out.append(b.as_str());
            out.append(")");
        },
        DerivedExpr::TupleOf(ns) => {
            out.append("(");
            write_names(out, ns);
            if ns.len() == 1 {
                out.append(",)");
            } else {
                out.append(")");
            }
        },
        DerivedExpr::PointerGenerator(t) => {
            out.append("kani::PointerGenerator::<{ std::mem::size_of::<");
            write_type(out, t);
            out.append(">() }>::new()");
        },
        DerivedExpr::AllocatedPointer(g) => {
            out.append(g.as_str());
            out.append(".any_alloc_status().ptr");
        },
        DerivedExpr::OptionalOf { flag, plan, value } => {
            out.append("if ");
            out.append(flag.as_str());
            out.append(" {\n");
            write_ops(out, plan);
            out.append("Some(");
            out.append(value.as_str());
            out.append(")\n} else {\nNone\n}");
        },
        DerivedExpr::FallibleOf { flag, ok_plan, ok, err_plan, err } => {
            out.append("if ");
            out.append(flag.as_str());
            out.append(" {\n");
            write_ops(out, ok_plan);
            out.append("Ok(");
            out.append(ok.as_str());
            out.append(")\n} else {\n");
            write_ops(out, err_plan);
            out.append("Err(");
            out.append(err.as_str());
            out.append(")\n}");
        },
    }
    assert(out@ =~= start + expr_text(expr_model(*e)));
}

/// The statements of a plan, in order.
pub fn plan_text(ops: &Vec<GenOp>) -> (r: String)
    ensures
        r@ == ops_text(ops_model(ops@)),
{
    let mut out = String::new();
    write_ops(&mut out, ops);
    assert(out@ =~= ops_text(ops_model(ops@)));
    out
}

/// The statements of the plans of several parameters, in order.
pub open spec fn params_text(ps: Seq<ParamPlan>) -> Seq<char>
    decreases ps.len(),
{
    if ps.len() == 0 {
        Seq::empty()
    } else {
        params_text(ps.drop_last()) + ops_text(ops_model(ps.last().plan@))
    }
}

pub open spec fn receiver_text(r: Option<String>) -> Seq<char> {
    match r {
        Some(x) => x@ + "."@,
        None => Seq::empty(),
    }
}

/// The call expression of an invocation.
pub open spec fn call_text(inv: Invocation) -> Seq<char> {
    receiver_text(inv.receiver) + inv.target@ + "("@ + join_names(names_model(inv.args@)) + ")"@
}

/// The source text of a harness: a procedure compiled only for the model checker,
/// whose body is the parameters' plans followed by the invocation.
pub open spec fn harness_text(p: BoundingPolicy, h: HarnessSpec) -> Seq<char> {
    "#[cfg(kani)]\n#[kani::proof]\n#[kani::unwind("@ + decimal(p.unwind as nat) + ")]\npub fn "@ + h.harness_name@
        + "() {\n"@ + params_text(h.params@) + "let _ = "@ + call_text(h.invocation) + ";\n}\n"@
}

pub open spec fn fields_text(fs: Seq<FieldInit>) -> Seq<char>
    decreases fs.len(),
{
    if fs.len() == 0 {
        Seq::empty()
    } else {
        let f = fs.last();
        fields_text(fs.drop_last()) + f.field@ + ": {\n"@ + ops_text(ops_model(f.plan@)) + f.field@ + "\n},\n"@
    }
}

pub open spec fn body_text(b: ArbitraryBody) -> Seq<char> {
    match b {
        ArbitraryBody::Fields(fs) => "Self {\n"@ + fields_text(fs@) + "}\n"@,
        ArbitraryBody::Constructor(h) => params_text(h.params@) + "Self::"@ + h.invocation.target@ + "("@
            + join_names(names_model(h.invocation.args@)) + ")\n"@,
    }
}

/// The source text of an arbitrary-value capability, compiled only for the model checker.
pub open spec fn arbitrary_text(a: ArbitraryImpl) -> Seq<char> {
    "#[cfg(kani)]\nimpl kani::Arbitrary for "@ + a.target_type@ + " {\nfn any() -> Self {\n"@ + body_text(a.body)
        + "}\n}\n"@
}

fn write_params(out: &mut String, ps: &Vec<ParamPlan>)
    ensures
        final(out)@ == old(out)@ + params_text(ps@),
{
    let ghost start = out@;
    let mut i: usize = 0;
    while i < ps.len()
        invariant
            i <= ps.len(),
            out@ == start + params_text(ps@.take(i as int)),
        decreases ps.len() - i,
    {
        proof {
            assert(ps@.take(i + 1).drop_last() =~= ps@.take(i as int));
            assert(ps@.take(i + 1).last() == ps@[i as int]);
        }
        write_ops(out, &ps[i].plan);
        assert(out@ =~= start + params_text(ps@.take(i + 1)));
        i = i + 1;
    }
    assert(ps@.take(i as int) =~= ps@);
}

fn write_call_args(out: &mut String, target: &String, args: &Vec<String>)
    ensures
        final(out)@ == old(out)@ + target@ + "("@ + join_names(names_model(args@)) + ")"@,
{
    let ghost start = out@;
    out.append(target.as_str());
    out.append("(");
    write_names(out, args);
    out.append(")");
    assert(out@ =~= start + target@ + "("@ + join_names(names_model(args@)) + ")"@);
}

/// The source text of a harness.
pub fn render_harness(policy: &BoundingPolicy, h: &HarnessSpec) -> (r: String)
    ensures
        r@ == harness_text(*policy, *h),
{
    let mut out = String::from_str("#[cfg(kani)]\n#[kani::proof]\n#[kani::unwind(");
    push_decimal(&mut out, policy.unwind as u64);
    out.append(")]\npub fn ");
    out.append(h.harness_name.as_str());
    out.append("() {\n");
    write_params(&mut out, &h.params);
    out.append("let _ = ");
    let ghost before_call = out@;
    match &h.invocation.receiver {
        Some(x) => {
            out.append(x.as_str());
            out.append(".");
        },
        None => {},
    }
    assert(out@ =~= before_call + receiver_text(h.invocation.receiver));
    write_call_args(&mut out, &h.invocation.target, &h.invocation.args);
    out.append(";\n}\n");
    assert(out@ =~= harness_text(*policy, *h));
    out
}

fn write_fields(out: &mut String, fs: &Vec<FieldInit>)
    ensures
        final(out)@ == old(out)@ + fields_text(fs@),
{
    let ghost start = out@;
    let mut i: usize = 0;
    while i < fs.len()
        invariant
            i <= fs.len(),
            out@ == start + fields_text(fs@.take(i as int)),
        decreases fs.len() - i,
    {
        proof {
            assert(fs@.take(i + 1).drop_last() =~= fs@.take(i as int));
            assert(fs@.take(i + 1).last() == fs@[i as int]);
        }
        let f = &fs[i];
        out.append(f.field.as_str());
        out.append(": {\n");
        write_ops(out, &f.plan);
        out.append(f.field.as_str());
        out.append("\n},\n");
        assert(out@ =~= start + fields_text(fs@.take(i + 1)));
        i = i + 1;
    }
    assert(fs@.take(i as int) =~= fs@);
}

/// The source text of an arbitrary-value capability.
pub fn render_arbitrary(a: &ArbitraryImpl) -> (r: String)
    ensures
        r@ == arbitrary_text(*a),
{
    let mut out = String::from_str("#[cfg(kani)]\nimpl kani::Arbitrary for ");
    out.append(a.target_type.as_str());
    out.append(" {\nfn any() -> Self {\n");
    let ghost before_body = out@;
    match &a.body {
        ArbitraryBody::Fields(fs) => {
            out.append("Self {\n");
            write_fields(&mut out, fs);
            out.append("}\n");
        },
        ArbitraryBody::Constructor(h) => {
            write_params(&mut out, &h.params);
            out.append("Self::");
            out.append(h.invocation.target.as_str());
            out.append("(");
            write_names(&mut out, &h.invocation.args);
            out.append(")\n");
        },
    }
    assert(out@ =~= before_body + body_text(a.body));
    out.append("}\n}\n");
    assert(out@ =~= arbitrary_text(*a));
    out
}

/// The source text of a diagnostic, emitted in place of generated code.
pub fn render_diagnostic(d: Diagnostic) -> (r: String)
    ensures
        r@ == op_text(OpModel::EmitDiagnostic(d)),
{
    let mut out = String::from_str("compile_error!(\"");
    out.append(d.message());
    out.append("\");\n");
    assert(out@ =~= op_text(OpModel::EmitDiagnostic(d)));
    out
}

} // verus!
