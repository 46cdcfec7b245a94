//! Generator plans: ordered operations that produce one bounded arbitrary value.
use vstd::prelude::*;
use crate::descriptor::{Diagnostic, TypeDescriptor, TypeShape};

verus! {

broadcast use vstd::std_specs::vec::group_vec_axioms;

/// Where the value of a symbolic binding comes from.
#[derive(Clone, Copy, Debug, PartialEq, Eq, Structural)]
pub enum Draw {
    /// An unconstrained value of the bound type.
    Any,
    /// A sequence of at most this many arbitrary elements.
    BoundedSequence(usize),
}

/// One operation of a generator plan.
#[derive(Debug, PartialEq, Eq)]
pub enum GenOp {
    /// Introduces `name`, holding an arbitrary value of `ty`; where `window` is
    /// `Some(w)`, the value is assumed to lie strictly between `-w` and `w`.
    BindSymbolic { name: String, ty: TypeDescriptor, mutable: bool, draw: Draw, window: Option<u64> },
    /// Introduces `name`, computed from names bound before it. `declared` is `None`
    /// where the bound value has no descriptor (a pointer generator).
    BindDerived { name: String, declared: Option<TypeDescriptor>, mutable: bool, expr: DerivedExpr },
    /// Stops synthesis for the parameter with a fixed diagnostic.
    EmitDiagnostic(Diagnostic),
}

/// The expression of a derived binding.
#[derive(Debug, PartialEq, Eq)]
pub enum DerivedExpr {
    /// A text value collected from a bound array of characters.
    TextFromChars(String),
    /// A reference to a bound value, with its mutability.
    Borrow(String, bool),
    /// A slice of bounded length carved out of a bound backing array, with its mutability.
    SliceView(String, bool),
    /// A tuple of bound values, in order.
    TupleOf(Vec<String>),
    /// A generator of pointers sized to the pointee type.
    PointerGenerator(TypeDescriptor),
    /// A pointer with an arbitrary allocation status, drawn from a bound generator.
    AllocatedPointer(String),
    /// `Some(value)` after `plan` where the bound flag holds, `None` otherwise.
    OptionalOf { flag: String, plan: Vec<GenOp>, value: String },
    /// `Ok(ok)` after `ok_plan` where the bound flag holds, `Err(err)` after `err_plan` otherwise.
    FallibleOf { flag: String, ok_plan: Vec<GenOp>, ok: String, err_plan: Vec<GenOp>, err: String },
}

/// The mathematical value of a [`GenOp`].
pub enum OpModel {
    BindSymbolic { name: Seq<char>, ty: TypeShape, mutable: bool, draw: Draw, window: Option<u64> },
    BindDerived { name: Seq<char>, declared: Option<TypeShape>, mutable: bool, expr: ExprModel },
    EmitDiagnostic(Diagnostic),
}

/// The mathematical value of a [`DerivedExpr`].
pub enum ExprModel {
    TextFromChars(Seq<char>),
    Borrow(Seq<char>, bool),
    SliceView(Seq<char>, bool),
    TupleOf(Seq<Seq<char>>),
    PointerGenerator(TypeShape),
    AllocatedPointer(Seq<char>),
    OptionalOf { flag: Seq<char>, plan: Seq<OpModel>, value: Seq<char> },
    FallibleOf { flag: Seq<char>, ok_plan: Seq<OpModel>, ok: Seq<char>, err_plan: Seq<OpModel>, err: Seq<char> },
}

pub open spec fn names_model(s: Seq<String>) -> Seq<Seq<char>> {
    Seq::new(s.len(), |i: int| s[i]@)
}

pub open spec fn opt_shape(t: Option<TypeDescriptor>) -> Option<TypeShape> {
    match t {
        Some(d) => Some(d@),
        None => None,
    }
}

pub open spec fn op_model(op: GenOp) -> OpModel
    decreases op,
{
    match op {
        GenOp::BindSymbolic { name, ty, mutable, draw, window } =>
            OpModel::BindSymbolic { name: name@, ty: ty@, mutable, draw, window },
        GenOp::BindDerived { name, declared, mutable, expr } =>
            OpModel::BindDerived { name: name@, declared: opt_shape(declared), mutable, expr: expr_model(expr) },
        GenOp::EmitDiagnostic(d) => OpModel::EmitDiagnostic(d),
    }
}

pub open spec fn ops_model(s: Seq<GenOp>) -> Seq<OpModel>
    decreases s,
{
    Seq::new(s.len(), |i: int| if 0 <= i < s.len() { op_model(s[i]) } else { OpModel::EmitDiagnostic(Diagnostic::UnsupportedType) })
}

pub open spec fn expr_model(e: DerivedExpr) -> ExprModel
    decreases e,
{
    match e {
        DerivedExpr::TextFromChars(a) => ExprModel::TextFromChars(a@),
        DerivedExpr::Borrow(t, m) => ExprModel::Borrow(t@, m),
        DerivedExpr::SliceView(b, m) => ExprModel::SliceView(b@, m),
        DerivedExpr::TupleOf(ns) => ExprModel::TupleOf(names_model(ns@)),
        DerivedExpr::PointerGenerator(t) => ExprModel::PointerGenerator(t@),
        DerivedExpr::AllocatedPointer(g) => ExprModel::AllocatedPointer(g@),
        DerivedExpr::OptionalOf { flag, plan, value } =>
            ExprModel::OptionalOf { flag: flag@, plan: ops_model(plan@), value: value@ },
        DerivedExpr::FallibleOf { flag, ok_plan, ok, err_plan, err } => ExprModel::FallibleOf {
            flag: flag@,
            ok_plan: ops_model(ok_plan@),
            ok: ok@,
            err_plan: ops_model(err_plan@),
            err: err@,
        },
    }
}

impl View for GenOp {
    type V = OpModel;

    open spec fn view(&self) -> OpModel {
        op_model(*self)
    }
}

/// The name that an operation binds, if it binds one.
pub open spec fn bound_name(op: OpModel) -> Option<Seq<char>> {
    match op {
        OpModel::BindSymbolic { name, .. } => Some(name),
        OpModel::BindDerived { name, .. } => Some(name),
        OpModel::EmitDiagnostic(_) => None,
    }
}

/// The declared type of the name that an operation binds, if it declares one.
pub open spec fn bound_type(op: OpModel) -> Option<TypeShape> {
    match op {
        OpModel::BindSymbolic { ty, .. } => Some(ty),
        OpModel::BindDerived { declared, .. } => declared,
        OpModel::EmitDiagnostic(_) => None,
    }
}

pub proof fn lemma_ops_model_concat(a: Seq<GenOp>, b: Seq<GenOp>)
    ensures
        ops_model(a + b) == ops_model(a) + ops_model(b),
{
    assert(ops_model(a + b) =~= ops_model(a) + ops_model(b));
}

} // verus!
