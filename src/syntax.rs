//! The declarations that the front end hands to the library, as plain values.
//!
//! These mirror the parts of Rust syntax that harness synthesis reads: type
//! expressions, function signatures, structures and implementation blocks.
use vstd::prelude::*;

verus! {

/// The generic arguments written after one path segment.
pub enum GenericArgs {
    /// No arguments: `Vec`.
    Absent,
    /// Angle-bracketed arguments: `Vec<u8>`.
    Angle(Vec<GenericArg>),
    /// Parenthesized arguments, as in `Fn(u8) -> u8`.
    Parenthesized,
}

/// One generic argument.
pub enum GenericArg {
    Type(SynType),
    /// A lifetime, a constant, a binding or a constraint.
    Other,
}

/// One segment of a path such as `std::vec::Vec<u8>`.
pub struct PathSegment {
    pub ident: String,
    pub args: GenericArgs,
}

/// A type as written in a declaration.
pub enum SynType {
    Path(Vec<PathSegment>),
    /// `[T; n]`; the length is `None` where it is not an integer literal.
    Array(Box<SynType>, Option<u64>),
    Slice(Box<SynType>),
    Tuple(Vec<SynType>),
    /// `&T` or `&mut T`.
    Reference(Box<SynType>, bool),
    /// `*const T` or `*mut T`.
    Ptr(Box<SynType>, bool),
    /// Function pointers, trait objects, `impl Trait`, macros and the like.
    Other,
}

/// The receiver of a method.
pub struct SynReceiver {
    /// Whether it is mutable (`&mut self` or `mut self`).
    pub mutable: bool,
}

/// A typed parameter. `name` is `None` where the pattern is not a plain identifier.
pub struct SynParam {
    pub name: Option<String>,
    pub mutable: bool,
    pub ty: SynType,
}

/// One input of a function signature.
pub enum SynFnArg {
    Receiver(SynReceiver),
    Typed(SynParam),
}

/// A function or method signature.
pub struct SynFn {
    pub name: String,
    pub inputs: Vec<SynFnArg>,
    /// The declared return type; `None` for `()`.
    pub output: Option<SynType>,
}

/// A named field of a structure.
pub struct SynField {
    pub name: String,
    pub ty: SynType,
}

/// The fields of a structure.
pub enum SynFields {
    Named(Vec<SynField>),
    Unnamed,
    Unit,
}

/// A structure declaration.
pub struct SynStruct {
    pub name: String,
    pub fields: SynFields,
}

/// An implementation block: the implementing type and the signatures of its methods.
pub struct SynImpl {
    pub self_ty: SynType,
    pub methods: Vec<SynFn>,
}

/// An annotated item.
pub enum SynItem {
    Fn(SynFn),
    Struct(SynStruct),
    Impl(SynImpl),
    Other,
}

} // verus!
