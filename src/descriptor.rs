//! Type descriptors and the classifier that maps declared types onto them.
use vstd::prelude::*;

verus! {

broadcast use vstd::std_specs::vec::group_vec_axioms;

/// The width of an integer type.
#[derive(Clone, Copy, Debug, PartialEq, Eq, Structural)]
pub enum IntWidth {
    W8,
    W16,
    W32,
    W64,
    W128,
    /// `usize` or `isize`.
    Size,
}

/// The width of a floating-point type.
#[derive(Clone, Copy, Debug, PartialEq, Eq, Structural)]
pub enum FloatWidth {
    F32,
    F64,
}

/// The primitive types that have a synthesis rule of their own.
#[derive(Clone, Copy, Debug, PartialEq, Eq, Structural)]
pub enum PrimKind {
    Unsigned(IntWidth),
    Signed(IntWidth),
    Bool,
    Float(FloatWidth),
    Char,
}

/// The three classes of failure that synthesis reports at build time.
#[derive(Clone, Copy, Debug, PartialEq, Eq, Structural)]
pub enum ErrorKind {
    /// An annotation on a declaration kind that it does not support.
    StructuralMismatch,
    /// A type that no synthesis rule covers.
    UnsupportedType,
    /// A known container written with the wrong generic arguments, or an unknown container.
    UnsupportedGenericShape,
}

/// A fixed diagnostic, emitted in place of generated code.
#[derive(Clone, Copy, Debug, PartialEq, Eq, Structural)]
pub enum Diagnostic {
    NotAFunction,
    NotAStruct,
    NotAnImpl,
    ImplOfNonStruct,
    UnnamedFields,
    ConstructorTakesReceiver,
    UnsupportedType,
    EmptyPath,
    ArrayLength,
    SequenceType,
    SequencePattern,
    OptionalType,
    OptionalPattern,
    FallibleType,
    FalliblePattern,
    UnknownContainer,
}

pub open spec fn diagnostic_kind(d: Diagnostic) -> ErrorKind {
    match d {
        Diagnostic::NotAFunction | Diagnostic::NotAStruct | Diagnostic::NotAnImpl
        | Diagnostic::ImplOfNonStruct | Diagnostic::UnnamedFields
        | Diagnostic::ConstructorTakesReceiver => ErrorKind::StructuralMismatch,
        Diagnostic::UnsupportedType | Diagnostic::EmptyPath | Diagnostic::ArrayLength => ErrorKind::UnsupportedType,
        _ => ErrorKind::UnsupportedGenericShape,
    }
}

pub open spec fn diagnostic_message(d: Diagnostic) -> Seq<char> {
    match d {
        Diagnostic::NotAFunction => "`kani_test` can only be used on functions."@,
        Diagnostic::NotAStruct => "`kani_arbitrary` can only be used on structs."@,
        Diagnostic::NotAnImpl => "`extend_arbitrary` can only be used on impl blocks."@,
        Diagnostic::ImplOfNonStruct => "`extend_arbitrary` can only be used on impl blocks of structs."@,
        Diagnostic::UnnamedFields => "`kani_arbitrary` needs a struct with named fields."@,
        Diagnostic::ConstructorTakesReceiver => "`extend_arbitrary` needs a constructor that takes no receiver."@,
        Diagnostic::UnsupportedType => "Unsupported argument type for `kani_test` macro."@,
        Diagnostic::EmptyPath => "Failed to get the final segment of the path."@,
        Diagnostic::ArrayLength => "Unsupported array length: expected an integer literal."@,
        Diagnostic::SequenceType => "Unsupported Vec Type"@,
        Diagnostic::SequencePattern => "Unsupported Vec Pattern"@,
        Diagnostic::OptionalType => "Unsupported Option Type"@,
        Diagnostic::OptionalPattern => "Unsupported Option Pattern"@,
        Diagnostic::FallibleType => "Unsupported Result Type"@,
        Diagnostic::FalliblePattern => "Unsupported Result Pattern"@,
        Diagnostic::UnknownContainer => "Unsupported generic container"@,
    }
}

impl Diagnostic {
    /// The class of failure this diagnostic reports.
    pub fn kind(&self) -> (r: ErrorKind)
        ensures
            r == diagnostic_kind(*self),
    {
        match self {
            Diagnostic::NotAFunction | Diagnostic::NotAStruct | Diagnostic::NotAnImpl
            | Diagnostic::ImplOfNonStruct | Diagnostic::UnnamedFields
        | Diagnostic::ConstructorTakesReceiver => ErrorKind::StructuralMismatch,
            Diagnostic::UnsupportedType | Diagnostic::EmptyPath | Diagnostic::ArrayLength => ErrorKind::UnsupportedType,
            _ => ErrorKind::UnsupportedGenericShape,
        }
    }

    /// The fixed text of this diagnostic.
    pub fn message(&self) -> (r: &'static str)
        ensures
            r@ == diagnostic_message(*self),
    {
        match self {
            Diagnostic::NotAFunction => "`kani_test` can only be used on functions.",
            Diagnostic::NotAStruct => "`kani_arbitrary` can only be used on structs.",
            Diagnostic::NotAnImpl => "`extend_arbitrary` can only be used on impl blocks.",
            Diagnostic::ImplOfNonStruct => "`extend_arbitrary` can only be used on impl blocks of structs.",
            Diagnostic::UnnamedFields => "`kani_arbitrary` needs a struct with named fields.",
            Diagnostic::ConstructorTakesReceiver => "`extend_arbitrary` needs a constructor that takes no receiver.",
            Diagnostic::UnsupportedType => "Unsupported argument type for `kani_test` macro.",
            Diagnostic::EmptyPath => "Failed to get the final segment of the path.",
            Diagnostic::ArrayLength => "Unsupported array length: expected an integer literal.",
            Diagnostic::SequenceType => "Unsupported Vec Type",
            Diagnostic::SequencePattern => "Unsupported Vec Pattern",
            Diagnostic::OptionalType => "Unsupported Option Type",
            Diagnostic::OptionalPattern => "Unsupported Option Pattern",
            Diagnostic::FallibleType => "Unsupported Result Type",
            Diagnostic::FalliblePattern => "Unsupported Result Pattern",
            Diagnostic::UnknownContainer => "Unsupported generic container",
        }
    }
}

/// The normalized shape of a declared type.
#[derive(Debug, PartialEq, Eq)]
pub enum TypeDescriptor {
    Primitive(PrimKind),
    /// An owned or borrowed string.
    Text,
    FixedArray(Box<TypeDescriptor>, u64),
    Slice(Box<TypeDescriptor>),
    Tuple(Vec<TypeDescriptor>),
    /// A reference, with its mutability.
    Reference(Box<TypeDescriptor>, bool),
    /// A raw pointer, with its mutability.
    RawPointer(Box<TypeDescriptor>, bool),
    /// A growable sequence (`Vec`).
    Sequence(Box<TypeDescriptor>),
    Optional(Box<TypeDescriptor>),
    /// A `Result` of an ok type and an error type.
    Fallible(Box<TypeDescriptor>, Box<TypeDescriptor>),
    /// A nominal type that supplies its own arbitrary values.
    Opaque(String),
    /// A type that classification rejected, with the reason.
    Unsupported(Diagnostic),
}

/// The mathematical value of a [`TypeDescriptor`].
pub enum TypeShape {
    Primitive(PrimKind),
    Text,
    FixedArray(Box<TypeShape>, u64),
    Slice(Box<TypeShape>),
    Tuple(Seq<TypeShape>),
    Reference(Box<TypeShape>, bool),
    RawPointer(Box<TypeShape>, bool),
    Sequence(Box<TypeShape>),
    Optional(Box<TypeShape>),
    Fallible(Box<TypeShape>, Box<TypeShape>),
    Opaque(Seq<char>),
    Unsupported(Diagnostic),
}

pub open spec fn shape_of(d: TypeDescriptor) -> TypeShape
    decreases d,
{
    match d {
        TypeDescriptor::Primitive(k) => TypeShape::Primitive(k),
        TypeDescriptor::Text => TypeShape::Text,
        TypeDescriptor::FixedArray(e, n) => TypeShape::FixedArray(Box::new(shape_of(*e)), n),
        TypeDescriptor::Slice(e) => TypeShape::Slice(Box::new(shape_of(*e))),
        TypeDescriptor::Tuple(es) => TypeShape::Tuple(shapes_of(es@)),
        TypeDescriptor::Reference(e, m) => TypeShape::Reference(Box::new(shape_of(*e)), m),
        TypeDescriptor::RawPointer(e, m) => TypeShape::RawPointer(Box::new(shape_of(*e)), m),
        TypeDescriptor::Sequence(e) => TypeShape::Sequence(Box::new(shape_of(*e))),
        TypeDescriptor::Optional(e) => TypeShape::Optional(Box::new(shape_of(*e))),
        TypeDescriptor::Fallible(o, e) => TypeShape::Fallible(Box::new(shape_of(*o)), Box::new(shape_of(*e))),
        TypeDescriptor::Opaque(n) => TypeShape::Opaque(n@),
        TypeDescriptor::Unsupported(x) => TypeShape::Unsupported(x),
    }
}

pub open spec fn shapes_of(s: Seq<TypeDescriptor>) -> Seq<TypeShape>
    decreases s,
{
    Seq::new(s.len(), |i: int| if 0 <= i < s.len() { shape_of(s[i]) } else { TypeShape::Text })
}

impl View for TypeDescriptor {
    type V = TypeShape;

    open spec fn view(&self) -> TypeShape {
        shape_of(*self)
    }
}

impl TypeDescriptor {
    /// A copy of this descriptor.
    pub fn copy(&self) -> (r: TypeDescriptor)
        ensures
            r@ == self@,
        decreases self,
    {
        match self {
            TypeDescriptor::Primitive(k) => TypeDescriptor::Primitive(*k),
            TypeDescriptor::Text => TypeDescriptor::Text,
            TypeDescriptor::FixedArray(e, n) => TypeDescriptor::FixedArray(Box::new(e.copy()), *n),
            TypeDescriptor::Slice(e) => TypeDescriptor::Slice(Box::new(e.copy())),
            TypeDescriptor::Tuple(es) => {
                let mut out: Vec<TypeDescriptor> = Vec::new();
                let mut i: usize = 0;
                while i < es.len()
                    invariant
                        *self == TypeDescriptor::Tuple(*es),
                        i <= es.len(),
                        out.len() == i,
                        forall|j: int| 0 <= j < i ==> shape_of(#[trigger] out@[j]) == shape_of(es@[j]),
                    decreases es.len() - i,
                {
                    proof {
                        assert(decreases_to!(*self => (*self)->Tuple_0));
                        assert(decreases_to!((*self)->Tuple_0 => (*self)->Tuple_0[i as int]));
                    }
                    let c = es[i].copy();
                    out.push(c);
                    i = i + 1;
                }
                assert(shapes_of(out@) =~= shapes_of(es@));
                TypeDescriptor::Tuple(out)
            },
            TypeDescriptor::Reference(e, m) => TypeDescriptor::Reference(Box::new(e.copy()), *m),
            TypeDescriptor::RawPointer(e, m) => TypeDescriptor::RawPointer(Box::new(e.copy()), *m),
            TypeDescriptor::Sequence(e) => TypeDescriptor::Sequence(Box::new(e.copy())),
            TypeDescriptor::Optional(e) => TypeDescriptor::Optional(Box::new(e.copy())),
            TypeDescriptor::Fallible(o, e) => TypeDescriptor::Fallible(Box::new(o.copy()), Box::new(e.copy())),
            TypeDescriptor::Opaque(n) => TypeDescriptor::Opaque(n.clone()),
            TypeDescriptor::Unsupported(x) => TypeDescriptor::Unsupported(*x),
        }
    }
}

} // verus!
