//! The classifier: one declared type in, one descriptor out.
use vstd::prelude::*;
use crate::descriptor::{shapes_of, Diagnostic, FloatWidth, IntWidth, PrimKind, TypeDescriptor, TypeShape};
use crate::syntax::{GenericArg, GenericArgs, PathSegment, SynType};
use crate::text::same_text;

verus! {

broadcast use vstd::std_specs::vec::group_vec_axioms;

/// The primitive type that a bare identifier names, if any.
pub open spec fn primitive_named(id: Seq<char>) -> Option<PrimKind> {
    if id == "u8"@ { Some(PrimKind::Unsigned(IntWidth::W8)) }
    else if id == "u16"@ { Some(PrimKind::Unsigned(IntWidth::W16)) }
    else if id == "u32"@ { Some(PrimKind::Unsigned(IntWidth::W32)) }
    else if id == "u64"@ { Some(PrimKind::Unsigned(IntWidth::W64)) }
    else if id == "u128"@ { Some(PrimKind::Unsigned(IntWidth::W128)) }
    else if id == "usize"@ { Some(PrimKind::Unsigned(IntWidth::Size)) }
    else if id == "i8"@ { Some(PrimKind::Signed(IntWidth::W8)) }
    else if id == "i16"@ { Some(PrimKind::Signed(IntWidth::W16)) }
    else if id == "i32"@ { Some(PrimKind::Signed(IntWidth::W32)) }
    else if id == "i64"@ { Some(PrimKind::Signed(IntWidth::W64)) }
    else if id == "i128"@ { Some(PrimKind::Signed(IntWidth::W128)) }
    else if id == "isize"@ { Some(PrimKind::Signed(IntWidth::Size)) }
    else if id == "bool"@ { Some(PrimKind::Bool) }
    else if id == "f32"@ { Some(PrimKind::Float(FloatWidth::F32)) }
    else if id == "f64"@ { Some(PrimKind::Float(FloatWidth::F64)) }
    else if id == "char"@ { Some(PrimKind::Char) }
    else { None }
}

/// Whether an identifier names the owned or the borrowed string type.
pub open spec fn is_text_name(id: Seq<char>) -> bool {
    id == "String"@ || id == "str"@
}

/// The descriptor of a declared type.
pub open spec fn classify_spec(t: SynType) -> TypeShape
    decreases t,
{
    match t {
        SynType::Path(segs) => {
            if segs.len() == 0 {
                TypeShape::Unsupported(Diagnostic::EmptyPath)
            } else {
                segment_spec(segs@[segs.len() - 1])
            }
        },
        SynType::Array(e, len) => match len {
            Some(n) => TypeShape::FixedArray(Box::new(classify_spec(*e)), n),
            None => TypeShape::Unsupported(Diagnostic::ArrayLength),
        },
        SynType::Slice(e) => TypeShape::Slice(Box::new(classify_spec(*e))),
        SynType::Tuple(es) => TypeShape::Tuple(classify_all(es@)),
        SynType::Reference(e, m) => TypeShape::Reference(Box::new(classify_spec(*e)), m),
        SynType::Ptr(e, m) => TypeShape::RawPointer(Box::new(classify_spec(*e)), m),
        SynType::Other => TypeShape::Unsupported(Diagnostic::UnsupportedType),
    }
}

/// The descriptors of a sequence of declared types, in order.
pub open spec fn classify_all(s: Seq<SynType>) -> Seq<TypeShape>
    decreases s,
{
    Seq::new(s.len(), |i: int| if 0 <= i < s.len() { classify_spec(s[i]) } else { TypeShape::Text })
}

/// The descriptor of a path type, decided by its final segment: its name and its
/// generic arguments.
pub open spec fn segment_spec(seg: PathSegment) -> TypeShape
    decreases seg,
{
    let id = seg.ident@;
    if id == "Vec"@ {
        match seg.args {
            GenericArgs::Angle(a) => if a.len() == 1 && a@[0] is Type {
                TypeShape::Sequence(Box::new(classify_spec(a@[0]->Type_0)))
            } else {
                TypeShape::Unsupported(Diagnostic::SequenceType)
            },
            _ => TypeShape::Unsupported(Diagnostic::SequencePattern),
        }
    } else if id == "Option"@ {
        match seg.args {
            GenericArgs::Angle(a) => if a.len() == 1 && a@[0] is Type {
                TypeShape::Optional(Box::new(classify_spec(a@[0]->Type_0)))
            } else {
                TypeShape::Unsupported(Diagnostic::OptionalType)
            },
            _ => TypeShape::Unsupported(Diagnostic::OptionalPattern),
        }
    } else if id == "Result"@ {
        match seg.args {
            GenericArgs::Angle(a) => if a.len() == 2 && a@[0] is Type && a@[1] is Type {
                TypeShape::Fallible(
                    Box::new(classify_spec(a@[0]->Type_0)),
                    Box::new(classify_spec(a@[1]->Type_0)),
                )
            } else {
                TypeShape::Unsupported(Diagnostic::FallibleType)
            },
            _ => TypeShape::Unsupported(Diagnostic::FalliblePattern),
        }
    } else if !(seg.args is Absent) {
        TypeShape::Unsupported(Diagnostic::UnknownContainer)
    } else if primitive_named(id) is Some {
        TypeShape::Primitive(primitive_named(id)->0)
    } else if is_text_name(id) {
        TypeShape::Text
    } else {
        TypeShape::Opaque(id)
    }
}

fn primitive_of(id: &str) -> (r: Option<PrimKind>)
    ensures
        r == primitive_named(id@),
{
    if same_text(id, "u8") { Some(PrimKind::Unsigned(IntWidth::W8)) }
    else if same_text(id, "u16") { Some(PrimKind::Unsigned(IntWidth::W16)) }
    else if same_text(id, "u32") { Some(PrimKind::Unsigned(IntWidth::W32)) }
    else if same_text(id, "u64") { Some(PrimKind::Unsigned(IntWidth::W64)) }
    else if same_text(id, "u128") { Some(PrimKind::Unsigned(IntWidth::W128)) }
    else if same_text(id, "usize") { Some(PrimKind::Unsigned(IntWidth::Size)) }
    else if same_text(id, "i8") { Some(PrimKind::Signed(IntWidth::W8)) }
    else if same_text(id, "i16") { Some(PrimKind::Signed(IntWidth::W16)) }
    else if same_text(id, "i32") { Some(PrimKind::Signed(IntWidth::W32)) }
    else if same_text(id, "i64") { Some(PrimKind::Signed(IntWidth::W64)) }
    else if same_text(id, "i128") { Some(PrimKind::Signed(IntWidth::W128)) }
    else if same_text(id, "isize") { Some(PrimKind::Signed(IntWidth::Size)) }
    else if same_text(id, "bool") { Some(PrimKind::Bool) }
    else if same_text(id, "f32") { Some(PrimKind::Float(FloatWidth::F32)) }
    else if same_text(id, "f64") { Some(PrimKind::Float(FloatWidth::F64)) }
    else if same_text(id, "char") { Some(PrimKind::Char) }
    else { None }
}

/// Maps a declared type onto its descriptor. Every type has one: shapes without a
/// synthesis rule map to `Unsupported`, with the diagnostic that names the reason.
pub fn classify(t: &SynType) -> (r: TypeDescriptor)
    ensures
        r@ == classify_spec(*t),
    decreases t,
{
    match t {
        SynType::Path(segs) => {
            if segs.len() == 0 {
                TypeDescriptor::Unsupported(Diagnostic::EmptyPath)
            } else {
                proof {
                    assert(decreases_to!(*t => (*t)->Path_0));
                    assert(decreases_to!((*t)->Path_0 => (*t)->Path_0[segs.len() - 1]));
                }
                classify_segment(&segs[segs.len() - 1])
            }
        },
        SynType::Array(e, len) => match len {
            Some(n) => TypeDescriptor::FixedArray(Box::new(classify(e)), *n),
            None => TypeDescriptor::Unsupported(Diagnostic::ArrayLength),
        },
        SynType::Slice(e) => TypeDescriptor::Slice(Box::new(classify(e))),
        SynType::Tuple(es) => {
            let mut out: Vec<TypeDescriptor> = Vec::new();
            let mut i: usize = 0;
            while i < es.len()
                invariant
                    *t == SynType::Tuple(*es),
                    i <= es.len(),
                    out.len() == i,
                    forall|j: int| 0 <= j < i ==> (#[trigger] out@[j])@ == classify_spec(es@[j]),
                decreases es.len() - i,
            {
                proof {
                    assert(decreases_to!(*t => (*t)->Tuple_0));
                    assert(decreases_to!((*t)->Tuple_0 => (*t)->Tuple_0[i as int]));
                }
                let c = classify(&es[i]);
                out.push(c);
                i = i + 1;
            }
            assert(shapes_of(out@) =~= classify_all(es@));
            TypeDescriptor::Tuple(out)
        },
        SynType::Reference(e, m) => TypeDescriptor::Reference(Box::new(classify(e)), *m),
        SynType::Ptr(e, m) => TypeDescriptor::RawPointer(Box::new(classify(e)), *m),
        SynType::Other => TypeDescriptor::Unsupported(Diagnostic::UnsupportedType),
    }
}

/// The descriptor of a path type, from its final segment.
pub fn classify_segment(seg: &PathSegment) -> (r: TypeDescriptor)
    ensures
        r@ == segment_spec(*seg),
    decreases seg,
{
    let id = seg.ident.as_str();
    if same_text(id, "Vec") {
        match &seg.args {
            GenericArgs::Angle(a) => {
                if a.len() == 1 {
                    match &a[0] {
                        GenericArg::Type(t0) => {
                            proof { lemma_first_arg_decreases(*seg); }
                            TypeDescriptor::Sequence(Box::new(classify(t0)))
                        },
                        GenericArg::Other => TypeDescriptor::Unsupported(Diagnostic::SequenceType),
                    }
                } else {
                    TypeDescriptor::Unsupported(Diagnostic::SequenceType)
                }
            },
            _ => TypeDescriptor::Unsupported(Diagnostic::SequencePattern),
        }
    } else if same_text(id, "Option") {
        match &seg.args {
            GenericArgs::Angle(a) => {
                if a.len() == 1 {
                    match &a[0] {
                        GenericArg::Type(t0) => {
                            proof { lemma_first_arg_decreases(*seg); }
                            TypeDescriptor::Optional(Box::new(classify(t0)))
                        },
                        GenericArg::Other => TypeDescriptor::Unsupported(Diagnostic::OptionalType),
                    }
                } else {
                    TypeDescriptor::Unsupported(Diagnostic::OptionalType)
                }
            },
            _ => TypeDescriptor::Unsupported(Diagnostic::OptionalPattern),
        }
    } else if same_text(id, "Result") {
        match &seg.args {
            GenericArgs::Angle(a) => {
                if a.len() == 2 {
                    match (&a[0], &a[1]) {
                        (GenericArg::Type(t0), GenericArg::Type(t1)) => {
                            proof {
                                lemma_first_arg_decreases(*seg);
                                lemma_second_arg_decreases(*seg);
                            }
                            TypeDescriptor::Fallible(Box::new(classify(t0)), Box::new(classify(t1)))
                        },
                        _ => TypeDescriptor::Unsupported(Diagnostic::FallibleType),
                    }
                } else {
                    TypeDescriptor::Unsupported(Diagnostic::FallibleType)
                }
            },
            _ => TypeDescriptor::Unsupported(Diagnostic::FalliblePattern),
        }
    } else {
        match &seg.args {
            GenericArgs::Absent => {
                match primitive_of(id) {
                    Some(k) => TypeDescriptor::Primitive(k),
                    None => {
                        if same_text(id, "String") || same_text(id, "str") {
                            TypeDescriptor::Text
                        } else {
                            TypeDescriptor::Opaque(seg.ident.clone())
                        }
                    },
                }
            },
            _ => TypeDescriptor::Unsupported(Diagnostic::UnknownContainer),
        }
    }
}

proof fn lemma_first_arg_decreases(seg: PathSegment)
    requires
        seg.args is Angle,
        seg.args->Angle_0.len() >= 1,
        seg.args->Angle_0@[0] is Type,
    ensures
        decreases_to!(seg => seg.args->Angle_0@[0]->Type_0),
{
    let a = seg.args->Angle_0;
    assert(decreases_to!(seg => seg.args));
    assert(decreases_to!(seg.args => a));
    assert(decreases_to!(a => a[0]));
    assert(a[0] == a@[0]);
    assert(decreases_to!(a@[0] => a@[0]->Type_0));
}

proof fn lemma_second_arg_decreases(seg: PathSegment)
    requires
        seg.args is Angle,
        seg.args->Angle_0.len() >= 2,
        seg.args->Angle_0@[1] is Type,
    ensures
        decreases_to!(seg => seg.args->Angle_0@[1]->Type_0),
{
    let a = seg.args->Angle_0;
    assert(decreases_to!(seg => seg.args));
    assert(decreases_to!(seg.args => a));
    assert(decreases_to!(a => a[1]));
    assert(a[1] == a@[1]);
    assert(decreases_to!(a@[1] => a@[1]->Type_0));
}

} // verus!
