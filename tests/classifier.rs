use autokani::classify::classify;
use autokani::descriptor::{Diagnostic, ErrorKind, FloatWidth, IntWidth, PrimKind, TypeDescriptor};
use autokani::syntax::{GenericArg, GenericArgs, PathSegment, SynType};
use autokani::text::{decimal_text, same_text};

fn seg(name: &str, args: GenericArgs) -> PathSegment {
    PathSegment { ident: name.to_string(), args }
}

fn path(name: &str) -> SynType {
    SynType::Path(vec![seg(name, GenericArgs::Absent)])
}

fn generic(name: &str, args: Vec<SynType>) -> SynType {
    SynType::Path(vec![seg(name, GenericArgs::Angle(args.into_iter().map(GenericArg::Type).collect()))])
}

#[test]
fn classifies_primitives() {
    assert_eq!(classify(&path("u32")), TypeDescriptor::Primitive(PrimKind::Unsigned(IntWidth::W32)));
    assert_eq!(classify(&path("usize")), TypeDescriptor::Primitive(PrimKind::Unsigned(IntWidth::Size)));
    assert_eq!(classify(&path("i16")), TypeDescriptor::Primitive(PrimKind::Signed(IntWidth::W16)));
    assert_eq!(classify(&path("bool")), TypeDescriptor::Primitive(PrimKind::Bool));
    assert_eq!(classify(&path("f32")), TypeDescriptor::Primitive(PrimKind::Float(FloatWidth::F32)));
    assert_eq!(classify(&path("char")), TypeDescriptor::Primitive(PrimKind::Char));
}

#[test]
fn classifies_text_and_opaque() {
    assert_eq!(classify(&path("String")), TypeDescriptor::Text);
    assert_eq!(classify(&path("str")), TypeDescriptor::Text);
    assert_eq!(classify(&path("Array")), TypeDescriptor::Opaque("Array".to_string()));
    let qualified = SynType::Path(vec![seg("std", GenericArgs::Absent), seg("string", GenericArgs::Absent), seg("String", GenericArgs::Absent)]);
    assert_eq!(classify(&qualified), TypeDescriptor::Text);
}

#[test]
fn classifies_composites() {
    let t = SynType::Reference(Box::new(SynType::Slice(Box::new(path("i32")))), true);
    assert_eq!(
        classify(&t),
        TypeDescriptor::Reference(Box::new(TypeDescriptor::Slice(Box::new(TypeDescriptor::Primitive(PrimKind::Signed(IntWidth::W32))))), true)
    );
    let arr = SynType::Array(Box::new(path("u8")), Some(10));
    assert_eq!(classify(&arr), TypeDescriptor::FixedArray(Box::new(TypeDescriptor::Primitive(PrimKind::Unsigned(IntWidth::W8))), 10));
    let tup = SynType::Tuple(vec![path("i16"), path("u8")]);
    assert_eq!(
        classify(&tup),
        TypeDescriptor::Tuple(vec![
            TypeDescriptor::Primitive(PrimKind::Signed(IntWidth::W16)),
            TypeDescriptor::Primitive(PrimKind::Unsigned(IntWidth::W8)),
        ])
    );
    let res = generic("Result", vec![generic("Vec", vec![path("i32")]), path("i32")]);
    assert_eq!(
        classify(&res),
        TypeDescriptor::Fallible(
            Box::new(TypeDescriptor::Sequence(Box::new(TypeDescriptor::Primitive(PrimKind::Signed(IntWidth::W32))))),
            Box::new(TypeDescriptor::Primitive(PrimKind::Signed(IntWidth::W32))),
        )
    );
    let ptr = SynType::Ptr(Box::new(SynType::Tuple(vec![])), false);
    assert_eq!(classify(&ptr), TypeDescriptor::RawPointer(Box::new(TypeDescriptor::Tuple(vec![])), false));
}

#[test]
fn rejects_each_unsupported_shape() {
    let cases: Vec<(SynType, Diagnostic)> = vec![
        (SynType::Other, Diagnostic::UnsupportedType),
        (SynType::Path(vec![]), Diagnostic::EmptyPath),
        (SynType::Array(Box::new(path("u8")), None), Diagnostic::ArrayLength),
        (SynType::Path(vec![seg("Vec", GenericArgs::Angle(vec![GenericArg::Other]))]), Diagnostic::SequenceType),
        (generic("Vec", vec![path("u8"), path("u8")]), Diagnostic::SequenceType),
        (path("Vec"), Diagnostic::SequencePattern),
        (generic("Option", vec![]), Diagnostic::OptionalType),
        (SynType::Path(vec![seg("Option", GenericArgs::Parenthesized)]), Diagnostic::OptionalPattern),
        (generic("Result", vec![path("u8")]), Diagnostic::FallibleType),
        (path("Result"), Diagnostic::FalliblePattern),
        (generic("HashMap", vec![path("u8"), path("u8")]), Diagnostic::UnknownContainer),
    ];
    for (t, d) in cases {
        assert_eq!(classify(&t), TypeDescriptor::Unsupported(d));
    }
}

#[test]
fn diagnostic_kinds_and_messages() {
    assert_eq!(Diagnostic::NotAFunction.kind(), ErrorKind::StructuralMismatch);
    assert_eq!(Diagnostic::UnnamedFields.kind(), ErrorKind::StructuralMismatch);
    assert_eq!(Diagnostic::UnsupportedType.kind(), ErrorKind::UnsupportedType);
    assert_eq!(Diagnostic::ArrayLength.kind(), ErrorKind::UnsupportedType);
    assert_eq!(Diagnostic::SequencePattern.kind(), ErrorKind::UnsupportedGenericShape);
    assert_eq!(Diagnostic::UnknownContainer.kind(), ErrorKind::UnsupportedGenericShape);
    assert_eq!(Diagnostic::SequenceType.message(), "Unsupported Vec Type");
    assert_eq!(Diagnostic::FalliblePattern.message(), "Unsupported Result Pattern");
    assert_eq!(Diagnostic::NotAFunction.message(), "`kani_test` can only be used on functions.");
}

#[test]
fn text_helpers() {
    assert!(same_text("Vec", "Vec"));
    assert!(!same_text("Vec", "Vex"));
    assert!(!same_text("Vec", "Vecs"));
    assert_eq!(decimal_text(0), "0");
    assert_eq!(decimal_text(7), "7");
    assert_eq!(decimal_text(100000000), "100000000");
    assert_eq!(decimal_text(18446744073709551615), "18446744073709551615");
}
