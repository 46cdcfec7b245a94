use autokani::descriptor::{Diagnostic, ErrorKind, IntWidth, PrimKind, TypeDescriptor};
use autokani::extension::{extend_arbitrary, find_constructor, kani_arbitrary, ArbitraryBody, Extension};
use autokani::harness::{assemble, kani_test, ParameterBinding, Role};
use autokani::plan::{DerivedExpr, Draw, GenOp};
use autokani::policy::BoundingPolicy;
use autokani::render::{plan_text, render_arbitrary, render_diagnostic, render_harness};
use autokani::synth::{build_plan, synthesize};
use autokani::syntax::{
    GenericArg, GenericArgs, PathSegment, SynField, SynFields, SynFn, SynFnArg, SynImpl, SynItem, SynParam,
    SynReceiver, SynStruct, SynType,
};

fn path(name: &str) -> SynType {
    SynType::Path(vec![PathSegment { ident: name.to_string(), args: GenericArgs::Absent }])
}

fn generic(name: &str, args: Vec<SynType>) -> SynType {
    SynType::Path(vec![PathSegment {
        ident: name.to_string(),
        args: GenericArgs::Angle(args.into_iter().map(GenericArg::Type).collect()),
    }])
}

fn param(name: &str, mutable: bool, ty: SynType) -> SynFnArg {
    SynFnArg::Typed(SynParam { name: Some(name.to_string()), mutable, ty })
}

fn function(name: &str, inputs: Vec<SynFnArg>) -> SynItem {
    SynItem::Fn(SynFn { name: name.to_string(), inputs, output: None })
}

fn prim(k: PrimKind) -> TypeDescriptor {
    TypeDescriptor::Primitive(k)
}

fn sym(name: &str, ty: TypeDescriptor, mutable: bool, draw: Draw, window: Option<u64>) -> GenOp {
    GenOp::BindSymbolic { name: name.to_string(), ty, mutable, draw, window }
}

#[test]
fn unsigned_parameter_harness() {
    let p = BoundingPolicy::standard();
    let h = kani_test(&function("f", vec![param("x", false, path("u32"))]), &p).unwrap();
    assert_eq!(h.harness_name, "check_f");
    assert_eq!(h.params.len(), 1);
    assert_eq!(
        h.params[0].plan,
        vec![sym("x", prim(PrimKind::Unsigned(IntWidth::W32)), false, Draw::Any, Some(100000000))]
    );
    assert_eq!(h.invocation.receiver, None);
    assert_eq!(h.invocation.args, vec!["x".to_string()]);
    let text = render_harness(&p, &h);
    assert_eq!(
        text,
        "#[cfg(kani)]\n#[kani::proof]\n#[kani::unwind(64)]\npub fn check_f() {\n\
         let x: u32 = kani::any();\nkani::assume(x < 100000000);\nlet _ = f(x);\n}\n"
    );
}

#[test]
fn optional_sequence_plan() {
    let p = BoundingPolicy::standard();
    let ty = generic("Option", vec![generic("Vec", vec![path("i32")])]);
    let h = kani_test(&function("g", vec![param("v", false, ty)]), &p).unwrap();
    let seq_ty = TypeDescriptor::Sequence(Box::new(prim(PrimKind::Signed(IntWidth::W32))));
    let expected = vec![
        sym("v_flag", prim(PrimKind::Bool), false, Draw::Any, None),
        GenOp::BindDerived {
            name: "v".to_string(),
            declared: Some(TypeDescriptor::Optional(Box::new(TypeDescriptor::Sequence(Box::new(prim(PrimKind::Signed(IntWidth::W32))))))),
            mutable: false,
            expr: DerivedExpr::OptionalOf {
                flag: "v_flag".to_string(),
                plan: vec![sym("v_some", seq_ty, false, Draw::BoundedSequence(16), None)],
                value: "v_some".to_string(),
            },
        },
    ];
    assert_eq!(h.params[0].plan, expected);
    let text = plan_text(&h.params[0].plan);
    assert_eq!(
        text,
        "let v_flag: bool = kani::any();\n\
         let v: Option<Vec<i32>> = if v_flag {\nlet v_some: Vec<i32> = kani::vec::any_vec::<i32, 16>();\nSome(v_some)\n} else {\nNone\n};\n"
    );
}

#[test]
fn mutable_slice_method_harness() {
    let p = BoundingPolicy::standard();
    let recv = SynFnArg::Receiver(SynReceiver { mutable: true });
    let buf = param("buf", false, SynType::Reference(Box::new(SynType::Slice(Box::new(path("u8")))), true));
    let h = kani_test(&function("fill", vec![recv, buf]), &p).unwrap();
    assert_eq!(h.params[0].binding.name, "self_receiver");
    assert_eq!(h.params[0].binding.role, Role::Receiver);
    assert_eq!(h.params[0].plan, vec![sym("self_receiver", TypeDescriptor::Opaque("Self".to_string()), true, Draw::Any, None)]);
    let u8_ty = prim(PrimKind::Unsigned(IntWidth::W8));
    assert_eq!(
        h.params[1].plan,
        vec![
            sym("buf_obj", TypeDescriptor::FixedArray(Box::new(prim(PrimKind::Unsigned(IntWidth::W8))), 16), true, Draw::Any, None),
            GenOp::BindDerived {
                name: "buf".to_string(),
                declared: Some(TypeDescriptor::Reference(Box::new(TypeDescriptor::Slice(Box::new(u8_ty))), true)),
                mutable: false,
                expr: DerivedExpr::SliceView("buf_obj".to_string(), true),
            },
        ]
    );
    assert_eq!(h.invocation.receiver, Some("self_receiver".to_string()));
    assert_eq!(h.invocation.args, vec!["buf".to_string()]);
    let text = render_harness(&p, &h);
    assert!(text.contains("let mut buf_obj: [u8; 16] = kani::any();\n"));
    assert!(text.contains("let buf: &mut [u8] = kani::slice::any_slice_of_array_mut(&mut buf_obj);\n"));
    assert!(text.contains("let _ = self_receiver.fill(buf);\n"));
}

#[test]
fn struct_field_capability() {
    let p = BoundingPolicy::standard();
    let item = SynItem::Struct(SynStruct {
        name: "Pair".to_string(),
        fields: SynFields::Named(vec![
            SynField { name: "a".to_string(), ty: path("i32") },
            SynField { name: "t".to_string(), ty: path("String") },
        ]),
    });
    let a = kani_arbitrary(&item, &p).unwrap();
    assert_eq!(a.target_type, "Pair");
    match &a.body {
        ArbitraryBody::Fields(fs) => {
            assert_eq!(fs.len(), 2);
            assert_eq!(fs[0].field, "a");
            assert_eq!(fs[0].plan, vec![sym("a", prim(PrimKind::Signed(IntWidth::W32)), false, Draw::Any, Some(100000000))]);
            assert_eq!(fs[1].field, "t");
            assert_eq!(fs[1].plan.len(), 2);
        },
        _ => panic!("expected a field literal"),
    }
    assert_eq!(
        render_arbitrary(&a),
        "#[cfg(kani)]\nimpl kani::Arbitrary for Pair {\nfn any() -> Self {\nSelf {\n\
         a: {\nlet a: i32 = kani::any();\nkani::assume(a < 100000000 && a > -100000000);\na\n},\n\
         t: {\nlet t_arr: [char; 8] = kani::any();\nlet t: String = String::from_iter(t_arr);\nt\n},\n}\n}\n}\n"
    );
}

#[test]
fn impl_without_constructor() {
    let p = BoundingPolicy::standard();
    let getter = SynFn {
        name: "len".to_string(),
        inputs: vec![SynFnArg::Receiver(SynReceiver { mutable: false })],
        output: Some(path("usize")),
    };
    let item = SynItem::Impl(SynImpl { self_ty: path("Array"), methods: vec![getter] });
    assert_eq!(extend_arbitrary(&item, &p), Extension::NotApplicable);
}

#[test]
fn constructor_extension() {
    let p = BoundingPolicy::standard();
    let push = SynFn {
        name: "push".to_string(),
        inputs: vec![SynFnArg::Receiver(SynReceiver { mutable: true }), param("val", false, path("i32"))],
        output: None,
    };
    let new = SynFn { name: "new".to_string(), inputs: vec![param("cap", false, path("usize"))], output: Some(path("Self")) };
    let item = SynItem::Impl(SynImpl { self_ty: path("Array"), methods: vec![push, new] });
    match extend_arbitrary(&item, &p) {
        Extension::Generated(a) => {
            assert_eq!(a.target_type, "Array");
            assert_eq!(
                render_arbitrary(&a),
                "#[cfg(kani)]\nimpl kani::Arbitrary for Array {\nfn any() -> Self {\n\
                 let cap: usize = kani::any();\nkani::assume(cap < 100000000);\nSelf::new(cap)\n}\n}\n"
            );
        },
        other => panic!("unexpected outcome {:?}", other),
    }
}

#[test]
fn constructor_with_receiver_is_rejected() {
    let p = BoundingPolicy::standard();
    let with = SynFn {
        name: "with".to_string(),
        inputs: vec![SynFnArg::Receiver(SynReceiver { mutable: false })],
        output: Some(path("Self")),
    };
    let new = SynFn { name: "new".to_string(), inputs: vec![], output: Some(path("Array")) };
    let item = SynItem::Impl(SynImpl { self_ty: path("Array"), methods: vec![with, new] });
    assert_eq!(extend_arbitrary(&item, &p), Extension::Rejected(Diagnostic::ConstructorTakesReceiver));
    assert_eq!(Diagnostic::ConstructorTakesReceiver.kind(), ErrorKind::StructuralMismatch);
    assert_eq!(
        find_constructor(&vec![SynFn { name: "len".to_string(), inputs: vec![], output: Some(path("usize")) }], &"Array".to_string()),
        None
    );
}

#[test]
fn mutable_parameter_does_not_rebind_references() {
    let p = BoundingPolicy::standard();
    let slice = param("x", true, SynType::Reference(Box::new(SynType::Slice(Box::new(path("u8")))), true));
    let plain = param("y", true, SynType::Reference(Box::new(path("u8")), false));
    let h = kani_test(&function("f", vec![slice, plain]), &p).unwrap();
    assert_eq!(
        plan_text(&h.params[0].plan),
        "let mut x_obj: [u8; 16] = kani::any();\nlet x: &mut [u8] = kani::slice::any_slice_of_array_mut(&mut x_obj);\n"
    );
    assert_eq!(plan_text(&h.params[1].plan), "let y_obj: u8 = kani::any();\nlet y: &u8 = &y_obj;\n");
}

#[test]
fn binding_names_never_collide() {
    let p = BoundingPolicy::standard();
    let recv = SynFnArg::Receiver(SynReceiver { mutable: false });
    let h = kani_test(&function("m", vec![recv, param("self_receiver", false, path("u8"))]), &p).unwrap();
    assert_eq!(h.params[0].binding.name, "self_receiver_");
    assert_eq!(h.params[1].binding.name, "self_receiver");
    assert!(render_harness(&p, &h).contains("let _ = self_receiver_.m(self_receiver);\n"));
    let unnamed = SynFnArg::Typed(SynParam { name: None, mutable: false, ty: path("bool") });
    let h = kani_test(&function("g", vec![unnamed, param("arg0", false, path("u8"))]), &p).unwrap();
    assert_eq!(h.invocation.args, vec!["arg0_".to_string(), "arg0".to_string()]);
    let h = kani_test(&function("f", vec![param("s_arr", false, path("u8")), param("s", false, path("String"))]), &p).unwrap();
    assert_eq!(
        render_harness(&p, &h),
        "#[cfg(kani)]\n#[kani::proof]\n#[kani::unwind(64)]\npub fn check_f() {\n\
         let s_arr: u8 = kani::any();\nlet s__arr: [char; 8] = kani::any();\nlet s_: String = String::from_iter(s__arr);\n\
         let _ = f(s_arr, s_);\n}\n"
    );
    let pair = SynType::Tuple(vec![path("u8"), path("u8")]);
    let h = kani_test(
        &function("f", vec![
            param("arg1_obj", false, path("u8")),
            SynFnArg::Typed(SynParam { name: None, mutable: false, ty: SynType::Reference(Box::new(path("u8")), false) }),
            SynFnArg::Typed(SynParam { name: None, mutable: false, ty: pair }),
        ]),
        &p,
    )
    .unwrap();
    assert_eq!(h.invocation.args, vec!["arg1_obj".to_string(), "arg1_".to_string(), "arg2".to_string()]);
    assert_eq!(plan_text(&h.params[1].plan), "let arg1__obj: u8 = kani::any();\nlet arg1_: &u8 = &arg1__obj;\n");
    let mut seen: Vec<String> = Vec::new();
    for pp in &h.params {
        for op in &pp.plan {
            let name = match op {
                GenOp::BindSymbolic { name, .. } => name.clone(),
                GenOp::BindDerived { name, .. } => name.clone(),
                GenOp::EmitDiagnostic(_) => continue,
            };
            assert!(!seen.contains(&name));
            seen.push(name);
        }
    }
    let first = SynFnArg::Typed(SynParam { name: None, mutable: false, ty: path("bool") });
    let second = SynFnArg::Typed(SynParam { name: None, mutable: false, ty: path("bool") });
    let h = kani_test(&function("k", vec![first, second]), &p).unwrap();
    assert_eq!(h.invocation.args, vec!["arg0".to_string(), "arg1".to_string()]);
}

#[test]
fn build_plan_of_supported_descriptor() {
    let p = BoundingPolicy::standard();
    let d = TypeDescriptor::Tuple(vec![prim(PrimKind::Bool), TypeDescriptor::Optional(Box::new(prim(PrimKind::Bool)))]);
    let (plan, _) = build_plan(&p, &"t".to_string(), &d, false);
    assert_eq!(plan, synthesize(&p, "t", &d, false));
}

#[test]
fn unknown_container_keeps_other_parameters() {
    let p = BoundingPolicy::standard();
    let map = generic("HashMap", vec![path("u8"), path("u8")]);
    let h = kani_test(&function("h", vec![param("m", false, map), param("b", false, path("bool"))]), &p).unwrap();
    assert_eq!(h.params[0].plan, vec![GenOp::EmitDiagnostic(Diagnostic::UnknownContainer)]);
    assert_eq!(Diagnostic::UnknownContainer.kind(), ErrorKind::UnsupportedGenericShape);
    assert_eq!(h.params[1].plan, vec![sym("b", prim(PrimKind::Bool), false, Draw::Any, None)]);
    assert_eq!(h.invocation.args, vec!["m".to_string(), "b".to_string()]);
    let text = render_harness(&p, &h);
    assert!(text.contains("compile_error!(\"Unsupported generic container\");\n"));
    assert!(text.contains("let _ = h(m, b);\n"));
}

#[test]
fn nested_rejection_fails_closed() {
    let p = BoundingPolicy::standard();
    let d = TypeDescriptor::Tuple(vec![prim(PrimKind::Bool), TypeDescriptor::Optional(Box::new(TypeDescriptor::Unsupported(Diagnostic::SequencePattern)))]);
    assert_eq!(synthesize(&p, "t", &d, false), vec![GenOp::EmitDiagnostic(Diagnostic::SequencePattern)]);
}

#[test]
fn type_preservation_on_composites() {
    let p = BoundingPolicy::standard();
    let descs = vec![
        TypeDescriptor::Text,
        TypeDescriptor::Tuple(vec![prim(PrimKind::Bool)]),
        TypeDescriptor::Reference(Box::new(prim(PrimKind::Signed(IntWidth::W64))), false),
        TypeDescriptor::RawPointer(Box::new(prim(PrimKind::Unsigned(IntWidth::W32))), true),
        TypeDescriptor::Fallible(Box::new(TypeDescriptor::Text), Box::new(prim(PrimKind::Signed(IntWidth::W32)))),
        TypeDescriptor::Opaque("Array".to_string()),
    ];
    for d in descs {
        let plan = synthesize(&p, "x", &d, false);
        match plan.last().unwrap() {
            GenOp::BindDerived { name, declared, .. } => {
                assert_eq!(name, "x");
                assert_eq!(declared.as_ref(), Some(&d));
            },
            GenOp::BindSymbolic { name, ty, .. } => {
                assert_eq!(name, "x");
                assert_eq!(ty, &d);
            },
            GenOp::EmitDiagnostic(_) => panic!("unexpected diagnostic"),
        }
    }
}

#[test]
fn determinism_same_text() {
    let p = BoundingPolicy::standard();
    let d = TypeDescriptor::Fallible(
        Box::new(TypeDescriptor::Sequence(Box::new(prim(PrimKind::Signed(IntWidth::W32))))),
        Box::new(TypeDescriptor::Tuple(vec![TypeDescriptor::Text, prim(PrimKind::Unsigned(IntWidth::W8))])),
    );
    let first = synthesize(&p, "v", &d, true);
    let second = synthesize(&p, "v", &d, true);
    assert_eq!(first, second);
    assert_eq!(plan_text(&first), plan_text(&second));
}

#[test]
fn range_assumption_by_width() {
    let p = BoundingPolicy::standard();
    let narrow = synthesize(&p, "a", &prim(PrimKind::Unsigned(IntWidth::W8)), false);
    assert_eq!(narrow, vec![sym("a", prim(PrimKind::Unsigned(IntWidth::W8)), false, Draw::Any, None)]);
    let narrow_signed = synthesize(&p, "a", &prim(PrimKind::Signed(IntWidth::W16)), false);
    assert_eq!(narrow_signed, vec![sym("a", prim(PrimKind::Signed(IntWidth::W16)), false, Draw::Any, None)]);
    let wide = synthesize(&p, "a", &prim(PrimKind::Signed(IntWidth::W64)), false);
    assert_eq!(plan_text(&wide), "let a: i64 = kani::any();\nkani::assume(a < 100000000 && a > -100000000);\n");
    let size = synthesize(&p, "a", &prim(PrimKind::Unsigned(IntWidth::Size)), true);
    assert_eq!(plan_text(&size), "let mut a: usize = kani::any();\nkani::assume(a < 100000000);\n");
    let flag = synthesize(&p, "a", &prim(PrimKind::Bool), false);
    assert_eq!(flag, vec![sym("a", prim(PrimKind::Bool), false, Draw::Any, None)]);
    let float = synthesize(&p, "a", &prim(PrimKind::Float(autokani::descriptor::FloatWidth::F64)), false);
    assert_eq!(plan_text(&float), "let a: f64 = kani::any();\n");
    let open = BoundingPolicy { seq_limit: 4, string_limit: 2, unwind: 8, int_window: 0 };
    assert_eq!(plan_text(&synthesize(&open, "a", &prim(PrimKind::Unsigned(IntWidth::W64)), false)), "let a: u64 = kani::any();\n");
    let tight = BoundingPolicy { seq_limit: 4, string_limit: 2, unwind: 8, int_window: 100 };
    let small = synthesize(&tight, "a", &prim(PrimKind::Unsigned(IntWidth::W8)), false);
    assert_eq!(plan_text(&small), "let a: u8 = kani::any();\nkani::assume(a < 100);\n");
}

#[test]
fn tuple_assembly_order() {
    let p = BoundingPolicy::standard();
    let d = TypeDescriptor::Tuple(vec![prim(PrimKind::Signed(IntWidth::W16)), prim(PrimKind::Unsigned(IntWidth::W8)), TypeDescriptor::Text]);
    let plan = synthesize(&p, "a", &d, false);
    assert_eq!(plan.len(), 5);
    match &plan[4] {
        GenOp::BindDerived { expr: DerivedExpr::TupleOf(names), .. } => {
            assert_eq!(names, &vec!["a_elem0".to_string(), "a_elem1".to_string(), "a_elem2".to_string()]);
        },
        _ => panic!("expected the tuple binding last"),
    }
    assert_eq!(
        plan_text(&plan),
        "let a_elem0: i16 = kani::any();\nlet a_elem1: u8 = kani::any();\n\
         let a_elem2_arr: [char; 8] = kani::any();\nlet a_elem2: String = String::from_iter(a_elem2_arr);\n\
         let a: (i16, u8, String) = (a_elem0, a_elem1, a_elem2);\n"
    );
    let single = synthesize(&p, "s", &TypeDescriptor::Tuple(vec![prim(PrimKind::Bool)]), false);
    assert_eq!(plan_text(&single), "let s_elem0: bool = kani::any();\nlet s: (bool,) = (s_elem0,);\n");
    let unit = synthesize(&p, "u", &TypeDescriptor::Tuple(vec![]), false);
    assert_eq!(plan_text(&unit), "let u: () = ();\n");
}

#[test]
fn deep_nesting_terminates() {
    let p = BoundingPolicy::standard();
    let mut d = prim(PrimKind::Unsigned(IntWidth::W8));
    for _ in 0..40 {
        d = TypeDescriptor::Optional(Box::new(d));
    }
    let plan = synthesize(&p, "n", &d, false);
    assert_eq!(plan.len(), 2);
    let text = plan_text(&plan);
    assert_eq!(text.matches("Some(").count(), 40);
}

#[test]
fn pointer_and_reference_text() {
    let p = BoundingPolicy::standard();
    let ptr = TypeDescriptor::RawPointer(Box::new(prim(PrimKind::Unsigned(IntWidth::W32))), false);
    assert_eq!(
        plan_text(&synthesize(&p, "s", &ptr, false)),
        "let mut s_gen = kani::PointerGenerator::<{ std::mem::size_of::<u32>() }>::new();\n\
         let s: *const u32 = s_gen.any_alloc_status().ptr;\n"
    );
    let r = TypeDescriptor::Reference(Box::new(TypeDescriptor::Text), false);
    assert_eq!(
        plan_text(&synthesize(&p, "s", &r, false)),
        "let s_obj_arr: [char; 8] = kani::any();\nlet s_obj: String = String::from_iter(s_obj_arr);\nlet s: &String = &s_obj;\n"
    );
    let arr = TypeDescriptor::Reference(Box::new(TypeDescriptor::FixedArray(Box::new(prim(PrimKind::Signed(IntWidth::W32))), 10)), false);
    assert_eq!(
        plan_text(&synthesize(&p, "stream", &arr, false)),
        "let stream_obj: [i32; 10] = kani::any();\nlet stream: &[i32; 10] = &stream_obj;\n"
    );
}

#[test]
fn fallible_text_has_both_arms() {
    let p = BoundingPolicy::standard();
    let d = TypeDescriptor::Fallible(Box::new(prim(PrimKind::Bool)), Box::new(prim(PrimKind::Unsigned(IntWidth::W64))));
    assert_eq!(
        plan_text(&synthesize(&p, "r", &d, false)),
        "let r_flag: bool = kani::any();\nlet r: Result<bool, u64> = if r_flag {\nlet r_ok: bool = kani::any();\nOk(r_ok)\n} else {\n\
         let r_err: u64 = kani::any();\nkani::assume(r_err < 100000000);\nErr(r_err)\n};\n"
    );
}

#[test]
fn structural_mismatches() {
    let p = BoundingPolicy::standard();
    let s = SynItem::Struct(SynStruct { name: "S".to_string(), fields: SynFields::Unit });
    assert_eq!(kani_test(&s, &p).unwrap_err(), Diagnostic::NotAFunction);
    assert_eq!(kani_arbitrary(&function("f", vec![]), &p).unwrap_err(), Diagnostic::NotAStruct);
    assert_eq!(kani_arbitrary(&s, &p).unwrap_err(), Diagnostic::UnnamedFields);
    let tuple_struct = SynItem::Struct(SynStruct { name: "T".to_string(), fields: SynFields::Unnamed });
    assert_eq!(kani_arbitrary(&tuple_struct, &p).unwrap_err(), Diagnostic::UnnamedFields);
    assert_eq!(extend_arbitrary(&SynItem::Other, &p), Extension::Rejected(Diagnostic::NotAnImpl));
    let tuple_impl = SynItem::Impl(SynImpl { self_ty: SynType::Tuple(vec![]), methods: vec![] });
    assert_eq!(extend_arbitrary(&tuple_impl, &p), Extension::Rejected(Diagnostic::ImplOfNonStruct));
    let generic_impl = SynItem::Impl(SynImpl { self_ty: generic("Wrapper", vec![path("u8")]), methods: vec![] });
    assert_eq!(extend_arbitrary(&generic_impl, &p), Extension::NotApplicable);
    assert_eq!(render_diagnostic(Diagnostic::NotAStruct), "compile_error!(\"`kani_arbitrary` can only be used on structs.\");\n");
}

#[test]
fn unnamed_patterns_get_positional_names() {
    let p = BoundingPolicy::standard();
    let item = function("f", vec![SynFnArg::Typed(SynParam { name: None, mutable: false, ty: path("bool") })]);
    let h = kani_test(&item, &p).unwrap();
    assert_eq!(h.params[0].binding.name, "arg0");
    assert_eq!(h.invocation.args, vec!["arg0".to_string()]);
}

#[test]
fn assemble_from_bindings() {
    let p = BoundingPolicy::standard();
    let bindings = vec![
        ParameterBinding { name: "a".to_string(), desc: prim(PrimKind::Signed(IntWidth::W8)), mutable: true, role: Role::Ordinary },
        ParameterBinding { name: "c".to_string(), desc: TypeDescriptor::Sequence(Box::new(prim(PrimKind::Bool))), mutable: false, role: Role::Ordinary },
    ];
    let h = assemble(&p, "run", bindings);
    assert_eq!(
        render_harness(&p, &h),
        "#[cfg(kani)]\n#[kani::proof]\n#[kani::unwind(64)]\npub fn check_run() {\n\
         let mut a: i8 = kani::any();\nlet c: Vec<bool> = kani::vec::any_vec::<bool, 16>();\nlet _ = run(a, c);\n}\n"
    );
}
