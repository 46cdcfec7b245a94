//! Arbitrary-value capabilities for structures, built field by field or through a
//! constructor.
use vstd::prelude::*;
use crate::classify::{classify, classify_spec};
use crate::descriptor::Diagnostic;
use crate::harness::{
    assemble, assembled, bindings_model, distinct_top_names, extract_bindings, extract_spec, lemma_assembled_apart,
    HarnessSpec,
};
use crate::plan::{ops_model, GenOp};
use crate::policy::BoundingPolicy;
use crate::synth::{synth_model, synthesize};
use crate::syntax::{GenericArgs, SynFields, SynFn, SynFnArg, SynItem, SynType};
use crate::text::same_text;

verus! {

broadcast use vstd::std_specs::vec::group_vec_axioms;

/// The plan that produces one field of a structure.
#[derive(Debug, PartialEq, Eq)]
pub struct FieldInit {
    pub field: String,
    pub plan: Vec<GenOp>,
}

/// How an arbitrary value of a structure is built.
#[derive(Debug, PartialEq, Eq)]
pub enum ArbitraryBody {
    /// A literal that lists every named field, each produced by its own plan.
    Fields(Vec<FieldInit>),
    /// A call of the constructor on synthesized arguments; the harness's target is
    /// the constructor.
    Constructor(HarnessSpec),
}

/// An arbitrary-value capability for the named type.
#[derive(Debug, PartialEq, Eq)]
pub struct ArbitraryImpl {
    pub target_type: String,
    pub body: ArbitraryBody,
}

/// The outcome of the constructor-driven extension. A missing constructor is no
/// error: nothing is generated.
#[derive(Debug, PartialEq, Eq)]
pub enum Extension {
    Generated(ArbitraryImpl),
    NotApplicable,
    Rejected(Diagnostic),
}

/// Whether a path is a single plain identifier.
pub open spec fn is_plain_ident(t: SynType) -> bool {
    &&& t is Path
    &&& t->Path_0.len() == 1
    &&& t->Path_0@[0].args is Absent
}

/// Whether a method builds the type `name`: it returns `name` or `Self`.
pub open spec fn is_constructor(f: SynFn, name: Seq<char>) -> bool {
    &&& f.output is Some
    &&& is_plain_ident(f.output->0)
    &&& (f.output->0->Path_0@[0].ident@ == name || f.output->0->Path_0@[0].ident@ == "Self"@)
}

/// Whether a method takes a receiver.
pub open spec fn has_receiver(f: SynFn) -> bool {
    exists|j: int| 0 <= j < f.inputs.len() && (#[trigger] f.inputs@[j] is Receiver)
}

fn plain_ident(t: &SynType) -> (r: Option<&String>)
    ensures
        r is Some <==> is_plain_ident(*t),
        r is Some ==> r->0 == t->Path_0@[0].ident,
{
    match t {
        SynType::Path(segs) => {
            if segs.len() == 1 {
                match &segs[0].args {
                    GenericArgs::Absent => Some(&segs[0].ident),
                    _ => None,
                }
            } else {
                None
            }
        },
        _ => None,
    }
}

fn takes_receiver(f: &SynFn) -> (r: bool)
    ensures
        r == has_receiver(*f),
{
    let mut i: usize = 0;
    while i < f.inputs.len()
        invariant
            i <= f.inputs.len(),
            forall|j: int| 0 <= j < i ==> !(#[trigger] f.inputs@[j] is Receiver),
        decreases f.inputs.len() - i,
    {
        if let SynFnArg::Receiver(_) = &f.inputs[i] {
            return true;
        }
        i = i + 1;
    }
    false
}

/// The position of the first method that builds the type `name`, if any.
pub fn find_constructor(methods: &Vec<SynFn>, name: &String) -> (r: Option<usize>)
    ensures
        match r {
            Some(i) => i < methods.len() && is_constructor(methods@[i as int], name@)
                && forall|j: int| 0 <= j < i ==> !is_constructor(#[trigger] methods@[j], name@),
            None => forall|j: int| 0 <= j < methods.len() ==> !is_constructor(#[trigger] methods@[j], name@),
        },
{
    let mut i: usize = 0;
    while i < methods.len()
        invariant
            i <= methods.len(),
            forall|j: int| 0 <= j < i ==> !is_constructor(#[trigger] methods@[j], name@),
        decreases methods.len() - i,
    {
        let f = &methods[i];
        match &f.output {
            Some(out) => {
                match plain_ident(out) {
                    Some(id) => {
                        if same_text(id.as_str(), name.as_str()) || same_text(id.as_str(), "Self") {
                            return Some(i);
                        }
                    },
                    None => {},
                }
            },
            None => {},
        }
        i = i + 1;
    }
    None
}

/// The field-driven capability: every named field is synthesized on its own,
/// immutably, under its own name, and the value is the literal listing them all.
/// Structures without named fields, and other items, are rejected.
pub fn kani_arbitrary(item: &SynItem, policy: &BoundingPolicy) -> (r: Result<ArbitraryImpl, Diagnostic>)
    ensures
        match *item {
            SynItem::Struct(s) => match s.fields {
                SynFields::Named(fs) => {
                    &&& r is Ok
                    &&& r->Ok_0.target_type@ == s.name@
                    &&& r->Ok_0.body is Fields
                    &&& r->Ok_0.body->Fields_0.len() == fs.len()
                    &&& forall|i: int| 0 <= i < fs.len() ==> {
                        let init = #[trigger] r->Ok_0.body->Fields_0@[i];
                        &&& init.field@ == fs@[i].name@
                        &&& ops_model(init.plan@) == synth_model(*policy, fs@[i].name@, classify_spec(fs@[i].ty), false)
                    }
                },
                _ => r == Err::<ArbitraryImpl, Diagnostic>(Diagnostic::UnnamedFields),
            },
            _ => r == Err::<ArbitraryImpl, Diagnostic>(Diagnostic::NotAStruct),
        },
{
    match item {
        SynItem::Struct(s) => match &s.fields {
            SynFields::Named(fs) => {
                let mut inits: Vec<FieldInit> = Vec::new();
                let mut i: usize = 0;
                while i < fs.len()
                    invariant
                        i <= fs.len(),
                        inits.len() == i,
                        forall|j: int| 0 <= j < i ==> {
                            let init = #[trigger] inits@[j];
                            &&& init.field@ == fs@[j].name@
                            &&& ops_model(init.plan@) == synth_model(*policy, fs@[j].name@, classify_spec(fs@[j].ty), false)
                        },
                    decreases fs.len() - i,
                {
                    let field = &fs[i];
                    let desc = classify(&field.ty);
                    let plan = synthesize(policy, field.name.as_str(), &desc, false);
                    inits.push(FieldInit { field: field.name.clone(), plan });
                    i = i + 1;
                }
                Ok(ArbitraryImpl { target_type: s.name.clone(), body: ArbitraryBody::Fields(inits) })
            },
            _ => Err(Diagnostic::UnnamedFields),
        },
        _ => Err(Diagnostic::NotAStruct),
    }
}

/// The constructor-driven capability: the first method of the block that builds the
/// implementing type has its parameters synthesized as a harness's are, and the
/// value is that method's result. Nothing is generated where the implementing type is
/// no plain identifier or no method builds it. A first such method that takes a
/// receiver, blocks for types that are no path, and other items are rejected.
pub fn extend_arbitrary(item: &SynItem, policy: &BoundingPolicy) -> (r: Extension)
    ensures
        match *item {
            SynItem::Impl(b) => match b.self_ty {
                SynType::Path(segs) => {
                    if is_plain_ident(b.self_ty) {
                        let name = segs@[0].ident@;
                        if exists|i: int| 0 <= i < b.methods.len() && is_constructor(#[trigger] b.methods@[i], name) {
                            exists|i: int| {
                                &&& 0 <= i < b.methods.len()
                                &&& is_constructor(#[trigger] b.methods@[i], name)
                                &&& forall|j: int| 0 <= j < i ==> !is_constructor(#[trigger] b.methods@[j], name)
                                &&& if has_receiver(b.methods@[i]) {
                                    r == Extension::Rejected(Diagnostic::ConstructorTakesReceiver)
                                } else {
                                    &&& r is Generated
                                    &&& r->Generated_0.target_type@ == name
                                    &&& r->Generated_0.body is Constructor
                                    &&& assembled(
                                        *policy,
                                        b.methods@[i].name@,
                                        extract_spec(*policy, b.methods@[i].inputs@),
                                        r->Generated_0.body->Constructor_0,
                                    )
                                    &&& distinct_top_names(r->Generated_0.body->Constructor_0.params@)
                                }
                            }
                        } else {
                            r is NotApplicable
                        }
                    } else {
                        r is NotApplicable
                    }
                },
                _ => r == Extension::Rejected(Diagnostic::ImplOfNonStruct),
            },
            _ => r == Extension::Rejected(Diagnostic::NotAnImpl),
        },
{
    match item {
        SynItem::Impl(b) => match &b.self_ty {
            SynType::Path(_) => match plain_ident(&b.self_ty) {
                Some(name) => match find_constructor(&b.methods, name) {
                    Some(i) => {
                        let ctor = &b.methods[i];
                        if takes_receiver(ctor) {
                            return Extension::Rejected(Diagnostic::ConstructorTakesReceiver);
                        }
                        let bindings = extract_bindings(policy, &ctor.inputs);
                        let ghost bs = bindings_model(bindings@);
                        let h = assemble(policy, ctor.name.as_str(), bindings);
                        proof {
                            lemma_assembled_apart(*policy, bs, h.params@);
                        }
                        Extension::Generated(ArbitraryImpl {
                            target_type: name.clone(),
                            body: ArbitraryBody::Constructor(h),
                        })
                    },
                    None => Extension::NotApplicable,
                },
                None => Extension::NotApplicable,
            },
            _ => Extension::Rejected(Diagnostic::ImplOfNonStruct),
        },
        _ => Extension::Rejected(Diagnostic::NotAnImpl),
    }
}

} // verus!
