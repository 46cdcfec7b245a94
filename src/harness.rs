//! The harness assembler: one plan per parameter, then one invocation.
use vstd::prelude::*;
use vstd::string::StringExecFns;
use crate::classify::{classify, classify_spec};
use crate::descriptor::{Diagnostic, TypeDescriptor, TypeShape};
use crate::plan::{names_model, ops_model, GenOp, OpModel};
use crate::names::{claimed_names, lemma_claimed_names, lemma_synth_names, plan_names};
use crate::policy::BoundingPolicy;
use crate::synth::{build_plan, find_unsupported, synth_model, synthesize};
use crate::syntax::{SynFnArg, SynItem};
use crate::text::{decimal, push_decimal, same_text};
use vstd::string::StrSliceExecFns;

verus! {

broadcast use vstd::std_specs::vec::group_vec_axioms;

/// Whether a parameter is the receiver of a method or an ordinary parameter.
#[derive(Clone, Copy, Debug, PartialEq, Eq, Structural)]
pub enum Role {
    Ordinary,
    Receiver,
}

/// One parameter of a target callable, as synthesis sees it.
#[derive(Debug, PartialEq, Eq)]
pub struct ParameterBinding {
    pub name: String,
    pub desc: TypeDescriptor,
    pub mutable: bool,
    pub role: Role,
}

/// The mathematical value of a [`ParameterBinding`].
pub struct BindingModel {
    pub name: Seq<char>,
    pub desc: TypeShape,
    pub mutable: bool,
    pub role: Role,
}

impl View for ParameterBinding {
    type V = BindingModel;

    open spec fn view(&self) -> BindingModel {
        BindingModel { name: self.name@, desc: self.desc@, mutable: self.mutable, role: self.role }
    }
}

pub open spec fn bindings_model(s: Seq<ParameterBinding>) -> Seq<BindingModel> {
    Seq::new(s.len(), |i: int| s[i]@)
}

/// A parameter together with its generator plan.
#[derive(Debug, PartialEq, Eq)]
pub struct ParamPlan {
    pub binding: ParameterBinding,
    pub plan: Vec<GenOp>,
}

/// The call that ends a harness: `receiver.target(args...)` or `target(args...)`.
#[derive(Debug, PartialEq, Eq)]
pub struct Invocation {
    pub receiver: Option<String>,
    pub target: String,
    pub args: Vec<String>,
}

/// A harness for one target callable.
#[derive(Debug, PartialEq, Eq)]
pub struct HarnessSpec {
    pub harness_name: String,
    pub target: String,
    pub params: Vec<ParamPlan>,
    pub invocation: Invocation,
}

/// The name on which the receiver of a method's binding is based; `self` itself
/// cannot be bound by a `let`.
pub open spec fn receiver_placeholder() -> Seq<char> {
    "self_receiver"@
}

/// The name on which the binding of the `i`-th parameter is based where its pattern
/// is not a plain identifier.
pub open spec fn positional_name(i: nat) -> Seq<char> {
    "arg"@ + decimal(i)
}

/// The name of the harness for a target.
pub open spec fn harness_name_of(target: Seq<char>) -> Seq<char> {
    "check_"@ + target
}

/// The name on which the binding of an input is based: its identifier, the receiver
/// placeholder, or its positional name.
pub open spec fn base_name(arg: SynFnArg, i: nat) -> Seq<char> {
    match arg {
        SynFnArg::Receiver(_) => receiver_placeholder(),
        SynFnArg::Typed(pp) => match pp.name {
            Some(s) => s@,
            None => positional_name(i),
        },
    }
}

/// The identifier that an input declares, if any.
pub open spec fn ident_of(arg: SynFnArg) -> Option<Seq<char>> {
    match arg {
        SynFnArg::Typed(pp) => match pp.name {
            Some(s) => Some(s@),
            None => None,
        },
        _ => None,
    }
}

pub open spec fn underscores(k: nat) -> Seq<char> {
    Seq::new(k, |_i: int| '_')
}

/// The names that a binding claims in a harness.
pub open spec fn claimed_of(p: BoundingPolicy, b: BindingModel) -> Seq<Seq<char>> {
    claimed_names(p, b.name, b.desc, b.mutable)
}

/// Whether a value of type `d` bound under `n` would claim a name in `avoid`.
pub open spec fn clashes(p: BoundingPolicy, n: Seq<char>, d: TypeShape, m: bool, avoid: Set<Seq<char>>) -> bool {
    exists|k: int| 0 <= k < claimed_names(p, n, d, m).len() && avoid.contains(#[trigger] claimed_names(p, n, d, m)[k])
}

/// Whether `k` underscores are the fewest that, added to `base`, keep every name that
/// the value claims out of `avoid`.
pub open spec fn avoids(p: BoundingPolicy, base: Seq<char>, d: TypeShape, m: bool, avoid: Set<Seq<char>>, k: nat) -> bool {
    &&& !clashes(p, base + underscores(k), d, m, avoid)
    &&& forall|j: nat| j < k ==> clashes(p, base + #[trigger] underscores(j), d, m, avoid)
}

/// `base` extended with the fewest underscores that keep every name that the value
/// claims out of `avoid`.
pub open spec fn fresh_name(p: BoundingPolicy, base: Seq<char>, d: TypeShape, m: bool, avoid: Set<Seq<char>>) -> Seq<char> {
    base + underscores(choose|k: nat| avoids(p, base, d, m, avoid, k))
}

/// The names claimed by some bindings.
pub open spec fn taken_by(p: BoundingPolicy, prev: Seq<BindingModel>) -> Set<Seq<char>> {
    Set::new(|x: Seq<char>| exists|j: int, k: int|
        0 <= j < prev.len() && 0 <= k < claimed_of(p, prev[j]).len() && #[trigger] claimed_of(p, prev[j])[k] == x)
}

/// The identifiers declared by the inputs other than the `i`-th.
pub open spec fn other_idents(inputs: Seq<SynFnArg>, i: int) -> Set<Seq<char>> {
    Set::new(|s: Seq<char>| exists|j: int| 0 <= j < inputs.len() && j != i && ident_of(inputs[j]) == Some(s))
}

/// The names that the binding of the `i`-th input must not claim: those claimed by the
/// bindings before it and the identifiers of the other inputs.
pub open spec fn avoid_at(p: BoundingPolicy, inputs: Seq<SynFnArg>, i: int, prev: Seq<BindingModel>) -> Set<Seq<char>> {
    taken_by(p, prev).union(other_idents(inputs, i))
}

pub open spec fn input_desc(arg: SynFnArg) -> TypeShape {
    match arg {
        SynFnArg::Receiver(_) => TypeShape::Opaque("Self"@),
        SynFnArg::Typed(pp) => classify_spec(pp.ty),
    }
}

pub open spec fn input_mutable(arg: SynFnArg) -> bool {
    match arg {
        SynFnArg::Receiver(r) => r.mutable,
        SynFnArg::Typed(pp) => pp.mutable,
    }
}

/// The binding for the `i`-th input of a signature, after the bindings `prev`. A
/// receiver is an arbitrary `Self`.
pub open spec fn binding_at(p: BoundingPolicy, inputs: Seq<SynFnArg>, i: int, prev: Seq<BindingModel>) -> BindingModel {
    let desc = input_desc(inputs[i]);
    let mutable = input_mutable(inputs[i]);
    BindingModel {
        name: fresh_name(p, base_name(inputs[i], i as nat), desc, mutable, avoid_at(p, inputs, i, prev)),
        desc,
        mutable,
        role: if inputs[i] is Receiver { Role::Receiver } else { Role::Ordinary },
    }
}

/// The bindings of the first `n` inputs of a signature, in declaration order.
pub open spec fn extract_prefix(p: BoundingPolicy, inputs: Seq<SynFnArg>, n: nat) -> Seq<BindingModel>
    decreases n,
{
    if n == 0 {
        Seq::empty()
    } else {
        let prev = extract_prefix(p, inputs, (n - 1) as nat);
        prev.push(binding_at(p, inputs, n - 1, prev))
    }
}

/// The bindings of a signature, in declaration order.
pub open spec fn extract_spec(p: BoundingPolicy, inputs: Seq<SynFnArg>) -> Seq<BindingModel> {
    extract_prefix(p, inputs, inputs.len())
}

/// Whether the names that bindings claim are pairwise distinct, within each binding
/// and across bindings.
pub open spec fn claims_apart(p: BoundingPolicy, bs: Seq<BindingModel>) -> bool {
    &&& forall|a: int| 0 <= a < bs.len() ==> claimed_of(p, #[trigger] bs[a]).no_duplicates()
    &&& forall|a: int, b: int, x: int, y: int|
        0 <= a < b < bs.len() && 0 <= x < claimed_of(p, bs[a]).len() && 0 <= y < claimed_of(p, bs[b]).len()
        ==> #[trigger] claimed_of(p, bs[a])[x] != #[trigger] claimed_of(p, bs[b])[y]
}

/// The names that a parameter's plan binds at top level.
pub open spec fn top_names_of(pp: ParamPlan) -> Seq<Seq<char>> {
    plan_names(ops_model(pp.plan@))
}

/// Whether the names that the plans of a harness bind at top level are pairwise
/// distinct, within each plan and across plans.
pub open spec fn distinct_top_names(ps: Seq<ParamPlan>) -> bool {
    &&& forall|a: int| 0 <= a < ps.len() ==> top_names_of(#[trigger] ps[a]).no_duplicates()
    &&& forall|a: int, b: int, x: int, y: int|
        0 <= a < b < ps.len() && 0 <= x < top_names_of(ps[a]).len() && 0 <= y < top_names_of(ps[b]).len()
        ==> #[trigger] top_names_of(ps[a])[x] != #[trigger] top_names_of(ps[b])[y]
}

/// Whether the bindings of a harness bind pairwise distinct names.
pub open spec fn distinct_binding_names(ps: Seq<ParamPlan>) -> bool {
    forall|a: int, b: int| 0 <= a < b < ps.len() ==> #[trigger] ps[a].binding.name@ != #[trigger] ps[b].binding.name@
}

/// The names passed as arguments: those of the ordinary bindings, in order.
pub open spec fn call_args(bs: Seq<BindingModel>) -> Seq<Seq<char>>
    decreases bs.len(),
{
    if bs.len() == 0 {
        Seq::empty()
    } else {
        let rest = call_args(bs.drop_last());
        if bs.last().role is Ordinary {
            rest.push(bs.last().name)
        } else {
            rest
        }
    }
}

/// The name placed in call-path position: that of the first receiver binding, if any.
pub open spec fn call_receiver(bs: Seq<BindingModel>) -> Option<Seq<char>>
    decreases bs.len(),
{
    if bs.len() == 0 {
        None
    } else {
        match call_receiver(bs.drop_last()) {
            Some(x) => Some(x),
            None => if bs.last().role is Receiver {
                Some(bs.last().name)
            } else {
                None
            },
        }
    }
}

pub open spec fn opt_text(s: Option<String>) -> Option<Seq<char>> {
    match s {
        Some(x) => Some(x@),
        None => None,
    }
}

/// What a harness assembled from `bindings` for `target` is.
pub open spec fn assembled(
    p: BoundingPolicy,
    target: Seq<char>,
    bindings: Seq<BindingModel>,
    r: HarnessSpec,
) -> bool {
    &&& r.harness_name@ == harness_name_of(target)
    &&& r.target@ == target
    &&& r.params.len() == bindings.len()
    &&& forall|i: int| 0 <= i < bindings.len() ==> {
        &&& (#[trigger] r.params@[i]).binding@ == bindings[i]
        &&& ops_model(r.params@[i].plan@) == synth_model(p, bindings[i].name, bindings[i].desc, bindings[i].mutable)
    }
    &&& r.invocation.target@ == target
    &&& opt_text(r.invocation.receiver) == call_receiver(bindings)
    &&& names_model(r.invocation.args@) == call_args(bindings)
}

fn clone_name(s: &String) -> (r: String)
    ensures
        r@ == s@,
{
    s.clone()
}

proof fn lemma_fresh_name(p: BoundingPolicy, base: Seq<char>, d: TypeShape, m: bool, avoid: Set<Seq<char>>, k: nat)
    requires
        avoids(p, base, d, m, avoid, k),
    ensures
        fresh_name(p, base, d, m, avoid) == base + underscores(k),
{
    let c = choose|c: nat| avoids(p, base, d, m, avoid, c);
    assert(avoids(p, base, d, m, avoid, c));
    if c < k {
        assert(clashes(p, base + underscores(c), d, m, avoid));
    } else if c > k {
        assert(clashes(p, base + underscores(k), d, m, avoid));
    }
}

/// The names of a sequence of strings, as a set.
pub open spec fn text_set(v: Seq<String>) -> Set<Seq<char>> {
    Set::new(|x: Seq<char>| exists|t: int| 0 <= t < v.len() && (#[trigger] v[t])@ == x)
}

/// The names that a plan binds at top level, in order.
fn top_names(ops: &Vec<GenOp>) -> (r: Vec<String>)
    ensures
        names_model(r@) == plan_names(ops_model(ops@)),
{
    let ghost s = ops_model(ops@);
    let mut out: Vec<String> = Vec::new();
    let mut i: usize = 0;
    assert(s.take(0) =~= Seq::<OpModel>::empty());
    assert(names_model(out@) =~= plan_names(s.take(0)));
    while i < ops.len()
        invariant
            s == ops_model(ops@),
            i <= ops.len(),
            names_model(out@) == plan_names(s.take(i as int)),
        decreases ops.len() - i,
    {
        proof {
            assert(s.take(i + 1).drop_last() =~= s.take(i as int));
            assert(s.take(i + 1).last() == ops@[i as int]@);
        }
        let ghost before = out@;
        match &ops[i] {
            GenOp::BindSymbolic { name, .. } => {
                out.push(clone_name(name));
                assert(names_model(out@) =~= names_model(before).push(name@));
            },
            GenOp::BindDerived { name, .. } => {
                out.push(clone_name(name));
                assert(names_model(out@) =~= names_model(before).push(name@));
            },
            GenOp::EmitDiagnostic(_) => {},
        }
        i = i + 1;
    }
    assert(s.take(i as int) =~= s);
    out
}

/// The names that a value of type `d` bound under `n` claims.
fn claimed(p: &BoundingPolicy, n: &String, d: &TypeDescriptor, m: bool) -> (r: Vec<String>)
    ensures
        names_model(r@) == claimed_names(*p, n@, d@, m),
{
    match find_unsupported(d) {
        Some(_) => {
            let r = vec![clone_name(n)];
            assert(names_model(r@) =~= seq![n@]);
            r
        },
        None => {
            let (plan, _) = build_plan(p, n, d, m);
            top_names(&plan)
        },
    }
}

/// Whether `x` is among `taken` or the identifiers of the inputs other than the `i`-th.
fn is_member(x: &String, taken: &Vec<String>, inputs: &Vec<SynFnArg>, i: usize) -> (r: bool)
    ensures
        r == text_set(taken@).union(other_idents(inputs@, i as int)).contains(x@),
{
    let mut t: usize = 0;
    while t < taken.len()
        invariant
            t <= taken.len(),
            forall|u: int| 0 <= u < t ==> taken@[u]@ != x@,
        decreases taken.len() - t,
    {
        if same_text(taken[t].as_str(), x.as_str()) {
            assert(text_set(taken@).contains(x@));
            return true;
        }
        t = t + 1;
    }
    assert(!text_set(taken@).contains(x@));
    let mut j: usize = 0;
    while j < inputs.len()
        invariant
            j <= inputs.len(),
            forall|k: int| 0 <= k < j && k != i ==> ident_of(inputs@[k]) != Some(x@),
        decreases inputs.len() - j,
    {
        if j != i {
            if let SynFnArg::Typed(pp) = &inputs[j] {
                if let Some(s) = &pp.name {
                    if same_text(s.as_str(), x.as_str()) {
                        assert(ident_of(inputs@[j as int]) == Some(x@));
                        assert(other_idents(inputs@, i as int).contains(x@));
                        return true;
                    }
                }
            }
        }
        j = j + 1;
    }
    assert(!other_idents(inputs@, i as int).contains(x@));
    false
}

/// Whether any of `names` is among `taken` or the identifiers of the other inputs.
fn any_member(names: &Vec<String>, taken: &Vec<String>, inputs: &Vec<SynFnArg>, i: usize) -> (r: bool)
    ensures
        r == exists|k: int| 0 <= k < names.len()
            && text_set(taken@).union(other_idents(inputs@, i as int)).contains(#[trigger] names@[k]@),
{
    let mut k: usize = 0;
    while k < names.len()
        invariant
            k <= names.len(),
            forall|u: int| 0 <= u < k ==> !text_set(taken@).union(other_idents(inputs@, i as int)).contains(#[trigger] names@[u]@),
        decreases names.len() - k,
    {
        if is_member(&names[k], taken, inputs, i) {
            return true;
        }
        k = k + 1;
    }
    false
}

/// A length that no name among `taken` or the identifiers of the inputs exceeds.
fn taken_bound(taken: &Vec<String>, inputs: &Vec<SynFnArg>) -> (r: usize)
    ensures
        forall|i: int, s: Seq<char>| #[trigger] text_set(taken@).union(other_idents(inputs@, i)).contains(s) ==> s.len() <= r,
{
    let mut bound: usize = 0;
    let mut j: usize = 0;
    while j < taken.len()
        invariant
            j <= taken.len(),
            forall|k: int| 0 <= k < j ==> (#[trigger] taken@[k])@.len() <= bound,
        decreases taken.len() - j,
    {
        let l = taken[j].as_str().unicode_len();
        if l > bound {
            bound = l;
        }
        j = j + 1;
    }
    let mut j: usize = 0;
    while j < inputs.len()
        invariant
            j <= inputs.len(),
            forall|k: int| 0 <= k < taken.len() ==> (#[trigger] taken@[k])@.len() <= bound,
            forall|k: int| 0 <= k < j && (#[trigger] ident_of(inputs@[k])) is Some ==> ident_of(inputs@[k])->0.len() <= bound,
        decreases inputs.len() - j,
    {
        if let SynFnArg::Typed(pp) = &inputs[j] {
            if let Some(s) = &pp.name {
                let l = s.as_str().unicode_len();
                if l > bound {
                    bound = l;
                }
            }
        }
        j = j + 1;
    }
    assert forall|i: int, s: Seq<char>| #[trigger] text_set(taken@).union(other_idents(inputs@, i)).contains(s) implies s.len() <= bound by {
        if text_set(taken@).contains(s) {
            let t = choose|t: int| 0 <= t < taken@.len() && (#[trigger] taken@[t])@ == s;
        } else {
            assert(other_idents(inputs@, i).contains(s));
            let k = choose|k: int| 0 <= k < inputs@.len() && k != i && ident_of(inputs@[k]) == Some(s);
            assert(ident_of(inputs@[k]) is Some);
        }
    }
    bound
}

/// `base` extended with the fewest underscores that keep every name that a value of
/// type `d` bound under it claims out of `taken` and the other inputs' identifiers;
/// returned with those names.
fn fresh(
    p: &BoundingPolicy,
    base: String,
    d: &TypeDescriptor,
    m: bool,
    taken: &Vec<String>,
    inputs: &Vec<SynFnArg>,
    i: usize,
) -> (r: (String, Vec<String>))
    ensures
        r.0@ == fresh_name(*p, base@, d@, m, text_set(taken@).union(other_idents(inputs@, i as int))),
        names_model(r.1@) == claimed_names(*p, r.0@, d@, m),
        !clashes(*p, r.0@, d@, m, text_set(taken@).union(other_idents(inputs@, i as int))),
{
    let ghost avoid = text_set(taken@).union(other_idents(inputs@, i as int));
    let ghost b = base@;
    let bound = taken_bound(taken, inputs);
    let mut cand = base;
    let ghost mut k: nat = 0;
    assert(b + underscores(0) =~= b);
    let mut names = claimed(p, &cand, d, m);
    let mut clash = any_member(&names, taken, inputs, i);
    proof {
        if clash {
            let w = choose|w: int| 0 <= w < names.len() && avoid.contains(#[trigger] names@[w]@);
            assert(names_model(names@)[w] == names@[w]@);
            lemma_claimed_names(*p, cand@, d@, m);
        }
    }
    while clash
        invariant
            avoid == text_set(taken@).union(other_idents(inputs@, i as int)),
            forall|s: Seq<char>| #[trigger] avoid.contains(s) ==> s.len() <= bound,
            cand@ == b + underscores(k),
            forall|j: nat| j < k ==> clashes(*p, b + #[trigger] underscores(j), d@, m, avoid),
            names_model(names@) == claimed_names(*p, cand@, d@, m),
            clash == clashes(*p, cand@, d@, m, avoid),
            clash ==> cand@.len() <= bound,
        decreases bound + 1 - cand@.len(),
    {
        cand.append("_");
        proof {
            reveal_strlit("_");
            assert(b + underscores(k + 1) =~= b + underscores(k) + "_"@);
            k = k + 1;
        }
        names = claimed(p, &cand, d, m);
        clash = any_member(&names, taken, inputs, i);
        proof {
            if clash {
                let w = choose|w: int| 0 <= w < names.len() && avoid.contains(#[trigger] names@[w]@);
                assert(names_model(names@)[w] == names@[w]@);
                lemma_claimed_names(*p, cand@, d@, m);
            }
        }
    }
    proof {
        lemma_fresh_name(*p, b, d@, m, avoid, k);
    }
    (cand, names)
}

/// The bindings of a signature's inputs, in declaration order. Each binding is named
/// after its identifier, the receiver placeholder or its position, extended with the
/// fewest underscores that keep every name its plan binds at top level apart from the
/// names claimed by the bindings before it and from the other inputs' identifiers. So
/// all those names are pairwise distinct, and a receiver or a pattern is never bound
/// under an identifier of the signature.
pub fn extract_bindings(policy: &BoundingPolicy, inputs: &Vec<SynFnArg>) -> (r: Vec<ParameterBinding>)
    ensures
        bindings_model(r@) == extract_spec(*policy, inputs@),
        claims_apart(*policy, bindings_model(r@)),
        forall|a: int, j: int| 0 <= a < r.len() && 0 <= j < inputs.len() && ident_of(inputs@[a]) is None
            ==> ident_of(#[trigger] inputs@[j]) != Some(#[trigger] r@[a].name@),
{
    let mut out: Vec<ParameterBinding> = Vec::new();
    let mut taken: Vec<String> = Vec::new();
    let mut i: usize = 0;
    assert(bindings_model(out@) =~= extract_prefix(*policy, inputs@, 0));
    assert(text_set(taken@) =~= taken_by(*policy, bindings_model(out@)));
    while i < inputs.len()
        invariant
            i <= inputs.len(),
            out.len() == i,
            bindings_model(out@) == extract_prefix(*policy, inputs@, i as nat),
            text_set(taken@) == taken_by(*policy, bindings_model(out@)),
            claims_apart(*policy, bindings_model(out@)),
            forall|a: int, j: int| 0 <= a < i && 0 <= j < inputs.len() && ident_of(inputs@[a]) is None
                ==> ident_of(#[trigger] inputs@[j]) != Some(#[trigger] out@[a].name@),
        decreases inputs.len() - i,
    {
        let ghost prev = bindings_model(out@);
        let base = match &inputs[i] {
            SynFnArg::Receiver(_) => String::from_str("self_receiver"),
            SynFnArg::Typed(pp) => match &pp.name {
                Some(s) => clone_name(s),
                None => {
                    let mut s = String::from_str("arg");
                    push_decimal(&mut s, i as u64);
                    s
                },
            },
        };
        let (desc, mutable, role) = match &inputs[i] {
            SynFnArg::Receiver(recv) => (TypeDescriptor::Opaque(String::from_str("Self")), recv.mutable, Role::Receiver),
            SynFnArg::Typed(pp) => (classify(&pp.ty), pp.mutable, Role::Ordinary),
        };
        assert(desc@ == input_desc(inputs@[i as int]));
        let (name, mut names) = fresh(policy, base, &desc, mutable, &taken, inputs, i);
        let b = ParameterBinding { name, desc, mutable, role };
        let ghost bm = b@;
        assert(avoid_at(*policy, inputs@, i as int, prev) == text_set(taken@).union(other_idents(inputs@, i as int)));
        assert(bm == binding_at(*policy, inputs@, i as int, prev));
        proof {
            lemma_claimed_names(*policy, bm.name, bm.desc, bm.mutable);
            let cl = claimed_of(*policy, bm);
            assert(cl == names_model(names@));
            assert forall|x: int| 0 <= x < cl.len() implies !taken_by(*policy, prev).contains(#[trigger] cl[x])
                && !other_idents(inputs@, i as int).contains(cl[x]) by {
                if taken_by(*policy, prev).contains(cl[x]) || other_idents(inputs@, i as int).contains(cl[x]) {
                    assert(text_set(taken@).union(other_idents(inputs@, i as int)).contains(cl[x]));
                }
            }
        }
        let ghost before = out@;
        let ghost taken_before = taken@;
        out.push(b);
        taken.append(&mut names);
        proof {
            let now = bindings_model(out@);
            assert(now =~= prev.push(bm));
            let cl = claimed_of(*policy, bm);
            assert(cl[cl.len() - 1] == bm.name);
            assert forall|x: Seq<char>| text_set(taken@).contains(x) == taken_by(*policy, now).contains(x) by {
                if text_set(taken@).contains(x) {
                    let t = choose|t: int| 0 <= t < taken@.len() && (#[trigger] taken@[t])@ == x;
                    if t < taken_before.len() {
                        assert(taken@[t] == taken_before[t]);
                        assert(text_set(taken_before).contains(x));
                        let (wj, wk) = choose|wj: int, wk: int| 0 <= wj < prev.len() && 0 <= wk < claimed_of(*policy, prev[wj]).len()
                            && #[trigger] claimed_of(*policy, prev[wj])[wk] == x;
                        assert(now[wj] == prev[wj]);
                        assert(claimed_of(*policy, now[wj])[wk] == x);
                    } else {
                        assert(cl[t - taken_before.len()] == x);
                        assert(now[i as int] == bm);
                    }
                }
                if taken_by(*policy, now).contains(x) {
                    let (wj, wk) = choose|wj: int, wk: int| 0 <= wj < now.len() && 0 <= wk < claimed_of(*policy, now[wj]).len()
                        && #[trigger] claimed_of(*policy, now[wj])[wk] == x;
                    if wj < i {
                        assert(now[wj] == prev[wj]);
                        assert(claimed_of(*policy, prev[wj])[wk] == x);
                        assert(taken_by(*policy, prev).contains(x));
                        let t = choose|t: int| 0 <= t < taken_before.len() && (#[trigger] taken_before[t])@ == x;
                        assert(taken@[t] == taken_before[t]);
                    } else {
                        assert(now[wj] == bm);
                        assert(taken@[taken_before.len() + wk]@ == x);
                    }
                }
            }
            assert(text_set(taken@) =~= taken_by(*policy, now));
            assert forall|a: int, c: int, x: int, y: int|
                0 <= a < c < now.len() && 0 <= x < claimed_of(*policy, now[a]).len() && 0 <= y < claimed_of(*policy, now[c]).len()
                implies #[trigger] claimed_of(*policy, now[a])[x] != #[trigger] claimed_of(*policy, now[c])[y] by {
                assert(now[a] == prev[a]);
                if c == i {
                    assert(now[c] == bm);
                    assert(taken_by(*policy, prev).contains(claimed_of(*policy, prev[a])[x]));
                } else {
                    assert(now[c] == prev[c]);
                }
            }
            assert forall|a: int| 0 <= a < now.len() implies claimed_of(*policy, #[trigger] now[a]).no_duplicates() by {
                if a < i {
                    assert(now[a] == prev[a]);
                } else {
                    assert(now[a] == bm);
                }
            }
            assert forall|a: int, j: int| 0 <= a < i + 1 && 0 <= j < inputs.len() && ident_of(inputs@[a]) is None
                implies ident_of(#[trigger] inputs@[j]) != Some(#[trigger] out@[a].name@) by {
                if a < i {
                    assert(out@[a] == before[a]);
                } else {
                    assert(out@[a].name@ == cl[cl.len() - 1]);
                    if j != i && ident_of(inputs@[j]) == Some(out@[a].name@) {
                        assert(other_idents(inputs@, i as int).contains(cl[cl.len() - 1]));
                    }
                }
            }
        }
        i = i + 1;
    }
    out
}

/// Where the claims of the bindings are apart, so are the names that their plans bind
/// at top level and the names of the bindings.
pub proof fn lemma_assembled_apart(p: BoundingPolicy, bs: Seq<BindingModel>, ps: Seq<ParamPlan>)
    requires
        claims_apart(p, bs),
        ps.len() == bs.len(),
        forall|i: int| 0 <= i < bs.len() ==> {
            &&& (#[trigger] ps[i]).binding@ == bs[i]
            &&& ops_model(ps[i].plan@) == synth_model(p, bs[i].name, bs[i].desc, bs[i].mutable)
        },
    ensures
        distinct_top_names(ps),
        distinct_binding_names(ps),
{
    assert forall|a: int| 0 <= a < ps.len() implies top_names_of(#[trigger] ps[a]).no_duplicates() by {
        let b = bs[a];
        assert(ps[a].binding@ == b);
        lemma_synth_names(p, b.name, b.desc, b.mutable);
        assert(claimed_of(p, bs[a]).no_duplicates());
    }
    assert forall|a: int, c: int, x: int, y: int|
        0 <= a < c < ps.len() && 0 <= x < top_names_of(ps[a]).len() && 0 <= y < top_names_of(ps[c]).len()
        implies #[trigger] top_names_of(ps[a])[x] != #[trigger] top_names_of(ps[c])[y] by {
        assert(ps[a].binding@ == bs[a]);
        assert(ps[c].binding@ == bs[c]);
        lemma_synth_names(p, bs[a].name, bs[a].desc, bs[a].mutable);
        lemma_synth_names(p, bs[c].name, bs[c].desc, bs[c].mutable);
        assert(top_names_of(ps[a])[x] == claimed_of(p, bs[a])[x]);
        assert(top_names_of(ps[c])[y] == claimed_of(p, bs[c])[y]);
    }
    assert forall|a: int, c: int| 0 <= a < c < ps.len() implies #[trigger] ps[a].binding.name@ != #[trigger] ps[c].binding.name@ by {
        assert(ps[a].binding@ == bs[a]);
        assert(ps[c].binding@ == bs[c]);
        lemma_claimed_names(p, bs[a].name, bs[a].desc, bs[a].mutable);
        lemma_claimed_names(p, bs[c].name, bs[c].desc, bs[c].mutable);
        let ca = claimed_of(p, bs[a]);
        let cc = claimed_of(p, bs[c]);
        assert(ca[ca.len() - 1] != cc[cc.len() - 1]);
    }
}

/// Assembles the harness for `target` from its parameter bindings: each binding's
/// plan, in order, and the invocation that passes the bound names.
pub fn assemble(policy: &BoundingPolicy, target: &str, bindings: Vec<ParameterBinding>) -> (r: HarnessSpec)
    ensures
        assembled(*policy, target@, bindings_model(bindings@), r),
{
    let ghost bs = bindings_model(bindings@);
    let mut params: Vec<ParamPlan> = Vec::new();
    let mut receiver: Option<String> = None;
    let mut args: Vec<String> = Vec::new();
    let mut rest = bindings;
    let ghost all = rest@;
    // Take the bindings from the back, then restore their order.
    let mut reversed: Vec<ParameterBinding> = Vec::new();
    while rest.len() > 0
        invariant
            rest@ + reversed@.reverse() == all,
        decreases rest.len(),
    {
        let b = rest.pop().unwrap();
        let ghost before = reversed@;
        reversed.push(b);
        assert(reversed@.reverse() =~= seq![b] + before.reverse());
        assert(rest@ + reversed@.reverse() =~= all);
    }
    assert(reversed@.reverse() =~= all);
    let mut i: usize = 0;
    let n = reversed.len();
    while reversed.len() > 0
        invariant
            bs == bindings_model(all),
            n == all.len(),
            i + reversed.len() == n,
            forall|j: int| 0 <= j < reversed.len() ==> #[trigger] reversed@[j] == all[n - 1 - j],
            params.len() == i,
            forall|j: int| 0 <= j < i ==> {
                &&& (#[trigger] params@[j]).binding@ == bs[j]
                &&& ops_model(params@[j].plan@) == synth_model(*policy, bs[j].name, bs[j].desc, bs[j].mutable)
            },
            opt_text(receiver) == call_receiver(bs.take(i as int)),
            names_model(args@) == call_args(bs.take(i as int)),
        decreases reversed.len(),
    {
        let b = reversed.pop().unwrap();
        assert(b == all[i as int]);
        assert(b@ == bs[i as int]);
        let plan = synthesize(policy, b.name.as_str(), &b.desc, b.mutable);
        proof {
            assert(bs.take(i + 1).drop_last() =~= bs.take(i as int));
            assert(bs.take(i + 1).last() == b@);
        }
        match b.role {
            Role::Receiver => {
                if receiver.is_none() {
                    receiver = Some(clone_name(&b.name));
                }
            },
            Role::Ordinary => {
                let ghost prev = args@;
                let a = clone_name(&b.name);
                args.push(a);
                assert(names_model(args@) =~= names_model(prev).push(b.name@));
            },
        }
        params.push(ParamPlan { binding: b, plan });
        i = i + 1;
    }
    assert(bs.take(i as int) =~= bs);
    let mut harness_name = String::from_str("check_");
    harness_name.append(target);
    HarnessSpec {
        harness_name,
        target: String::from_str(target),
        params,
        invocation: Invocation { receiver, target: String::from_str(target), args },
    }
}

/// The harness for an annotated function: its parameters are synthesized in
/// declaration order and the function is invoked with them. Any other item is
/// rejected.
pub fn kani_test(item: &SynItem, policy: &BoundingPolicy) -> (r: Result<HarnessSpec, Diagnostic>)
    ensures
        match *item {
            SynItem::Fn(f) => {
                &&& r is Ok
                &&& assembled(*policy, f.name@, extract_spec(*policy, f.inputs@), r->Ok_0)
                &&& distinct_top_names(r->Ok_0.params@)
                &&& distinct_binding_names(r->Ok_0.params@)
            },
            _ => r == Err::<HarnessSpec, Diagnostic>(Diagnostic::NotAFunction),
        },
{
    match item {
        SynItem::Fn(f) => {
            let bindings = extract_bindings(policy, &f.inputs);
            let ghost bs = bindings_model(bindings@);
            let h = assemble(policy, f.name.as_str(), bindings);
            proof {
                lemma_assembled_apart(*policy, bs, h.params@);
            }
            Ok(h)
        },
        _ => Err(Diagnostic::NotAFunction),
    }
}

} // verus!
