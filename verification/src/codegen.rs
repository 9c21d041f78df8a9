//! The interface generator.
//!
//! For every call of a validated component it emits an input capability
//! interface, an output capability interface and an output-validity record;
//! once per component it emits the output-export capability interface and
//! its generic implementation.  Calls are processed in declaration order.
//! Each generator is proved to emit exactly the artifact its spec function
//! describes.

use vstd::prelude::*;

use crate::artifact::{
    call_artifacts_view, input_accessors_view, output_accessors_view, ArtifactSet, CallArtifacts,
    InputAccessor, InputInterface, OutputAccessor, OutputExportImpl, OutputExportInterface,
    OutputInterface, SpecArtifactSet, SpecCallArtifacts, SpecInputAccessor, SpecInputInterface,
    SpecOutputAccessor, SpecOutputExportImpl, SpecOutputExportInterface, SpecOutputInterface,
    SpecTypeExpr, SpecValidityRecord, TypeExpr, ValidityRecord,
};
use crate::error::{CompileError, SpecCompileError, SyntaxError};
use crate::model::{
    copy_name, map_lookup, name_eq, names_view, pairs_view, CallBody, ComponentDefinition,
    InputType, OutputType, SpecCall, SpecComponent, SpecInputType, SpecOutputType,
};
use crate::naming::{
    pascal_case, pascal_of, spec_synth, suffix_input, suffix_input_vec, suffix_output,
    suffix_output_export, suffix_output_export_vec, suffix_output_valid, suffix_output_valid_vec,
    suffix_output_vec, synthesize,
};
use crate::parse::spec_component_of_tokens;
use crate::token::{spec_tokenize, tokenize, SpecToken};
use crate::validate::spec_validate;

verus! {

// ---------------------------------------------------------------------------
// The inputs a call can reach
// ---------------------------------------------------------------------------

/// The names of `obs` that do not occur in `takes`, in order.
pub open spec fn filter_not_in(obs: Seq<Seq<char>>, takes: Seq<Seq<char>>) -> Seq<Seq<char>>
    decreases obs.len(),
{
    if obs.len() == 0 {
        Seq::empty()
    } else {
        let rest = filter_not_in(obs.skip(1), takes);
        if takes.contains(obs[0]) {
            rest
        } else {
            seq![obs[0]] + rest
        }
    }
}

/// The inputs reachable from a call: its takes, then the observes that are
/// not also taken.  A name in both sets appears once, and its takes
/// semantics win.
pub open spec fn spec_union_inputs(call: SpecCall) -> Seq<Seq<char>> {
    call.takes + filter_not_in(call.observes, call.takes)
}

/// Decides whether a list of names contains `name`.
pub fn names_contain(names: &Vec<Vec<char>>, name: &Vec<char>) -> (r: bool)
    ensures
        r <==> names_view(names@).contains(name@),
{
    let ghost nv = names_view(names@);
    let mut k: usize = 0;
    while k < names.len()
        invariant
            k <= names@.len(),
            nv == names_view(names@),
            nv.len() == names@.len(),
            forall|w: int| 0 <= w < k ==> #[trigger] nv[w] != name@,
        decreases names@.len() - k,
    {
        if name_eq(&names[k], name) {
            proof {
                assert(nv[k as int] == name@);
            }
            return true;
        }
        proof {
            assert(nv[k as int] == names@[k as int]@);
        }
        k += 1;
    }
    false
}

/// Computes the inputs reachable from a call, takes first.
pub fn call_inputs_union(call: &CallBody) -> (r: Vec<Vec<char>>)
    ensures
        names_view(r@) == spec_union_inputs(call@),
{
    let ghost obs = call@.observes;
    let ghost takes = call@.takes;
    let mut out: Vec<Vec<char>> = Vec::new();
    let mut k: usize = 0;
    while k < call.takes.set.len()
        invariant
            k <= call.takes.set@.len(),
            takes == call@.takes,
            takes.len() == call.takes.set@.len(),
            names_view(out@) =~= takes.take(k as int),
        decreases call.takes.set@.len() - k,
    {
        let n = copy_name(&call.takes.set[k]);
        proof {
            crate::model::lemma_names_view_push(out@, n);
            assert(takes.take(k as int).push(takes[k as int]) =~= takes.take(k as int + 1));
        }
        out.push(n);
        k += 1;
    }
    proof {
        assert(takes.take(takes.len() as int) =~= takes);
        assert(obs.skip(0) =~= obs);
    }
    let mut w: usize = 0;
    while w < call.observes.set.len()
        invariant
            w <= call.observes.set@.len(),
            takes == call@.takes,
            obs == call@.observes,
            obs.len() == call.observes.set@.len(),
            spec_union_inputs(call@) == names_view(out@) + filter_not_in(obs.skip(w as int), takes),
        decreases call.observes.set@.len() - w,
    {
        let n = &call.observes.set[w];
        proof {
            assert(obs.skip(w as int)[0] == obs[w as int]);
            assert(obs[w as int] == n@);
            assert(obs.skip(w as int).skip(1) =~= obs.skip(w as int + 1));
        }
        if !names_contain(&call.takes.set, n) {
            let item = copy_name(n);
            proof {
                crate::model::lemma_names_view_push(out@, item);
                assert((names_view(out@) + (seq![n@] + filter_not_in(obs.skip(w as int + 1), takes)))
                    =~= (names_view(out@).push(n@) + filter_not_in(obs.skip(w as int + 1), takes)));
            }
            out.push(item);
        }
        w += 1;
    }
    proof {
        assert(filter_not_in(obs.skip(obs.len() as int), takes) =~= Seq::<Seq<char>>::empty());
        assert(names_view(out@) + Seq::<Seq<char>>::empty() =~= names_view(out@));
    }
    out
}

// ---------------------------------------------------------------------------
// Input interfaces
// ---------------------------------------------------------------------------

/// The type an input accessor yields: the interface's own slot for a
/// generic input, the concrete type otherwise.  (The fallback for an
/// undeclared name never arises for a validated component.)
pub open spec fn spec_input_ty_for(
    inputs: Seq<(Seq<char>, SpecInputType)>,
    n: Seq<char>,
) -> SpecTypeExpr {
    match map_lookup(inputs, n) {
        Some(SpecInputType::Generic(g)) => SpecTypeExpr::SelfGeneric(g),
        Some(SpecInputType::Concrete(t)) => SpecTypeExpr::Concrete(t),
        None => SpecTypeExpr::Concrete(n),
    }
}

/// The accessor generated for one reachable input: presence is guaranteed
/// exactly when the input is in the call's takes set.
pub open spec fn spec_accessor_for(
    inputs: Seq<(Seq<char>, SpecInputType)>,
    call: SpecCall,
    n: Seq<char>,
) -> SpecInputAccessor {
    SpecInputAccessor {
        name: n,
        guaranteed: call.takes.contains(n),
        ty: spec_input_ty_for(inputs, n),
    }
}

/// The accessors of a call's input interface, one per reachable input.
pub open spec fn spec_input_accessors(
    inputs: Seq<(Seq<char>, SpecInputType)>,
    call: SpecCall,
) -> Seq<SpecInputAccessor> {
    spec_union_inputs(call).map_values(|n: Seq<char>| spec_accessor_for(inputs, call, n))
}

/// The distinct generic placeholders among `names`'s input types, in first
/// occurrence order, those in `seen` left out.
pub open spec fn spec_generic_slots_from(
    inputs: Seq<(Seq<char>, SpecInputType)>,
    names: Seq<Seq<char>>,
    seen: Seq<Seq<char>>,
) -> Seq<Seq<char>>
    decreases names.len(),
{
    if names.len() == 0 {
        Seq::empty()
    } else {
        match map_lookup(inputs, names[0]) {
            Some(SpecInputType::Generic(g)) => {
                if seen.contains(g) {
                    spec_generic_slots_from(inputs, names.skip(1), seen)
                } else {
                    seq![g] + spec_generic_slots_from(inputs, names.skip(1), seen.push(g))
                }
            },
            _ => spec_generic_slots_from(inputs, names.skip(1), seen),
        }
    }
}

/// The type slots of a call's input interface: one per distinct generic
/// placeholder reachable from the call's inputs.
pub open spec fn spec_generic_slots(
    inputs: Seq<(Seq<char>, SpecInputType)>,
    call: SpecCall,
) -> Seq<Seq<char>> {
    spec_generic_slots_from(inputs, spec_union_inputs(call), Seq::empty())
}

/// The whole input interface of one call.
pub open spec fn spec_input_iface(
    comp: SpecComponent,
    call_name: Seq<char>,
    call: SpecCall,
) -> SpecInputInterface {
    SpecInputInterface {
        name: spec_synth(comp.name, Some(call_name), suffix_input()),
        type_slots: spec_generic_slots(comp.inputs, call),
        accessors: spec_input_accessors(comp.inputs, call),
    }
}

/// Copies an input type.
fn copy_input_type(t: &InputType) -> (r: InputType)
    ensures
        r@ == t@,
{
    match t {
        InputType::Generic(n) => InputType::Generic(copy_name(n)),
        InputType::Concrete(n) => InputType::Concrete(copy_name(n)),
    }
}

/// Finds the declared type of an input, at its first occurrence.
fn lookup_input(m: &Vec<(Vec<char>, InputType)>, key: &Vec<char>) -> (r: Option<InputType>)
    ensures
        match r {
            Some(ty) => map_lookup(pairs_view(m@), key@) == Some(ty@),
            None => map_lookup(pairs_view(m@), key@) is None,
        },
{
    let ghost mv = pairs_view(m@);
    proof {
        assert(mv.skip(0) =~= mv);
    }
    let mut k: usize = 0;
    while k < m.len()
        invariant
            k <= m@.len(),
            mv == pairs_view(m@),
            mv.len() == m@.len(),
            map_lookup(mv, key@) == map_lookup(mv.skip(k as int), key@),
        decreases m@.len() - k,
    {
        let p = &m[k];
        proof {
            assert(mv.skip(k as int)[0] == mv[k as int]);
            assert(mv[k as int] == (m@[k as int].0@, m@[k as int].1@));
        }
        if name_eq(&p.0, key) {
            return Some(copy_input_type(&p.1));
        }
        proof {
            assert(mv.skip(k as int).skip(1) =~= mv.skip(k as int + 1));
        }
        k += 1;
    }
    proof {
        assert(mv.skip(mv.len() as int) =~= Seq::<(Seq<char>, SpecInputType)>::empty());
    }
    None
}

/// Builds the accessor type for one reachable input.
fn input_ty_for(m: &Vec<(Vec<char>, InputType)>, n: &Vec<char>) -> (r: TypeExpr)
    ensures
        r@ == spec_input_ty_for(pairs_view(m@), n@),
{
    match lookup_input(m, n) {
        Some(InputType::Generic(g)) => TypeExpr::SelfGeneric(g),
        Some(InputType::Concrete(t)) => TypeExpr::Concrete(t),
        None => TypeExpr::Concrete(copy_name(n)),
    }
}

/// Builds one input accessor.
fn generate_fnc_for(
    m: &Vec<(Vec<char>, InputType)>,
    call: &CallBody,
    n: &Vec<char>,
) -> (r: InputAccessor)
    ensures
        r@ == spec_accessor_for(pairs_view(m@), call@, n@),
{
    let guaranteed = names_contain(&call.takes.set, n);
    let ty = input_ty_for(m, n);
    InputAccessor { name: copy_name(n), guaranteed, ty }
}

/// Collects the distinct generic placeholders reachable through `union`, in
/// first occurrence order.
pub fn generate_all_types(m: &Vec<(Vec<char>, InputType)>, union: &Vec<Vec<char>>) -> (r: Vec<
    Vec<char>,
>)
    ensures
        names_view(r@) == spec_generic_slots_from(pairs_view(m@), names_view(union@), Seq::empty()),
{
    let ghost mv = pairs_view(m@);
    let ghost uv = names_view(union@);
    let mut out: Vec<Vec<char>> = Vec::new();
    let mut seen: Vec<Vec<char>> = Vec::new();
    proof {
        assert(uv.skip(0) =~= uv);
        assert(names_view(out@) =~= Seq::<Seq<char>>::empty());
        assert(names_view(seen@) =~= Seq::<Seq<char>>::empty());
        assert(match spec_generic_slots_from(mv, uv, names_view(seen@)) {
            rest => names_view(out@) + rest =~= rest,
        });
    }
    let mut k: usize = 0;
    while k < union.len()
        invariant
            k <= union@.len(),
            mv == pairs_view(m@),
            uv == names_view(union@),
            uv.len() == union@.len(),
            spec_generic_slots_from(mv, uv, Seq::empty()) == names_view(out@)
                + spec_generic_slots_from(mv, uv.skip(k as int), names_view(seen@)),
        decreases union@.len() - k,
    {
        let n = &union[k];
        proof {
            assert(uv.skip(k as int)[0] == uv[k as int]);
            assert(uv[k as int] == n@);
            assert(uv.skip(k as int).skip(1) =~= uv.skip(k as int + 1));
        }
        match lookup_input(m, n) {
            Some(InputType::Generic(g)) => {
                if !names_contain(&seen, &g) {
                    let g2 = copy_name(&g);
                    proof {
                        crate::model::lemma_names_view_push(out@, g);
                        crate::model::lemma_names_view_push(seen@, g2);
                        assert(names_view(seen@).push(g2@) == names_view(seen@).push(g@));
                        assert((names_view(out@) + (seq![g@] + spec_generic_slots_from(
                            mv,
                            uv.skip(k as int + 1),
                            names_view(seen@).push(g@),
                        ))) =~= (names_view(out@).push(g@) + spec_generic_slots_from(
                            mv,
                            uv.skip(k as int + 1),
                            names_view(seen@).push(g@),
                        )));
                    }
                    seen.push(g2);
                    out.push(g);
                }
            },
            _ => {},
        }
        k += 1;
    }
    proof {
        assert(spec_generic_slots_from(mv, uv.skip(uv.len() as int), names_view(seen@))
            =~= Seq::<Seq<char>>::empty());
        assert(names_view(out@) + Seq::<Seq<char>>::empty() =~= names_view(out@));
    }
    out
}

/// Builds the input interface for the reachable inputs of a call, under a
/// given interface name.
pub fn generate_input_trait_for(
    m: &Vec<(Vec<char>, InputType)>,
    call: &CallBody,
    trait_name: Vec<char>,
) -> (r: InputInterface)
    ensures
        r@ == (SpecInputInterface {
            name: trait_name@,
            type_slots: spec_generic_slots(pairs_view(m@), call@),
            accessors: spec_input_accessors(pairs_view(m@), call@),
        }),
{
    let ghost mv = pairs_view(m@);
    let union = call_inputs_union(call);
    let type_slots = generate_all_types(m, &union);
    let ghost accs = spec_input_accessors(mv, call@);
    let mut accessors: Vec<InputAccessor> = Vec::new();
    proof {
        assert(input_accessors_view(accessors@) =~= accs.take(0));
    }
    let mut k: usize = 0;
    while k < union.len()
        invariant
            k <= union@.len(),
            mv == pairs_view(m@),
            names_view(union@) == spec_union_inputs(call@),
            accs == spec_input_accessors(mv, call@),
            accs.len() == union@.len(),
            input_accessors_view(accessors@) =~= accs.take(k as int),
        decreases union@.len() - k,
    {
        let a = generate_fnc_for(m, call, &union[k]);
        proof {
            assert(names_view(union@)[k as int] == union@[k as int]@);
            assert(accs[k as int] == spec_accessor_for(mv, call@, union@[k as int]@));
            assert(input_accessors_view(accessors@.push(a)) =~= input_accessors_view(
                accessors@,
            ).push(a@));
            assert(accs.take(k as int).push(accs[k as int]) =~= accs.take(k as int + 1));
        }
        accessors.push(a);
        k += 1;
    }
    proof {
        assert(accs.take(accs.len() as int) =~= accs);
    }
    InputInterface { name: trait_name, type_slots, accessors }
}

/// Builds the input capability interface of one call.
pub fn generate_input_trait(
    component: &ComponentDefinition,
    call_name: &Vec<char>,
    call: &CallBody,
) -> (r: InputInterface)
    ensures
        r@ == spec_input_iface(component@, call_name@, call@),
{
    let suffix = suffix_input_vec();
    let trait_name = synthesize(&component.name, Some(call_name), &suffix);
    generate_input_trait_for(&component.inputs.inputs.map, call, trait_name)
}

// ---------------------------------------------------------------------------
// Output interfaces
// ---------------------------------------------------------------------------

/// The type of the mutable handle an output accessor yields: the concrete
/// type verbatim, or, for a deduced output, the export parameter's
/// associated type named by the output's capitalized-word form.  (The
/// fallback for an undeclared name never arises for a validated component.)
pub open spec fn spec_output_ty_for(
    outputs: Seq<(Seq<char>, SpecOutputType)>,
    n: Seq<char>,
) -> SpecTypeExpr {
    match map_lookup(outputs, n) {
        Some(SpecOutputType::Concrete(t)) => SpecTypeExpr::Concrete(t),
        Some(SpecOutputType::FromTrait(_)) => SpecTypeExpr::ExportAssoc(pascal_of(n)),
        None => SpecTypeExpr::Concrete(n),
    }
}

/// The accessors of a call's output interface, one per written output.
pub open spec fn spec_output_accessors(
    outputs: Seq<(Seq<char>, SpecOutputType)>,
    call: SpecCall,
) -> Seq<SpecOutputAccessor> {
    call.writes.map_values(
        |n: Seq<char>| SpecOutputAccessor { name: n, ty: spec_output_ty_for(outputs, n) },
    )
}

/// Whether any output the call writes has a deduced type, so that the
/// call's output interface must be parameterized by the export interface.
pub open spec fn spec_call_needs_export(
    outputs: Seq<(Seq<char>, SpecOutputType)>,
    call: SpecCall,
) -> bool {
    exists|k: int|
        0 <= k < call.writes.len() && map_lookup(outputs, #[trigger] call.writes[k]) matches Some(
            SpecOutputType::FromTrait(_),
        )
}

/// The name of a component's output-export interface.
pub open spec fn spec_export_name(comp: SpecComponent) -> Seq<char> {
    spec_synth(comp.name, None, suffix_output_export())
}

/// The whole output interface of one call.
pub open spec fn spec_output_iface(
    comp: SpecComponent,
    call_name: Seq<char>,
    call: SpecCall,
) -> SpecOutputInterface {
    SpecOutputInterface {
        name: spec_synth(comp.name, Some(call_name), suffix_output()),
        export_param: if spec_call_needs_export(comp.outputs, call) {
            Some(spec_export_name(comp))
        } else {
            None
        },
        accessors: spec_output_accessors(comp.outputs, call),
    }
}

/// Copies an output type.
fn copy_output_type(t: &OutputType) -> (r: OutputType)
    ensures
        r@ == t@,
{
    match t {
        OutputType::FromTrait(n) => OutputType::FromTrait(copy_name(n)),
        OutputType::Concrete(n) => OutputType::Concrete(copy_name(n)),
    }
}

/// Finds the declared type of an output, at its first occurrence.
fn lookup_output(m: &Vec<(Vec<char>, OutputType)>, key: &Vec<char>) -> (r: Option<OutputType>)
    ensures
        match r {
            Some(ty) => map_lookup(pairs_view(m@), key@) == Some(ty@),
            None => map_lookup(pairs_view(m@), key@) is None,
        },
{
    let ghost mv = pairs_view(m@);
    proof {
        assert(mv.skip(0) =~= mv);
    }
    let mut k: usize = 0;
    while k < m.len()
        invariant
            k <= m@.len(),
            mv == pairs_view(m@),
            mv.len() == m@.len(),
            map_lookup(mv, key@) == map_lookup(mv.skip(k as int), key@),
        decreases m@.len() - k,
    {
        let p = &m[k];
        proof {
            assert(mv.skip(k as int)[0] == mv[k as int]);
            assert(mv[k as int] == (m@[k as int].0@, m@[k as int].1@));
        }
        if name_eq(&p.0, key) {
            return Some(copy_output_type(&p.1));
        }
        proof {
            assert(mv.skip(k as int).skip(1) =~= mv.skip(k as int + 1));
        }
        k += 1;
    }
    proof {
        assert(mv.skip(mv.len() as int) =~= Seq::<(Seq<char>, SpecOutputType)>::empty());
    }
    None
}

/// Builds the handle type for one written output.
fn output_ty_for(m: &Vec<(Vec<char>, OutputType)>, n: &Vec<char>) -> (r: TypeExpr)
    ensures
        r@ == spec_output_ty_for(pairs_view(m@), n@),
{
    match lookup_output(m, n) {
        Some(OutputType::Concrete(t)) => TypeExpr::Concrete(t),
        Some(OutputType::FromTrait(_)) => TypeExpr::ExportAssoc(pascal_case(n)),
        None => TypeExpr::Concrete(copy_name(n)),
    }
}

/// Decides whether a call writes any output with a deduced type.
fn call_needs_export(m: &Vec<(Vec<char>, OutputType)>, call: &CallBody) -> (r: bool)
    ensures
        r == spec_call_needs_export(pairs_view(m@), call@),
{
    let ghost mv = pairs_view(m@);
    let ghost writes = call@.writes;
    let mut k: usize = 0;
    while k < call.writes.set.len()
        invariant
            k <= call.writes.set@.len(),
            mv == pairs_view(m@),
            writes == call@.writes,
            writes.len() == call.writes.set@.len(),
            forall|w: int|
                0 <= w < k ==> !(map_lookup(mv, #[trigger] writes[w]) matches Some(
                    SpecOutputType::FromTrait(_),
                )),
        decreases call.writes.set@.len() - k,
    {
        let n = &call.writes.set[k];
        proof {
            assert(writes[k as int] == n@);
        }
        match lookup_output(m, n) {
            Some(OutputType::FromTrait(_)) => {
                proof {
                    assert(map_lookup(mv, writes[k as int]) matches Some(
                        SpecOutputType::FromTrait(_),
                    ));
                }
                return true;
            },
            _ => {},
        }
        k += 1;
    }
    false
}

/// Builds the output capability interface of one call.
pub fn generate_output_trait(
    component: &ComponentDefinition,
    call_name: &Vec<char>,
    call: &CallBody,
) -> (r: OutputInterface)
    ensures
        r@ == spec_output_iface(component@, call_name@, call@),
{
    let ghost mv = pairs_view(component.outputs.outputs.map@);
    let suffix = suffix_output_vec();
    let name = synthesize(&component.name, Some(call_name), &suffix);
    let export_param = if call_needs_export(&component.outputs.outputs.map, call) {
        let export_suffix = suffix_output_export_vec();
        Some(synthesize(&component.name, None, &export_suffix))
    } else {
        None
    };
    let ghost accs = spec_output_accessors(mv, call@);
    let mut accessors: Vec<OutputAccessor> = Vec::new();
    proof {
        assert(output_accessors_view(accessors@) =~= accs.take(0));
    }
    let mut k: usize = 0;
    while k < call.writes.set.len()
        invariant
            k <= call.writes.set@.len(),
            mv == pairs_view(component.outputs.outputs.map@),
            accs == spec_output_accessors(mv, call@),
            call@.writes.len() == call.writes.set@.len(),
            accs.len() == call.writes.set@.len(),
            output_accessors_view(accessors@) =~= accs.take(k as int),
        decreases call.writes.set@.len() - k,
    {
        let n = &call.writes.set[k];
        let a = OutputAccessor { name: copy_name(n), ty: output_ty_for(&component.outputs.outputs.map, n) };
        proof {
            assert(call@.writes[k as int] == n@);
            assert(accs[k as int] == (SpecOutputAccessor {
                name: n@,
                ty: spec_output_ty_for(mv, n@),
            }));
            assert(output_accessors_view(accessors@.push(a)) =~= output_accessors_view(
                accessors@,
            ).push(a@));
            assert(accs.take(k as int).push(accs[k as int]) =~= accs.take(k as int + 1));
        }
        accessors.push(a);
        k += 1;
    }
    proof {
        assert(accs.take(accs.len() as int) =~= accs);
    }
    OutputInterface { name, export_param, accessors }
}

// ---------------------------------------------------------------------------
// The output-export interface and its implementation
// ---------------------------------------------------------------------------

/// The type slots of the export interface: every declared output's name in
/// capitalized-word form, in declaration order.
pub open spec fn spec_export_slots(outputs: Seq<(Seq<char>, SpecOutputType)>) -> Seq<Seq<char>> {
    outputs.map_values(|p: (Seq<char>, SpecOutputType)| pascal_of(p.0))
}

/// The whole output-export interface of a component.
pub open spec fn spec_export_iface(comp: SpecComponent) -> SpecOutputExportInterface {
    SpecOutputExportInterface {
        name: spec_export_name(comp),
        type_slots: spec_export_slots(comp.outputs),
    }
}

/// The distinct capability names that deduced outputs reference, in first
/// occurrence order, those in `seen` left out.
pub open spec fn spec_export_bounds_from(
    outputs: Seq<(Seq<char>, SpecOutputType)>,
    seen: Seq<Seq<char>>,
) -> Seq<Seq<char>>
    decreases outputs.len(),
{
    if outputs.len() == 0 {
        Seq::empty()
    } else {
        match outputs[0].1 {
            SpecOutputType::FromTrait(tr) => {
                if seen.contains(tr) {
                    spec_export_bounds_from(outputs.skip(1), seen)
                } else {
                    seq![tr] + spec_export_bounds_from(outputs.skip(1), seen.push(tr))
                }
            },
            SpecOutputType::Concrete(_) => spec_export_bounds_from(outputs.skip(1), seen),
        }
    }
}

/// The associated type bound to each export slot by the generic
/// implementation: the output's concrete type verbatim, or the named
/// capability's associated type for a deduced output.
pub open spec fn spec_export_assocs(outputs: Seq<(Seq<char>, SpecOutputType)>) -> Seq<
    (Seq<char>, SpecTypeExpr),
> {
    outputs.map_values(
        |p: (Seq<char>, SpecOutputType)|
            (
                pascal_of(p.0),
                match p.1 {
                    SpecOutputType::Concrete(t) => SpecTypeExpr::Concrete(t),
                    SpecOutputType::FromTrait(tr) => SpecTypeExpr::TraitAssoc(tr, pascal_of(p.0)),
                },
            ),
    )
}

/// The whole generic implementation of the export interface.
pub open spec fn spec_export_impl(comp: SpecComponent) -> SpecOutputExportImpl {
    SpecOutputExportImpl {
        trait_name: spec_export_name(comp),
        bounds: spec_export_bounds_from(comp.outputs, Seq::empty()),
        assocs: spec_export_assocs(comp.outputs),
    }
}

/// Builds the output-export capability interface of the component.
pub fn generate_output_export_trait(component: &ComponentDefinition) -> (r: OutputExportInterface)
    ensures
        r@ == spec_export_iface(component@),
{
    let ghost ov = pairs_view(component.outputs.outputs.map@);
    let export_suffix = suffix_output_export_vec();
    let name = synthesize(&component.name, None, &export_suffix);
    let ghost slots = spec_export_slots(ov);
    let mut type_slots: Vec<Vec<char>> = Vec::new();
    proof {
        assert(names_view(type_slots@) =~= slots.take(0));
    }
    let mut k: usize = 0;
    while k < component.outputs.outputs.map.len()
        invariant
            k <= component.outputs.outputs.map@.len(),
            ov == pairs_view(component.outputs.outputs.map@),
            slots == spec_export_slots(ov),
            ov.len() == component.outputs.outputs.map@.len(),
            slots.len() == ov.len(),
            names_view(type_slots@) =~= slots.take(k as int),
        decreases component.outputs.outputs.map@.len() - k,
    {
        let entry = &component.outputs.outputs.map[k];
        let piece = pascal_case(&entry.0);
        proof {
            assert(ov[k as int] == (entry.0@, entry.1@));
            assert(slots[k as int] == pascal_of(entry.0@));
            crate::model::lemma_names_view_push(type_slots@, piece);
            assert(slots.take(k as int).push(slots[k as int]) =~= slots.take(k as int + 1));
        }
        type_slots.push(piece);
        k += 1;
    }
    proof {
        assert(slots.take(slots.len() as int) =~= slots);
    }
    OutputExportInterface { name, type_slots }
}

/// Builds the generic implementation of the export interface.
pub fn generate_output_export_impl(component: &ComponentDefinition) -> (r: OutputExportImpl)
    ensures
        r@ == spec_export_impl(component@),
{
    let ghost ov = pairs_view(component.outputs.outputs.map@);
    let export_suffix = suffix_output_export_vec();
    let trait_name = synthesize(&component.name, None, &export_suffix);

    let mut bounds: Vec<Vec<char>> = Vec::new();
    let mut seen: Vec<Vec<char>> = Vec::new();
    proof {
        assert(ov.skip(0) =~= ov);
        assert(names_view(bounds@) =~= Seq::<Seq<char>>::empty());
        assert(names_view(seen@) =~= Seq::<Seq<char>>::empty());
        assert(match spec_export_bounds_from(ov, names_view(seen@)) {
            rest => names_view(bounds@) + rest =~= rest,
        });
    }
    let mut k: usize = 0;
    while k < component.outputs.outputs.map.len()
        invariant
            k <= component.outputs.outputs.map@.len(),
            ov == pairs_view(component.outputs.outputs.map@),
            ov.len() == component.outputs.outputs.map@.len(),
            spec_export_bounds_from(ov, Seq::empty()) == names_view(bounds@)
                + spec_export_bounds_from(ov.skip(k as int), names_view(seen@)),
        decreases component.outputs.outputs.map@.len() - k,
    {
        let entry = &component.outputs.outputs.map[k];
        proof {
            assert(ov.skip(k as int)[0] == ov[k as int]);
            assert(ov[k as int] == (entry.0@, entry.1@));
            assert(ov.skip(k as int).skip(1) =~= ov.skip(k as int + 1));
        }
        match &entry.1 {
            OutputType::FromTrait(tr) => {
                if !names_contain(&seen, tr) {
                    let t1 = copy_name(tr);
                    let t2 = copy_name(tr);
                    proof {
                        crate::model::lemma_names_view_push(bounds@, t1);
                        crate::model::lemma_names_view_push(seen@, t2);
                        assert((names_view(bounds@) + (seq![tr@] + spec_export_bounds_from(
                            ov.skip(k as int + 1),
                            names_view(seen@).push(tr@),
                        ))) =~= (names_view(bounds@).push(tr@) + spec_export_bounds_from(
                            ov.skip(k as int + 1),
                            names_view(seen@).push(tr@),
                        )));
                    }
                    seen.push(t2);
                    bounds.push(t1);
                }
            },
            OutputType::Concrete(_) => {},
        }
        k += 1;
    }
    proof {
        assert(spec_export_bounds_from(ov.skip(ov.len() as int), names_view(seen@))
            =~= Seq::<Seq<char>>::empty());
        assert(names_view(bounds@) + Seq::<Seq<char>>::empty() =~= names_view(bounds@));
    }

    let ghost assocs_spec = spec_export_assocs(ov);
    let mut assocs: Vec<(Vec<char>, TypeExpr)> = Vec::new();
    proof {
        assert(pairs_view(assocs@) =~= assocs_spec.take(0));
    }
    let mut w: usize = 0;
    while w < component.outputs.outputs.map.len()
        invariant
            w <= component.outputs.outputs.map@.len(),
            ov == pairs_view(component.outputs.outputs.map@),
            assocs_spec == spec_export_assocs(ov),
            ov.len() == component.outputs.outputs.map@.len(),
            assocs_spec.len() == ov.len(),
            pairs_view(assocs@) =~= assocs_spec.take(w as int),
        decreases component.outputs.outputs.map@.len() - w,
    {
        let entry = &component.outputs.outputs.map[w];
        let slot = pascal_case(&entry.0);
        let ty = match &entry.1 {
            OutputType::Concrete(t) => TypeExpr::Concrete(copy_name(t)),
            OutputType::FromTrait(tr) => TypeExpr::TraitAssoc(copy_name(tr), pascal_case(&entry.0)),
        };
        let item = (slot, ty);
        proof {
            assert(ov[w as int] == (entry.0@, entry.1@));
            assert(assocs_spec[w as int] == (pascal_of(entry.0@), match entry.1@ {
                SpecOutputType::Concrete(t) => SpecTypeExpr::Concrete(t),
                SpecOutputType::FromTrait(tr) => SpecTypeExpr::TraitAssoc(tr, pascal_of(entry.0@)),
            }));
            crate::model::lemma_pairs_view_push(assocs@, item);
            assert(assocs_spec.take(w as int).push(assocs_spec[w as int]) =~= assocs_spec.take(
                w as int + 1,
            ));
        }
        assocs.push(item);
        w += 1;
    }
    proof {
        assert(assocs_spec.take(assocs_spec.len() as int) =~= assocs_spec);
    }
    OutputExportImpl { trait_name, bounds, assocs }
}

// ---------------------------------------------------------------------------
// Validity records and the whole artifact set
// ---------------------------------------------------------------------------

/// The output-validity record of one call: one boolean field per written
/// output, in declaration order, each defaulting to false.
pub open spec fn spec_validity_record(
    comp: SpecComponent,
    call_name: Seq<char>,
    call: SpecCall,
) -> SpecValidityRecord {
    SpecValidityRecord {
        name: spec_synth(comp.name, Some(call_name), suffix_output_valid()),
        fields: call.writes,
    }
}

/// Builds the output-validity record of one call.
pub fn generate_output_valid_struct(
    component: &ComponentDefinition,
    call_name: &Vec<char>,
    call: &CallBody,
) -> (r: ValidityRecord)
    ensures
        r@ == spec_validity_record(component@, call_name@, call@),
{
    let suffix = suffix_output_valid_vec();
    let name = synthesize(&component.name, Some(call_name), &suffix);
    let mut fields: Vec<Vec<char>> = Vec::new();
    proof {
        assert(names_view(fields@) =~= call@.writes.take(0));
    }
    let mut k: usize = 0;
    while k < call.writes.set.len()
        invariant
            k <= call.writes.set@.len(),
            call@.writes.len() == call.writes.set@.len(),
            names_view(fields@) =~= call@.writes.take(k as int),
        decreases call.writes.set@.len() - k,
    {
        let n = copy_name(&call.writes.set[k]);
        proof {
            assert(call@.writes[k as int] == call.writes.set@[k as int]@);
            crate::model::lemma_names_view_push(fields@, n);
            assert(call@.writes.take(k as int).push(call@.writes[k as int]) =~= call@.writes.take(
                k as int + 1,
            ));
        }
        fields.push(n);
        k += 1;
    }
    proof {
        assert(call@.writes.take(call@.writes.len() as int) =~= call@.writes);
    }
    ValidityRecord { name, fields }
}

/// Every artifact generated for one call.
pub open spec fn spec_call_artifacts(
    comp: SpecComponent,
    call_name: Seq<char>,
    call: SpecCall,
) -> SpecCallArtifacts {
    SpecCallArtifacts {
        call_name: call_name,
        input: spec_input_iface(comp, call_name, call),
        output: spec_output_iface(comp, call_name, call),
        valid: spec_validity_record(comp, call_name, call),
    }
}

/// The whole artifact set of a component: the export interface and its
/// implementation once, and the three per-call artifacts for every call in
/// declaration order.
pub open spec fn spec_codegen(comp: SpecComponent) -> SpecArtifactSet {
    SpecArtifactSet {
        export: spec_export_iface(comp),
        export_impl: spec_export_impl(comp),
        calls: comp.calls.map_values(
            |p: (Seq<char>, SpecCall)| spec_call_artifacts(comp, p.0, p.1),
        ),
    }
}

/// Generates the artifact set of a component.
pub fn codegen(component: &ComponentDefinition) -> (r: ArtifactSet)
    ensures
        r@ == spec_codegen(component@),
{
    let export = generate_output_export_trait(component);
    let export_impl = generate_output_export_impl(component);
    let ghost calls_spec = spec_codegen(component@).calls;
    let mut calls: Vec<CallArtifacts> = Vec::new();
    proof {
        assert(call_artifacts_view(calls@) =~= calls_spec.take(0));
    }
    let mut k: usize = 0;
    while k < component.all_calls.calls.map.len()
        invariant
            k <= component.all_calls.calls.map@.len(),
            calls_spec == spec_codegen(component@).calls,
            component@.calls.len() == component.all_calls.calls.map@.len(),
            calls_spec.len() == component.all_calls.calls.map@.len(),
            call_artifacts_view(calls@) =~= calls_spec.take(k as int),
        decreases component.all_calls.calls.map@.len() - k,
    {
        let entry = &component.all_calls.calls.map[k];
        let input = generate_input_trait(component, &entry.0, &entry.1);
        let output = generate_output_trait(component, &entry.0, &entry.1);
        let valid = generate_output_valid_struct(component, &entry.0, &entry.1);
        let a = CallArtifacts { call_name: copy_name(&entry.0), input, output, valid };
        proof {
            assert(component@.calls[k as int] == (entry.0@, entry.1@));
            assert(calls_spec[k as int] == spec_call_artifacts(component@, entry.0@, entry.1@));
            assert(call_artifacts_view(calls@.push(a)) =~= call_artifacts_view(calls@).push(a@));
            assert(calls_spec.take(k as int).push(calls_spec[k as int]) =~= calls_spec.take(
                k as int + 1,
            ));
        }
        calls.push(a);
        k += 1;
    }
    proof {
        assert(calls_spec.take(calls_spec.len() as int) =~= calls_spec);
    }
    ArtifactSet { export, export_impl, calls }
}

// ---------------------------------------------------------------------------
// The whole pipeline
// ---------------------------------------------------------------------------

/// What compiling schema text yields: the artifact set of the parsed,
/// validated component, or the first error of the earliest failing stage.
pub open spec fn spec_compile(s: Seq<char>) -> Result<SpecArtifactSet, SpecCompileError> {
    match spec_tokenize(s) {
        Ok(ts) => match spec_component_of_tokens(ts) {
            Ok(c) => Ok(spec_codegen(c)),
            Err(e) => Err(e),
        },
        Err(p) => Err(SpecCompileError::Syntax(p)),
    }
}

/// Compiles schema source text into the component's artifact set: tokenize,
/// parse, validate, generate.
pub fn compile_component(src: &Vec<char>) -> (r: Result<ArtifactSet, CompileError>)
    ensures
        match r {
            Ok(a) => spec_compile(src@) == Ok::<SpecArtifactSet, SpecCompileError>(a@),
            Err(e) => spec_compile(src@) == Err::<SpecArtifactSet, SpecCompileError>(e@),
        },
{
    let toks = match tokenize(src) {
        Ok(ts) => ts,
        Err(e) => {
            return Err(CompileError::Syntax(e));
        },
    };
    let def = match ComponentDefinition::parse(&toks) {
        Ok(d) => d,
        Err(e) => {
            return Err(e);
        },
    };
    Ok(codegen(&def))
}

} // verus!
