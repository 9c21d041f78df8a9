//! Semantic validation of a parsed component definition.
//!
//! A call may only reference declared ports: every name in a call's takes
//! and observes sets must be a declared input, and every name in its writes
//! set must be a declared output.  Validation is fail-fast: the first
//! offending call, in declaration order, is reported with the first
//! undeclared name it references (takes before observes), and input
//! references are checked across all calls before any write is.

use vstd::prelude::*;

use crate::error::{ReferenceError, SpecReference};
use crate::model::{
    copy_name, map_keys, name_eq, pairs_view, CallBody, ComponentDefinition, SpecCall,
    SpecComponent,
};

verus! {

// ---------------------------------------------------------------------------
// What the validator decides
// ---------------------------------------------------------------------------

/// The input references of a call: its takes, then its observes.
pub open spec fn call_input_refs(c: SpecCall) -> Seq<Seq<char>> {
    c.takes + c.observes
}

/// The first name of `names` that `declared` does not contain.
pub open spec fn first_undeclared(names: Seq<Seq<char>>, declared: Seq<Seq<char>>) -> Option<
    Seq<char>,
>
    decreases names.len(),
{
    if names.len() == 0 {
        None
    } else if !declared.contains(names[0]) {
        Some(names[0])
    } else {
        first_undeclared(names.skip(1), declared)
    }
}

/// The first call, in declaration order, with an input reference that is not
/// a declared input, together with that reference.
pub open spec fn spec_validate_inputs(
    calls: Seq<(Seq<char>, SpecCall)>,
    declared: Seq<Seq<char>>,
) -> Option<SpecReference>
    decreases calls.len(),
{
    if calls.len() == 0 {
        None
    } else {
        match first_undeclared(call_input_refs(calls[0].1), declared) {
            Some(n) => Some(SpecReference { call: calls[0].0, ident: n }),
            None => spec_validate_inputs(calls.skip(1), declared),
        }
    }
}

/// The first call, in declaration order, with a write that is not a declared
/// output, together with that name.
pub open spec fn spec_validate_outputs(
    calls: Seq<(Seq<char>, SpecCall)>,
    declared: Seq<Seq<char>>,
) -> Option<SpecReference>
    decreases calls.len(),
{
    if calls.len() == 0 {
        None
    } else {
        match first_undeclared(calls[0].1.writes, declared) {
            Some(n) => Some(SpecReference { call: calls[0].0, ident: n }),
            None => spec_validate_outputs(calls.skip(1), declared),
        }
    }
}

/// What validating a component yields: nothing, or the first reference
/// error.  Input references are checked across all calls before writes are.
pub open spec fn spec_validate(c: SpecComponent) -> Option<SpecReference> {
    match spec_validate_inputs(c.calls, map_keys(c.inputs)) {
        Some(e) => Some(e),
        None => spec_validate_outputs(c.calls, map_keys(c.outputs)),
    }
}

/// Referential integrity: every call's input references are declared inputs
/// and every call's writes are declared outputs.
pub open spec fn spec_refs_ok(c: SpecComponent) -> bool {
    forall|k: int|
        0 <= k < c.calls.len() ==> {
            let call = (#[trigger] c.calls[k]).1;
            (forall|m: int|
                0 <= m < call_input_refs(call).len() ==> map_keys(c.inputs).contains(
                    #[trigger] call_input_refs(call)[m],
                )) && (forall|m: int|
                0 <= m < call.writes.len() ==> map_keys(c.outputs).contains(
                    #[trigger] call.writes[m],
                ))
        }
}

/// `e` names a call of `c` and a name that the call references but the
/// component does not declare.
pub open spec fn spec_names_offender(c: SpecComponent, e: SpecReference) -> bool {
    exists|k: int|
        0 <= k < c.calls.len() && (#[trigger] c.calls[k]).0 == e.call && {
            let call = c.calls[k].1;
            (call_input_refs(call).contains(e.ident) && !map_keys(c.inputs).contains(e.ident)) || (
            call.writes.contains(e.ident) && !map_keys(c.outputs).contains(e.ident))
        }
}

// ---------------------------------------------------------------------------
// Properties of the decision
// ---------------------------------------------------------------------------

pub proof fn lemma_first_undeclared_props(names: Seq<Seq<char>>, declared: Seq<Seq<char>>)
    ensures
        first_undeclared(names, declared) is None <==> (forall|m: int|
            0 <= m < names.len() ==> declared.contains(#[trigger] names[m])),
        match first_undeclared(names, declared) {
            Some(n) => names.contains(n) && !declared.contains(n),
            None => true,
        },
    decreases names.len(),
{
    if names.len() > 0 {
        lemma_first_undeclared_props(names.skip(1), declared);
        if declared.contains(names[0]) {
            if first_undeclared(names, declared) is None {
                assert forall|m: int| 0 <= m < names.len() implies declared.contains(
                    #[trigger] names[m],
                ) by {
                    if m > 0 {
                        assert(names.skip(1)[m - 1] == names[m]);
                    }
                }
            }
            if forall|m: int| 0 <= m < names.len() ==> declared.contains(#[trigger] names[m]) {
                assert forall|m: int| 0 <= m < names.skip(1).len() implies declared.contains(
                    #[trigger] names.skip(1)[m],
                ) by {
                    assert(names.skip(1)[m] == names[m + 1]);
                }
                assert(first_undeclared(names.skip(1), declared) is None);
            }
            match first_undeclared(names.skip(1), declared) {
                Some(n) => {
                    let w = choose|w: int| 0 <= w < names.skip(1).len() && names.skip(1)[w] == n;
                    assert(names[w + 1] == n);
                },
                None => {},
            }
        }
    }
}

pub proof fn lemma_validate_inputs_props(
    calls: Seq<(Seq<char>, SpecCall)>,
    declared: Seq<Seq<char>>,
)
    ensures
        spec_validate_inputs(calls, declared) is None <==> (forall|k: int|
            0 <= k < calls.len() ==> first_undeclared(
                call_input_refs((#[trigger] calls[k]).1),
                declared,
            ) is None),
        match spec_validate_inputs(calls, declared) {
            Some(e) => exists|k: int|
                0 <= k < calls.len() && (#[trigger] calls[k]).0 == e.call && first_undeclared(
                    call_input_refs(calls[k].1),
                    declared,
                ) == Some(e.ident),
            None => true,
        },
    decreases calls.len(),
{
    if calls.len() > 0 {
        lemma_validate_inputs_props(calls.skip(1), declared);
        match first_undeclared(call_input_refs(calls[0].1), declared) {
            Some(_) => {
                assert((#[trigger] calls[0]).0 == calls[0].0);
            },
            None => {
                if spec_validate_inputs(calls, declared) is None {
                    assert forall|k: int| 0 <= k < calls.len() implies first_undeclared(
                        call_input_refs((#[trigger] calls[k]).1),
                        declared,
                    ) is None by {
                        if k > 0 {
                            assert(calls.skip(1)[k - 1] == calls[k]);
                        }
                    }
                }
                if forall|k: int|
                    0 <= k < calls.len() ==> first_undeclared(
                        call_input_refs((#[trigger] calls[k]).1),
                        declared,
                    ) is None {
                    assert forall|k: int| 0 <= k < calls.skip(1).len() implies first_undeclared(
                        call_input_refs((#[trigger] calls.skip(1)[k]).1),
                        declared,
                    ) is None by {
                        assert(calls.skip(1)[k] == calls[k + 1]);
                    }
                    assert(spec_validate_inputs(calls.skip(1), declared) is None);
                }
                match spec_validate_inputs(calls.skip(1), declared) {
                    Some(e) => {
                        let w = choose|w: int|
                            0 <= w < calls.skip(1).len() && (#[trigger] calls.skip(1)[w]).0
                                == e.call && first_undeclared(
                                call_input_refs(calls.skip(1)[w].1),
                                declared,
                            ) == Some(e.ident);
                        assert(calls[w + 1] == calls.skip(1)[w]);
                    },
                    None => {},
                }
            },
        }
    }
}

pub proof fn lemma_validate_outputs_props(
    calls: Seq<(Seq<char>, SpecCall)>,
    declared: Seq<Seq<char>>,
)
    ensures
        spec_validate_outputs(calls, declared) is None <==> (forall|k: int|
            0 <= k < calls.len() ==> first_undeclared(
                (#[trigger] calls[k]).1.writes,
                declared,
            ) is None),
        match spec_validate_outputs(calls, declared) {
            Some(e) => exists|k: int|
                0 <= k < calls.len() && (#[trigger] calls[k]).0 == e.call && first_undeclared(
                    calls[k].1.writes,
                    declared,
                ) == Some(e.ident),
            None => true,
        },
    decreases calls.len(),
{
    if calls.len() > 0 {
        lemma_validate_outputs_props(calls.skip(1), declared);
        match first_undeclared(calls[0].1.writes, declared) {
            Some(_) => {
                assert((#[trigger] calls[0]).0 == calls[0].0);
            },
            None => {
                if spec_validate_outputs(calls, declared) is None {
                    assert forall|k: int| 0 <= k < calls.len() implies first_undeclared(
                        (#[trigger] calls[k]).1.writes,
                        declared,
                    ) is None by {
                        if k > 0 {
                            assert(calls.skip(1)[k - 1] == calls[k]);
                        }
                    }
                }
                if forall|k: int|
                    0 <= k < calls.len() ==> first_undeclared(
                        (#[trigger] calls[k]).1.writes,
                        declared,
                    ) is None {
                    assert forall|k: int| 0 <= k < calls.skip(1).len() implies first_undeclared(
                        (#[trigger] calls.skip(1)[k]).1.writes,
                        declared,
                    ) is None by {
                        assert(calls.skip(1)[k] == calls[k + 1]);
                    }
                    assert(spec_validate_outputs(calls.skip(1), declared) is None);
                }
                match spec_validate_outputs(calls.skip(1), declared) {
                    Some(e) => {
                        let w = choose|w: int|
                            0 <= w < calls.skip(1).len() && (#[trigger] calls.skip(1)[w]).0
                                == e.call && first_undeclared(
                                calls.skip(1)[w].1.writes,
                                declared,
                            ) == Some(e.ident);
                        assert(calls[w + 1] == calls.skip(1)[w]);
                    },
                    None => {},
                }
            },
        }
    }
}

/// Validator soundness: a component whose calls reference only declared
/// ports validates without error.
pub proof fn lemma_validator_soundness(c: SpecComponent)
    requires
        spec_refs_ok(c),
    ensures
        spec_validate(c) is None,
{
    assert forall|k: int| 0 <= k < c.calls.len() implies first_undeclared(
        call_input_refs((#[trigger] c.calls[k]).1),
        map_keys(c.inputs),
    ) is None by {
        lemma_first_undeclared_props(call_input_refs(c.calls[k].1), map_keys(c.inputs));
    }
    assert forall|k: int| 0 <= k < c.calls.len() implies first_undeclared(
        (#[trigger] c.calls[k]).1.writes,
        map_keys(c.outputs),
    ) is None by {
        lemma_first_undeclared_props(c.calls[k].1.writes, map_keys(c.outputs));
        assert(forall|m: int|
            0 <= m < c.calls[k].1.writes.len() ==> map_keys(c.outputs).contains(
                #[trigger] c.calls[k].1.writes[m],
            ));
    }
    lemma_validate_inputs_props(c.calls, map_keys(c.inputs));
    lemma_validate_outputs_props(c.calls, map_keys(c.outputs));
}

/// Validator completeness: a component with a call referencing an undeclared
/// port fails validation, with an error naming a call and a name it
/// references that is undeclared.
pub proof fn lemma_validator_completeness(c: SpecComponent, k: int, n: Seq<char>)
    requires
        0 <= k < c.calls.len(),
        (call_input_refs(c.calls[k].1).contains(n) && !map_keys(c.inputs).contains(n)) || (
        c.calls[k].1.writes.contains(n) && !map_keys(c.outputs).contains(n)),
    ensures
        spec_validate(c) is Some,
        spec_names_offender(c, spec_validate(c)->Some_0),
{
    lemma_validate_inputs_props(c.calls, map_keys(c.inputs));
    lemma_validate_outputs_props(c.calls, map_keys(c.outputs));
    if call_input_refs(c.calls[k].1).contains(n) && !map_keys(c.inputs).contains(n) {
        lemma_first_undeclared_props(call_input_refs(c.calls[k].1), map_keys(c.inputs));
        assert(first_undeclared(call_input_refs(c.calls[k].1), map_keys(c.inputs)) is Some);
        assert(spec_validate_inputs(c.calls, map_keys(c.inputs)) is Some);
        let e = spec_validate_inputs(c.calls, map_keys(c.inputs))->Some_0;
        let w = choose|w: int|
            0 <= w < c.calls.len() && (#[trigger] c.calls[w]).0 == e.call && first_undeclared(
                call_input_refs(c.calls[w].1),
                map_keys(c.inputs),
            ) == Some(e.ident);
        lemma_first_undeclared_props(call_input_refs(c.calls[w].1), map_keys(c.inputs));
    } else {
        lemma_first_undeclared_props(c.calls[k].1.writes, map_keys(c.outputs));
        assert(first_undeclared(c.calls[k].1.writes, map_keys(c.outputs)) is Some);
        match spec_validate_inputs(c.calls, map_keys(c.inputs)) {
            Some(e) => {
                let w = choose|w: int|
                    0 <= w < c.calls.len() && (#[trigger] c.calls[w]).0 == e.call
                        && first_undeclared(
                        call_input_refs(c.calls[w].1),
                        map_keys(c.inputs),
                    ) == Some(e.ident);
                lemma_first_undeclared_props(call_input_refs(c.calls[w].1), map_keys(c.inputs));
            },
            None => {
                assert(spec_validate_outputs(c.calls, map_keys(c.outputs)) is Some);
                let e = spec_validate_outputs(c.calls, map_keys(c.outputs))->Some_0;
                let w = choose|w: int|
                    0 <= w < c.calls.len() && (#[trigger] c.calls[w]).0 == e.call
                        && first_undeclared(
                        c.calls[w].1.writes,
                        map_keys(c.outputs),
                    ) == Some(e.ident);
                lemma_first_undeclared_props(c.calls[w].1.writes, map_keys(c.outputs));
            },
        }
    }
}

/// The validator is exact: it accepts a component if and only if every call
/// references only declared ports.
pub proof fn lemma_validator_exact(c: SpecComponent)
    ensures
        spec_validate(c) is None <==> spec_refs_ok(c),
{
    lemma_validate_inputs_props(c.calls, map_keys(c.inputs));
    lemma_validate_outputs_props(c.calls, map_keys(c.outputs));
    if spec_validate(c) is None {
        assert forall|k: int| 0 <= k < c.calls.len() implies {
            let call = (#[trigger] c.calls[k]).1;
            (forall|m: int|
                0 <= m < call_input_refs(call).len() ==> map_keys(c.inputs).contains(
                    #[trigger] call_input_refs(call)[m],
                )) && (forall|m: int|
                0 <= m < call.writes.len() ==> map_keys(c.outputs).contains(
                    #[trigger] call.writes[m],
                ))
        } by {
            lemma_first_undeclared_props(call_input_refs(c.calls[k].1), map_keys(c.inputs));
            lemma_first_undeclared_props(c.calls[k].1.writes, map_keys(c.outputs));
        }
    }
    if spec_refs_ok(c) {
        lemma_validator_soundness(c);
    }
}

// ---------------------------------------------------------------------------
// Executable validator
// ---------------------------------------------------------------------------

/// Decides whether `name` is a key of the mapping.
fn contains_key<V: View>(m: &Vec<(Vec<char>, V)>, name: &Vec<char>) -> (r: bool)
    ensures
        r <==> map_keys(pairs_view(m@)).contains(name@),
{
    let ghost keys = map_keys(pairs_view(m@));
    let mut k: usize = 0;
    while k < m.len()
        invariant
            k <= m@.len(),
            keys == map_keys(pairs_view(m@)),
            keys.len() == m@.len(),
            forall|w: int| 0 <= w < k ==> #[trigger] keys[w] != name@,
        decreases m@.len() - k,
    {
        let p = &m[k];
        if name_eq(&p.0, name) {
            proof {
                assert(keys[k as int] == name@);
            }
            return true;
        }
        proof {
            assert(keys[k as int] == m@[k as int].0@);
        }
        k += 1;
    }
    proof {
        assert(forall|w: int| 0 <= w < keys.len() ==> #[trigger] keys[w] != name@);
    }
    false
}

/// Finds the first input reference of a call (takes before observes) that is
/// not a declared input.
fn find_undeclared_ref(call: &CallBody, inputs: &Vec<(Vec<char>, crate::model::InputType)>) -> (r:
    Option<Vec<char>>)
    ensures
        match r {
            Some(n) => first_undeclared(call_input_refs(call@), map_keys(pairs_view(inputs@)))
                == Some(n@),
            None => first_undeclared(
                call_input_refs(call@),
                map_keys(pairs_view(inputs@)),
            ) is None,
        },
{
    let ghost refs = call_input_refs(call@);
    let ghost declared = map_keys(pairs_view(inputs@));
    proof {
        assert(refs.skip(0) =~= refs);
        assert(refs.len() == call@.takes.len() + call@.observes.len());
    }
    let mut k: usize = 0;
    while k < call.takes.set.len()
        invariant
            k <= call.takes.set@.len(),
            refs == call_input_refs(call@),
            declared == map_keys(pairs_view(inputs@)),
            refs.len() == call@.takes.len() + call@.observes.len(),
            call@.takes.len() == call.takes.set@.len(),
            call@.observes.len() == call.observes.set@.len(),
            first_undeclared(refs.skip(k as int), declared) == first_undeclared(refs, declared),
        decreases call.takes.set@.len() - k,
    {
        let n = &call.takes.set[k];
        proof {
            assert(refs.skip(k as int)[0] == refs[k as int]);
            assert(refs[k as int] == call@.takes[k as int]);
            assert(call@.takes[k as int] == n@);
        }
        if !contains_key(inputs, n) {
            return Some(copy_name(n));
        }
        proof {
            assert(refs.skip(k as int).skip(1) =~= refs.skip(k as int + 1));
        }
        k += 1;
    }
    let mut w: usize = 0;
    while w < call.observes.set.len()
        invariant
            w <= call.observes.set@.len(),
            refs == call_input_refs(call@),
            declared == map_keys(pairs_view(inputs@)),
            refs.len() == call@.takes.len() + call@.observes.len(),
            call@.takes.len() == call.takes.set@.len(),
            call@.observes.len() == call.observes.set@.len(),
            first_undeclared(refs.skip(call.takes.set@.len() + w), declared) == first_undeclared(
                refs,
                declared,
            ),
        decreases call.observes.set@.len() - w,
    {
        let n = &call.observes.set[w];
        let ghost m = call.takes.set@.len() + w;
        proof {
            assert(refs.skip(m)[0] == refs[m]);
            assert(refs[m] == call@.observes[w as int]);
            assert(call@.observes[w as int] == n@);
        }
        if !contains_key(inputs, n) {
            return Some(copy_name(n));
        }
        proof {
            assert(refs.skip(m).skip(1) =~= refs.skip(m + 1));
        }
        w += 1;
    }
    proof {
        assert(refs.skip(refs.len() as int) =~= Seq::<Seq<char>>::empty());
    }
    None
}

/// Finds the first write of a call that is not a declared output.
fn find_undeclared_write(
    call: &CallBody,
    outputs: &Vec<(Vec<char>, crate::model::OutputType)>,
) -> (r: Option<Vec<char>>)
    ensures
        match r {
            Some(n) => first_undeclared(call@.writes, map_keys(pairs_view(outputs@))) == Some(n@),
            None => first_undeclared(call@.writes, map_keys(pairs_view(outputs@))) is None,
        },
{
    let ghost refs = call@.writes;
    let ghost declared = map_keys(pairs_view(outputs@));
    proof {
        assert(refs.skip(0) =~= refs);
    }
    let mut k: usize = 0;
    while k < call.writes.set.len()
        invariant
            k <= call.writes.set@.len(),
            refs == call@.writes,
            declared == map_keys(pairs_view(outputs@)),
            call@.writes.len() == call.writes.set@.len(),
            first_undeclared(refs.skip(k as int), declared) == first_undeclared(refs, declared),
        decreases call.writes.set@.len() - k,
    {
        let n = &call.writes.set[k];
        proof {
            assert(refs.skip(k as int)[0] == refs[k as int]);
            assert(refs[k as int] == n@);
        }
        if !contains_key(outputs, n) {
            return Some(copy_name(n));
        }
        proof {
            assert(refs.skip(k as int).skip(1) =~= refs.skip(k as int + 1));
        }
        k += 1;
    }
    proof {
        assert(refs.skip(refs.len() as int) =~= Seq::<Seq<char>>::empty());
    }
    None
}

impl ComponentDefinition {
    /// Checks that every call's takes and observes name declared inputs,
    /// reporting the first offender.
    pub fn validate_call_inputs(&self) -> (r: Result<(), ReferenceError>)
        ensures
            match r {
                Ok(_) => spec_validate_inputs(self@.calls, map_keys(self@.inputs)) is None,
                Err(e) => spec_validate_inputs(self@.calls, map_keys(self@.inputs)) == Some(e@),
            },
    {
        let ghost calls = self@.calls;
        let ghost declared = map_keys(self@.inputs);
        proof {
            assert(calls.skip(0) =~= calls);
        }
        let mut k: usize = 0;
        while k < self.all_calls.calls.map.len()
            invariant
                k <= self.all_calls.calls.map@.len(),
                calls == self@.calls,
                declared == map_keys(self@.inputs),
                calls.len() == self.all_calls.calls.map@.len(),
                spec_validate_inputs(calls.skip(k as int), declared) == spec_validate_inputs(
                    calls,
                    declared,
                ),
            decreases self.all_calls.calls.map@.len() - k,
        {
            let entry = &self.all_calls.calls.map[k];
            proof {
                assert(calls.skip(k as int)[0] == calls[k as int]);
                assert(calls[k as int] == (entry.0@, entry.1@));
            }
            match find_undeclared_ref(&entry.1, &self.inputs.inputs.map) {
                Some(n) => {
                    return Err(ReferenceError { call: copy_name(&entry.0), ident: n });
                },
                None => {},
            }
            proof {
                assert(calls.skip(k as int).skip(1) =~= calls.skip(k as int + 1));
            }
            k += 1;
        }
        proof {
            assert(calls.skip(calls.len() as int) =~= Seq::<(Seq<char>, SpecCall)>::empty());
        }
        Ok(())
    }

    /// Checks that every call's writes name declared outputs, reporting the
    /// first offender.
    pub fn validate_call_outputs(&self) -> (r: Result<(), ReferenceError>)
        ensures
            match r {
                Ok(_) => spec_validate_outputs(self@.calls, map_keys(self@.outputs)) is None,
                Err(e) => spec_validate_outputs(self@.calls, map_keys(self@.outputs)) == Some(e@),
            },
    {
        let ghost calls = self@.calls;
        let ghost declared = map_keys(self@.outputs);
        proof {
            assert(calls.skip(0) =~= calls);
        }
        let mut k: usize = 0;
        while k < self.all_calls.calls.map.len()
            invariant
                k <= self.all_calls.calls.map@.len(),
                calls == self@.calls,
                declared == map_keys(self@.outputs),
                calls.len() == self.all_calls.calls.map@.len(),
                spec_validate_outputs(calls.skip(k as int), declared) == spec_validate_outputs(
                    calls,
                    declared,
                ),
            decreases self.all_calls.calls.map@.len() - k,
        {
            let entry = &self.all_calls.calls.map[k];
            proof {
                assert(calls.skip(k as int)[0] == calls[k as int]);
                assert(calls[k as int] == (entry.0@, entry.1@));
            }
            match find_undeclared_write(&entry.1, &self.outputs.outputs.map) {
                Some(n) => {
                    return Err(ReferenceError { call: copy_name(&entry.0), ident: n });
                },
                None => {},
            }
            proof {
                assert(calls.skip(k as int).skip(1) =~= calls.skip(k as int + 1));
            }
            k += 1;
        }
        proof {
            assert(calls.skip(calls.len() as int) =~= Seq::<(Seq<char>, SpecCall)>::empty());
        }
        Ok(())
    }

    /// Checks the referential integrity of the definition, leaving it
    /// unchanged: every call may reference only declared inputs and outputs.
    pub fn validate(&self) -> (r: Result<(), ReferenceError>)
        ensures
            match r {
                Ok(_) => spec_validate(self@) is None,
                Err(e) => spec_validate(self@) == Some(e@),
            },
    {
        match self.validate_call_inputs() {
            Ok(_) => self.validate_call_outputs(),
            Err(e) => Err(e),
        }
    }
}

} // verus!
