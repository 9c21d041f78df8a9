//! An example consumer of the generated capability shapes: an adding
//! component.
//!
//! The component declares two gated generic inputs `a` and `b` and one
//! output `out` whose type is deduced through an export capability.  Its one
//! call honors the calling convention the generator's artifacts impose: it
//! attempts to read every gated input; if one is absent it performs no write
//! and reports every validity field false; otherwise it writes the sum and
//! reports the output valid.  Here the generic inputs are resolved to
//! `i32`, the machine numeric type the scenario fixes.

use vstd::prelude::*;

verus! {

/// The export capability through which a concrete instantiation supplies
/// the adder's output type.
pub trait AdderOutput {
    type Out;
}

/// The resolved types of an adder instantiation.
pub trait AdderTypes {
    type Output;
}

/// The input capability value of the adder's call: one optionally-filled
/// slot per gated input.
pub struct AdderInput {
    pub a: Option<i32>,
    pub b: Option<i32>,
}

/// The output-validity record of the adder's call: one field per written
/// output, reporting whether it was actually written.
pub struct AdderOutputValid {
    pub out: bool,
}

impl Default for AdderOutputValid {
    /// Every validity field defaults to false: nothing written yet.
    fn default() -> (r: Self)
        ensures
            !r.out,
    {
        AdderOutputValid { out: false }
    }
}

/// The adding component.
pub struct Adder {
}

impl Default for Adder {
    fn default() -> (r: Self) {
        Adder {  }
    }
}

impl AdderOutput for Adder {
    type Out = i32;
}

impl AdderTypes for Adder {
    type Output = i32;
}

/// Both gated inputs are present and their sum stays in range.
pub open spec fn add_fits(inputs: AdderInput) -> bool {
    inputs.a is Some && inputs.b is Some ==> i32::MIN <= inputs.a->0 + inputs.b->0 <= i32::MAX
}

impl Adder {
    /// The raw call body: reads both gated inputs; when either is absent it
    /// performs no write and reports nothing, otherwise it writes the sum.
    pub fn _add(&self, inputs: &AdderInput, out: &mut i32) -> (r: Option<()>)
        requires
            add_fits(*inputs),
        ensures
            match (inputs.a, inputs.b) {
                (Some(a), Some(b)) => r is Some && *final(out) == a + b,
                _ => r is None && *final(out) == *old(out),
            },
    {
        match (inputs.a, inputs.b) {
            (Some(a), Some(b)) => {
                *out = a + b;
                Some(())
            },
            _ => None,
        }
    }

    /// The call under its calling convention: on success the sum stands in
    /// the output slot and the validity record reports it written; on a
    /// missing gated input the slot is untouched and the record reports
    /// every field false.
    pub fn add(&self, inputs: &AdderInput, out: &mut i32) -> (r: AdderOutputValid)
        requires
            add_fits(*inputs),
        ensures
            r.out == (inputs.a is Some && inputs.b is Some),
            match (inputs.a, inputs.b) {
                (Some(a), Some(b)) => *final(out) == a + b,
                _ => *final(out) == *old(out),
            },
    {
        AdderOutputValid { out: self._add(inputs, out).is_some() }
    }

    /// The raw call body under the trait-shaped calling convention; the
    /// generated input and output capabilities hand over the same values,
    /// so the behavior coincides with `_add`.
    pub fn _op(&self, inputs: &AdderInput, out: &mut i32) -> (r: Option<()>)
        requires
            add_fits(*inputs),
        ensures
            match (inputs.a, inputs.b) {
                (Some(a), Some(b)) => r is Some && *final(out) == a + b,
                _ => r is None && *final(out) == *old(out),
            },
    {
        self._add(inputs, out)
    }

    /// The call under the trait-shaped calling convention.
    pub fn op(&self, inputs: &AdderInput, out: &mut i32) -> (r: AdderOutputValid)
        requires
            add_fits(*inputs),
        ensures
            r.out == (inputs.a is Some && inputs.b is Some),
            match (inputs.a, inputs.b) {
                (Some(a), Some(b)) => *final(out) == a + b,
                _ => *final(out) == *old(out),
            },
    {
        AdderOutputValid { out: self._op(inputs, out).is_some() }
    }
}

} // verus!
