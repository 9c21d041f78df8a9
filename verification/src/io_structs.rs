//! Concrete output-validity records in the shape the generator gives them.
//!
//! A call's validity record has one boolean field per output the call may
//! write, and every field defaults to false: before an invocation nothing
//! has been written.  These two records are the shapes for a call writing
//! one output `a`, on a plain and on a generic output struct; the validity
//! record itself carries no type parameters either way.

use vstd::prelude::*;

verus! {

/// The validity record of a call writing one output `a`.
pub struct TestOutputValid {
    pub a: bool,
}

impl Default for TestOutputValid {
    /// Every validity field defaults to false: nothing written yet.
    fn default() -> (r: Self)
        ensures
            !r.a,
    {
        TestOutputValid { a: false }
    }
}

/// The validity record of a call writing one output `a` of a generic
/// output struct.
pub struct GenTestOutputValid {
    pub a: bool,
}

impl Default for GenTestOutputValid {
    /// Every validity field defaults to false: nothing written yet.
    fn default() -> (r: Self)
        ensures
            !r.a,
    {
        GenTestOutputValid { a: false }
    }
}

} // verus!
