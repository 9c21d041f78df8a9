//! Deterministic synthesis of interface identifiers.
//!
//! A generated identifier is the capitalized-word (pascal-case) form of the
//! component name, then of the call name where there is one, then a fixed
//! role suffix taken verbatim — the role vocabulary (`Input`, `Output`,
//! `OutputExport`, `OutputValid`) is already in capitalized-word form.
//! The same fragments always yield the same identifier, and for one
//! component and call the four roles always yield four distinct identifiers.

use vstd::prelude::*;

use crate::model::names_view;

verus! {

/// The capitalized-word form of a name, as the case conversion library
/// computes it.  The conversion is a fixed function of the characters alone.
pub uninterp spec fn pascal_of(s: Seq<char>) -> Seq<char>;

/// Relies on heck's `to_upper_camel_case` (the `AsPascalCase` conversion):
/// its result depends on the input characters alone.
#[verifier::external_body]
pub fn pascal_case(s: &Vec<char>) -> (r: Vec<char>)
    ensures
        r@ == pascal_of(s@),
{
    let text: String = s.iter().collect();
    heck::ToUpperCamelCase::to_upper_camel_case(text.as_str()).chars().collect()
}

/// The concatenation of the capitalized-word forms of a list of fragments.
pub open spec fn spec_pascal_concat(parts: Seq<Seq<char>>) -> Seq<char>
    decreases parts.len(),
{
    if parts.len() == 0 {
        Seq::empty()
    } else {
        pascal_of(parts[0]) + spec_pascal_concat(parts.skip(1))
    }
}

/// Converts each fragment to capitalized-word form and concatenates them in
/// the given order.
pub fn pascal_ident(parts: &Vec<Vec<char>>) -> (r: Vec<char>)
    ensures
        r@ == spec_pascal_concat(names_view(parts@)),
{
    let ghost pv = names_view(parts@);
    let mut r: Vec<char> = Vec::new();
    proof {
        assert(pv.skip(0) =~= pv);
    }
    let mut k: usize = 0;
    while k < parts.len()
        invariant
            k <= parts@.len(),
            pv == names_view(parts@),
            pv.len() == parts@.len(),
            spec_pascal_concat(pv) == r@ + spec_pascal_concat(pv.skip(k as int)),
        decreases parts@.len() - k,
    {
        let mut piece = pascal_case(&parts[k]);
        proof {
            assert(pv.skip(k as int)[0] == pv[k as int]);
            assert(pv[k as int] == parts@[k as int]@);
            assert(pv.skip(k as int).skip(1) =~= pv.skip(k as int + 1));
            assert((r@ + piece@) + spec_pascal_concat(pv.skip(k as int + 1)) =~= r@ + (piece@
                + spec_pascal_concat(pv.skip(k as int + 1))));
        }
        r.append(&mut piece);
        k += 1;
    }
    proof {
        assert(spec_pascal_concat(pv.skip(pv.len() as int)) =~= Seq::<char>::empty());
        assert(r@ + Seq::<char>::empty() =~= r@);
    }
    r
}

/// The common prefix of a synthesized identifier: the converted component
/// name, then the converted call name where there is one.
pub open spec fn spec_synth_prefix(comp: Seq<char>, call: Option<Seq<char>>) -> Seq<char> {
    match call {
        Some(c) => pascal_of(comp) + pascal_of(c),
        None => pascal_of(comp),
    }
}

/// The identifier synthesized from a component name, an optional call name
/// and a role suffix.
pub open spec fn spec_synth(comp: Seq<char>, call: Option<Seq<char>>, suffix: Seq<char>) -> Seq<
    char,
> {
    spec_synth_prefix(comp, call) + suffix
}

/// Synthesizes an interface identifier from the component name, an optional
/// call name and a role suffix.
pub fn synthesize(comp: &Vec<char>, call: Option<&Vec<char>>, suffix: &Vec<char>) -> (r: Vec<char>)
    ensures
        r@ == spec_synth(
            comp@,
            match call {
                Some(c) => Some(c@),
                None => None,
            },
            suffix@,
        ),
{
    let mut r = pascal_case(comp);
    match call {
        Some(c) => {
            let mut piece = pascal_case(c);
            r.append(&mut piece);
        },
        None => {},
    }
    let mut tail = crate::model::copy_name(suffix);
    r.append(&mut tail);
    r
}

/// Synthesis is deterministic: the same fragments always yield the same
/// identifier.
pub proof fn lemma_synth_deterministic(
    c1: Seq<char>,
    k1: Option<Seq<char>>,
    s1: Seq<char>,
    c2: Seq<char>,
    k2: Option<Seq<char>>,
    s2: Seq<char>,
)
    requires
        c1 == c2,
        k1 == k2,
        s1 == s2,
    ensures
        spec_synth(c1, k1, s1) == spec_synth(c2, k2, s2),
{
}

/// For one component and call, distinct role suffixes yield distinct
/// identifiers.
pub proof fn lemma_synth_role_injective(
    comp: Seq<char>,
    call: Option<Seq<char>>,
    s1: Seq<char>,
    s2: Seq<char>,
)
    requires
        s1 != s2,
    ensures
        spec_synth(comp, call, s1) != spec_synth(comp, call, s2),
{
    let prefix = spec_synth_prefix(comp, call);
    if spec_synth(comp, call, s1) == spec_synth(comp, call, s2) {
        assert((prefix + s1).len() == (prefix + s2).len());
        assert(s1.len() == s2.len());
        assert forall|i: int| 0 <= i < s1.len() implies s1[i] == s2[i] by {
            assert((prefix + s1)[prefix.len() + i] == s1[i]);
            assert((prefix + s2)[prefix.len() + i] == s2[i]);
        }
        assert(s1 =~= s2);
    }
}

// ---------------------------------------------------------------------------
// The fixed role vocabulary
// ---------------------------------------------------------------------------

pub open spec fn suffix_input() -> Seq<char> {
    seq!['I', 'n', 'p', 'u', 't']
}

pub open spec fn suffix_output() -> Seq<char> {
    seq!['O', 'u', 't', 'p', 'u', 't']
}

pub open spec fn suffix_output_export() -> Seq<char> {
    seq!['O', 'u', 't', 'p', 'u', 't', 'E', 'x', 'p', 'o', 'r', 't']
}

pub open spec fn suffix_output_valid() -> Seq<char> {
    seq!['O', 'u', 't', 'p', 'u', 't', 'V', 'a', 'l', 'i', 'd']
}

pub fn suffix_input_vec() -> (r: Vec<char>)
    ensures
        r@ == suffix_input(),
{
    let v: Vec<char> = vec!['I', 'n', 'p', 'u', 't'];
    proof {
        assert(v@ =~= suffix_input());
    }
    v
}

pub fn suffix_output_vec() -> (r: Vec<char>)
    ensures
        r@ == suffix_output(),
{
    let v: Vec<char> = vec!['O', 'u', 't', 'p', 'u', 't'];
    proof {
        assert(v@ =~= suffix_output());
    }
    v
}

pub fn suffix_output_export_vec() -> (r: Vec<char>)
    ensures
        r@ == suffix_output_export(),
{
    let v: Vec<char> = vec!['O', 'u', 't', 'p', 'u', 't', 'E', 'x', 'p', 'o', 'r', 't'];
    proof {
        assert(v@ =~= suffix_output_export());
    }
    v
}

pub fn suffix_output_valid_vec() -> (r: Vec<char>)
    ensures
        r@ == suffix_output_valid(),
{
    let v: Vec<char> = vec!['O', 'u', 't', 'p', 'u', 't', 'V', 'a', 'l', 'i', 'd'];
    proof {
        assert(v@ =~= suffix_output_valid());
    }
    v
}

} // verus!
