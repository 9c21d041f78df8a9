//! In-memory representation of a parsed component definition.
//!
//! The model is pure data: names are character vectors, mappings are entry
//! lists in declaration order, and every aggregate carries the invariant that
//! its names are mutually distinct (the parser rejects duplicates).  Each
//! type has a mathematical model reached through its view.

use vstd::prelude::*;

verus! {

/// The declared type of an input port: an unresolved generic placeholder,
/// unified across every input that names the same placeholder, or a concrete
/// type reference.
#[derive(Debug)]
pub enum InputType {
    Generic(Vec<char>),
    Concrete(Vec<char>),
}

/// The declared type of an output port: a concrete type reference, or a type
/// deduced at instantiation time by asking the named external capability.
#[derive(Debug)]
pub enum OutputType {
    FromTrait(Vec<char>),
    Concrete(Vec<char>),
}

/// A parsed set of identifiers, in declaration order, mutually distinct.
#[derive(Debug)]
pub struct ParseSetOf {
    pub set: Vec<Vec<char>>,
}

/// A parsed mapping from identifiers to values, entries in declaration
/// order, keys mutually distinct.  Its entries are written `key -> value`.
#[derive(Debug)]
pub struct ParseMapOf<V> {
    pub map: Vec<(Vec<char>, V)>,
}

/// A parsed mapping from identifiers to values, entries in declaration
/// order, keys mutually distinct.  Its entries are written `key: value;`.
#[derive(Debug)]
pub struct ParseNamed<V> {
    pub map: Vec<(Vec<char>, V)>,
}

/// One call declaration: the inputs whose presence gates firing, the inputs
/// that are merely visible, and the outputs the call may produce.
#[derive(Debug)]
pub struct CallBody {
    pub takes: ParseSetOf,
    pub observes: ParseSetOf,
    pub writes: ParseSetOf,
}

/// The declared inputs of a component.
#[derive(Debug)]
pub struct InputBody {
    pub inputs: ParseMapOf<InputType>,
}

/// The declared outputs of a component.
#[derive(Debug)]
pub struct OutputBody {
    pub outputs: ParseMapOf<OutputType>,
}

/// The declared calls of a component.
#[derive(Debug)]
pub struct AllCallsBody {
    pub calls: ParseNamed<CallBody>,
}

/// A whole component definition: name, inputs, outputs and calls.
#[derive(Debug)]
pub struct ComponentDefinition {
    pub name: Vec<char>,
    pub inputs: InputBody,
    pub outputs: OutputBody,
    pub all_calls: AllCallsBody,
}

/// Mathematical model of an input type.
pub enum SpecInputType {
    Generic(Seq<char>),
    Concrete(Seq<char>),
}

/// Mathematical model of an output type.
pub enum SpecOutputType {
    FromTrait(Seq<char>),
    Concrete(Seq<char>),
}

/// Mathematical model of a call declaration.
pub struct SpecCall {
    pub takes: Seq<Seq<char>>,
    pub observes: Seq<Seq<char>>,
    pub writes: Seq<Seq<char>>,
}

/// Mathematical model of a component definition.
pub struct SpecComponent {
    pub name: Seq<char>,
    pub inputs: Seq<(Seq<char>, SpecInputType)>,
    pub outputs: Seq<(Seq<char>, SpecOutputType)>,
    pub calls: Seq<(Seq<char>, SpecCall)>,
}

/// The models of a sequence of names, element-wise.
pub open spec fn names_view(s: Seq<Vec<char>>) -> Seq<Seq<char>> {
    s.map_values(|v: Vec<char>| v@)
}

pub proof fn lemma_names_view_push(s: Seq<Vec<char>>, v: Vec<char>)
    ensures
        names_view(s.push(v)) =~= names_view(s).push(v@),
{
}

/// The models of a sequence of mapping entries, element-wise.
pub open spec fn pairs_view<V: View>(s: Seq<(Vec<char>, V)>) -> Seq<(Seq<char>, V::V)> {
    s.map_values(|p: (Vec<char>, V)| (p.0@, p.1@))
}

pub proof fn lemma_pairs_view_push<V: View>(s: Seq<(Vec<char>, V)>, p: (Vec<char>, V))
    ensures
        pairs_view(s.push(p)) =~= pairs_view(s).push((p.0@, p.1@)),
{
}

impl View for InputType {
    type V = SpecInputType;

    open spec fn view(&self) -> SpecInputType {
        match self {
            InputType::Generic(n) => SpecInputType::Generic(n@),
            InputType::Concrete(n) => SpecInputType::Concrete(n@),
        }
    }
}

impl View for OutputType {
    type V = SpecOutputType;

    open spec fn view(&self) -> SpecOutputType {
        match self {
            OutputType::FromTrait(n) => SpecOutputType::FromTrait(n@),
            OutputType::Concrete(n) => SpecOutputType::Concrete(n@),
        }
    }
}

impl View for ParseSetOf {
    type V = Seq<Seq<char>>;

    open spec fn view(&self) -> Seq<Seq<char>> {
        names_view(self.set@)
    }
}

impl<V: View> View for ParseMapOf<V> {
    type V = Seq<(Seq<char>, V::V)>;

    open spec fn view(&self) -> Seq<(Seq<char>, V::V)> {
        pairs_view(self.map@)
    }
}

impl<V: View> View for ParseNamed<V> {
    type V = Seq<(Seq<char>, V::V)>;

    open spec fn view(&self) -> Seq<(Seq<char>, V::V)> {
        pairs_view(self.map@)
    }
}

impl View for CallBody {
    type V = SpecCall;

    open spec fn view(&self) -> SpecCall {
        SpecCall { takes: self.takes@, observes: self.observes@, writes: self.writes@ }
    }
}

impl View for ComponentDefinition {
    type V = SpecComponent;

    open spec fn view(&self) -> SpecComponent {
        SpecComponent {
            name: self.name@,
            inputs: self.inputs.inputs@,
            outputs: self.outputs.outputs@,
            calls: self.all_calls.calls@,
        }
    }
}

/// The keys of a mapping, in declaration order.
pub open spec fn map_keys<V>(m: Seq<(Seq<char>, V)>) -> Seq<Seq<char>> {
    m.map_values(|p: (Seq<char>, V)| p.0)
}

/// The value bound to `key`, at its first occurrence.
pub open spec fn map_lookup<V>(m: Seq<(Seq<char>, V)>, key: Seq<char>) -> Option<V>
    decreases m.len(),
{
    if m.len() == 0 {
        None
    } else if m[0].0 == key {
        Some(m[0].1)
    } else {
        map_lookup(m.skip(1), key)
    }
}

/// Names that are mutually distinct.
pub open spec fn distinct_names(s: Seq<Seq<char>>) -> bool {
    forall|i: int, j: int| 0 <= i < j < s.len() ==> s[i] != s[j]
}

/// A lookup misses exactly when the key is not among the mapping's keys.
pub proof fn lemma_map_lookup_none<V>(m: Seq<(Seq<char>, V)>, key: Seq<char>)
    ensures
        map_lookup(m, key) is None <==> !map_keys(m).contains(key),
    decreases m.len(),
{
    if m.len() == 0 {
    } else if m[0].0 == key {
        assert(map_keys(m)[0] == key);
    } else {
        lemma_map_lookup_none(m.skip(1), key);
        assert(map_keys(m.skip(1)) =~= map_keys(m).skip(1));
        if map_keys(m).contains(key) {
            let w = choose|w: int| 0 <= w < map_keys(m).len() && map_keys(m)[w] == key;
            assert(map_keys(m)[0] == m[0].0);
            assert(w != 0);
            assert(map_keys(m).skip(1)[w - 1] == key);
            assert(map_keys(m.skip(1)).contains(key));
        }
        if map_keys(m.skip(1)).contains(key) {
            let w = choose|w: int|
                0 <= w < map_keys(m.skip(1)).len() && map_keys(m.skip(1))[w] == key;
            assert(map_keys(m)[w + 1] == key);
        }
    }
}

/// Appending a key that is not yet present keeps the keys distinct.
pub proof fn lemma_distinct_push(keys: Seq<Seq<char>>, name: Seq<char>)
    requires
        distinct_names(keys),
        !keys.contains(name),
    ensures
        distinct_names(keys.push(name)),
{
    assert forall|a: int, b: int|
        0 <= a < b < keys.push(name).len() implies keys.push(name)[a] != keys.push(name)[b] by {
        if b == keys.len() {
            if keys[a] == name {
                assert(keys.contains(name));
            }
        }
    }
}

impl SpecCall {
    /// Each of the call's three sets holds mutually distinct names.
    pub open spec fn wf(self) -> bool {
        distinct_names(self.takes) && distinct_names(self.observes) && distinct_names(self.writes)
    }
}

impl SpecComponent {
    /// The keys of each mapping are mutually distinct and every call is
    /// well-formed.
    pub open spec fn wf(self) -> bool {
        &&& distinct_names(map_keys(self.inputs))
        &&& distinct_names(map_keys(self.outputs))
        &&& distinct_names(map_keys(self.calls))
        &&& forall|k: int| 0 <= k < self.calls.len() ==> (#[trigger] self.calls[k].1).wf()
    }
}

/// Copies a name.
pub fn copy_name(v: &Vec<char>) -> (r: Vec<char>)
    ensures
        r@ == v@,
{
    let mut r: Vec<char> = Vec::new();
    let mut i: usize = 0;
    while i < v.len()
        invariant
            i <= v@.len(),
            r@ =~= v@.subrange(0, i as int),
        decreases v@.len() - i,
    {
        r.push(v[i]);
        i += 1;
        proof {
            assert(r@ =~= v@.subrange(0, i as int));
        }
    }
    proof {
        assert(r@ =~= v@);
    }
    r
}

/// Decides whether two names are the same identifier.
pub fn name_eq(v: &Vec<char>, w: &Vec<char>) -> (r: bool)
    ensures
        r <==> v@ == w@,
{
    if v.len() != w.len() {
        proof {
            assert(v@ != w@);
        }
        return false;
    }
    let mut i: usize = 0;
    while i < v.len()
        invariant
            v@.len() == w@.len(),
            i <= v@.len(),
            forall|k: int| 0 <= k < i ==> v@[k] == w@[k],
        decreases v@.len() - i,
    {
        if v[i] != w[i] {
            return false;
        }
        i += 1;
    }
    proof {
        assert(v@ =~= w@);
    }
    true
}

} // verus!
