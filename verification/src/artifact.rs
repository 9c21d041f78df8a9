//! The generated artifact set.
//!
//! The generator does not emit text: it emits structure.  Per call it emits
//! an input capability interface, an output capability interface and an
//! output-validity record; per component it emits an output-export
//! capability interface and its generic implementation.  A host rendering
//! layer turns these into the target language's interfaces.

use vstd::prelude::*;

use crate::model::{names_view, pairs_view};

verus! {

/// A type expression appearing in a generated interface.
pub enum TypeExpr {
    /// A concrete type reference, verbatim.
    Concrete(Vec<char>),
    /// One of the interface's own unresolved type slots (`Self::A`).
    SelfGeneric(Vec<char>),
    /// An associated type of the export parameter
    /// (`<_OutputGeneric as ComponentOutputExport>::Out`).
    ExportAssoc(Vec<char>),
    /// An associated type of a named external capability
    /// (`<_OutputGeneric as Capability>::Out`).
    TraitAssoc(Vec<char>, Vec<char>),
}

/// Mathematical model of a type expression.
pub enum SpecTypeExpr {
    Concrete(Seq<char>),
    SelfGeneric(Seq<char>),
    ExportAssoc(Seq<char>),
    TraitAssoc(Seq<char>, Seq<char>),
}

impl View for TypeExpr {
    type V = SpecTypeExpr;

    open spec fn view(&self) -> SpecTypeExpr {
        match self {
            TypeExpr::Concrete(t) => SpecTypeExpr::Concrete(t@),
            TypeExpr::SelfGeneric(g) => SpecTypeExpr::SelfGeneric(g@),
            TypeExpr::ExportAssoc(n) => SpecTypeExpr::ExportAssoc(n@),
            TypeExpr::TraitAssoc(tr, n) => SpecTypeExpr::TraitAssoc(tr@, n@),
        }
    }
}

/// One accessor of an input interface: the input's name, whether its
/// presence is guaranteed at call time, and the type it yields.
pub struct InputAccessor {
    pub name: Vec<char>,
    pub guaranteed: bool,
    pub ty: TypeExpr,
}

/// Mathematical model of an input accessor.
pub struct SpecInputAccessor {
    pub name: Seq<char>,
    pub guaranteed: bool,
    pub ty: SpecTypeExpr,
}

impl View for InputAccessor {
    type V = SpecInputAccessor;

    open spec fn view(&self) -> SpecInputAccessor {
        SpecInputAccessor { name: self.name@, guaranteed: self.guaranteed, ty: self.ty@ }
    }
}

/// The models of a sequence of input accessors, element-wise.
pub open spec fn input_accessors_view(s: Seq<InputAccessor>) -> Seq<SpecInputAccessor> {
    s.map_values(|a: InputAccessor| a@)
}

/// The input capability interface of one call: one type slot per distinct
/// generic placeholder reachable from the call's inputs, and one accessor
/// per input in the call's takes and observes sets.
pub struct InputInterface {
    pub name: Vec<char>,
    pub type_slots: Vec<Vec<char>>,
    pub accessors: Vec<InputAccessor>,
}

/// Mathematical model of an input interface.
pub struct SpecInputInterface {
    pub name: Seq<char>,
    pub type_slots: Seq<Seq<char>>,
    pub accessors: Seq<SpecInputAccessor>,
}

impl View for InputInterface {
    type V = SpecInputInterface;

    open spec fn view(&self) -> SpecInputInterface {
        SpecInputInterface {
            name: self.name@,
            type_slots: names_view(self.type_slots@),
            accessors: input_accessors_view(self.accessors@),
        }
    }
}

/// One accessor of an output interface: the output's name and the type of
/// the mutable handle it yields.
pub struct OutputAccessor {
    pub name: Vec<char>,
    pub ty: TypeExpr,
}

/// Mathematical model of an output accessor.
pub struct SpecOutputAccessor {
    pub name: Seq<char>,
    pub ty: SpecTypeExpr,
}

impl View for OutputAccessor {
    type V = SpecOutputAccessor;

    open spec fn view(&self) -> SpecOutputAccessor {
        SpecOutputAccessor { name: self.name@, ty: self.ty@ }
    }
}

/// The models of a sequence of output accessors, element-wise.
pub open spec fn output_accessors_view(s: Seq<OutputAccessor>) -> Seq<SpecOutputAccessor> {
    s.map_values(|a: OutputAccessor| a@)
}

/// The output capability interface of one call: one accessor per name in
/// the call's writes set.  When any written output's type is deduced from a
/// capability, the interface is parameterized by an export type that must
/// satisfy the component's output-export interface; `export_param` then
/// names that interface.
pub struct OutputInterface {
    pub name: Vec<char>,
    pub export_param: Option<Vec<char>>,
    pub accessors: Vec<OutputAccessor>,
}

/// Mathematical model of an output interface.
pub struct SpecOutputInterface {
    pub name: Seq<char>,
    pub export_param: Option<Seq<char>>,
    pub accessors: Seq<SpecOutputAccessor>,
}

impl View for OutputInterface {
    type V = SpecOutputInterface;

    open spec fn view(&self) -> SpecOutputInterface {
        SpecOutputInterface {
            name: self.name@,
            export_param: match &self.export_param {
                Some(n) => Some(n@),
                None => None,
            },
            accessors: output_accessors_view(self.accessors@),
        }
    }
}

/// The output-export capability interface of a component: one type slot per
/// declared output, in capitalized-word form.
pub struct OutputExportInterface {
    pub name: Vec<char>,
    pub type_slots: Vec<Vec<char>>,
}

/// Mathematical model of an output-export interface.
pub struct SpecOutputExportInterface {
    pub name: Seq<char>,
    pub type_slots: Seq<Seq<char>>,
}

impl View for OutputExportInterface {
    type V = SpecOutputExportInterface;

    open spec fn view(&self) -> SpecOutputExportInterface {
        SpecOutputExportInterface { name: self.name@, type_slots: names_view(self.type_slots@) }
    }
}

/// The generic implementation of the output-export interface: for an
/// instantiation bounded by every capability named by a deduced output, each
/// type slot is bound to the output's concrete type or to the capability's
/// associated type.
pub struct OutputExportImpl {
    pub trait_name: Vec<char>,
    pub bounds: Vec<Vec<char>>,
    pub assocs: Vec<(Vec<char>, TypeExpr)>,
}

/// Mathematical model of the export implementation.
pub struct SpecOutputExportImpl {
    pub trait_name: Seq<char>,
    pub bounds: Seq<Seq<char>>,
    pub assocs: Seq<(Seq<char>, SpecTypeExpr)>,
}

impl View for OutputExportImpl {
    type V = SpecOutputExportImpl;

    open spec fn view(&self) -> SpecOutputExportImpl {
        SpecOutputExportImpl {
            trait_name: self.trait_name@,
            bounds: names_view(self.bounds@),
            assocs: pairs_view(self.assocs@),
        }
    }
}

/// The output-validity record of one call: one boolean field per name in
/// the call's writes set, each reporting after an invocation whether that
/// output was actually written; every field defaults to false.
pub struct ValidityRecord {
    pub name: Vec<char>,
    pub fields: Vec<Vec<char>>,
}

/// Mathematical model of a validity record.
pub struct SpecValidityRecord {
    pub name: Seq<char>,
    pub fields: Seq<Seq<char>>,
}

impl View for ValidityRecord {
    type V = SpecValidityRecord;

    open spec fn view(&self) -> SpecValidityRecord {
        SpecValidityRecord { name: self.name@, fields: names_view(self.fields@) }
    }
}

/// Every artifact generated for one call.
pub struct CallArtifacts {
    pub call_name: Vec<char>,
    pub input: InputInterface,
    pub output: OutputInterface,
    pub valid: ValidityRecord,
}

/// Mathematical model of one call's artifacts.
pub struct SpecCallArtifacts {
    pub call_name: Seq<char>,
    pub input: SpecInputInterface,
    pub output: SpecOutputInterface,
    pub valid: SpecValidityRecord,
}

impl View for CallArtifacts {
    type V = SpecCallArtifacts;

    open spec fn view(&self) -> SpecCallArtifacts {
        SpecCallArtifacts {
            call_name: self.call_name@,
            input: self.input@,
            output: self.output@,
            valid: self.valid@,
        }
    }
}

/// The models of a sequence of call artifacts, element-wise.
pub open spec fn call_artifacts_view(s: Seq<CallArtifacts>) -> Seq<SpecCallArtifacts> {
    s.map_values(|a: CallArtifacts| a@)
}

/// The whole artifact set of one component: the export interface and its
/// implementation once, and the three per-call artifacts for every call in
/// declaration order.
pub struct ArtifactSet {
    pub export: OutputExportInterface,
    pub export_impl: OutputExportImpl,
    pub calls: Vec<CallArtifacts>,
}

/// Mathematical model of an artifact set.
pub struct SpecArtifactSet {
    pub export: SpecOutputExportInterface,
    pub export_impl: SpecOutputExportImpl,
    pub calls: Seq<SpecCallArtifacts>,
}

impl View for ArtifactSet {
    type V = SpecArtifactSet;

    open spec fn view(&self) -> SpecArtifactSet {
        SpecArtifactSet {
            export: self.export@,
            export_impl: self.export_impl@,
            calls: call_artifacts_view(self.calls@),
        }
    }
}

} // verus!
