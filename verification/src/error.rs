//! The compiler's error taxonomy.
//!
//! All three errors are structural: they are raised while a component
//! definition is compiled and never deferred to the use of a generated
//! artifact.  A failure aborts the compilation of the component; no partial
//! artifact set is emitted.

use vstd::prelude::*;

verus! {

/// Malformed schema text.  Carries the character offset of the first
/// offending character (when tokenization fails) or of the first offending
/// token (when parsing fails).
#[derive(Clone, Copy, Debug, PartialEq, Eq, Structural)]
pub struct SyntaxError {
    pub pos: usize,
}

/// A name declared twice within one mapping or set.  Carries the name, the
/// character offset of its first occurrence and the offset of the duplicate.
#[derive(Debug)]
pub struct DuplicateDeclarationError {
    pub name: Vec<char>,
    pub first_pos: usize,
    pub dup_pos: usize,
}

/// A call referencing an input or output name that the component does not
/// declare.  Carries the call's name and the offending identifier.
#[derive(Debug)]
pub struct ReferenceError {
    pub call: Vec<char>,
    pub ident: Vec<char>,
}

/// An error of the parsing stage: either malformed text or a duplicate
/// declaration.
#[derive(Debug)]
pub enum ParseError {
    Syntax(SyntaxError),
    Duplicate(DuplicateDeclarationError),
}

/// Any error the compilation pipeline can raise.
#[derive(Debug)]
pub enum CompileError {
    Syntax(SyntaxError),
    Duplicate(DuplicateDeclarationError),
    Reference(ReferenceError),
}

/// Mathematical model of a `DuplicateDeclarationError`.
pub struct SpecDuplicate {
    pub name: Seq<char>,
    pub first_pos: int,
    pub dup_pos: int,
}

/// Mathematical model of a `ReferenceError`.
pub struct SpecReference {
    pub call: Seq<char>,
    pub ident: Seq<char>,
}

/// Mathematical model of a `ParseError`.
pub enum SpecParseError {
    Syntax(int),
    Duplicate(SpecDuplicate),
}

/// Mathematical model of a `CompileError`.
pub enum SpecCompileError {
    Syntax(int),
    Duplicate(SpecDuplicate),
    Reference(SpecReference),
}

impl View for DuplicateDeclarationError {
    type V = SpecDuplicate;

    open spec fn view(&self) -> SpecDuplicate {
        SpecDuplicate { name: self.name@, first_pos: self.first_pos as int, dup_pos: self.dup_pos as int }
    }
}

impl View for ReferenceError {
    type V = SpecReference;

    open spec fn view(&self) -> SpecReference {
        SpecReference { call: self.call@, ident: self.ident@ }
    }
}

impl View for ParseError {
    type V = SpecParseError;

    open spec fn view(&self) -> SpecParseError {
        match self {
            ParseError::Syntax(e) => SpecParseError::Syntax(e.pos as int),
            ParseError::Duplicate(e) => SpecParseError::Duplicate(e@),
        }
    }
}

impl View for CompileError {
    type V = SpecCompileError;

    open spec fn view(&self) -> SpecCompileError {
        match self {
            CompileError::Syntax(e) => SpecCompileError::Syntax(e.pos as int),
            CompileError::Duplicate(e) => SpecCompileError::Duplicate(e@),
            CompileError::Reference(e) => SpecCompileError::Reference(e@),
        }
    }
}

/// Lifts a parsing-stage error into the pipeline's error type.
pub open spec fn spec_parse_to_compile(e: SpecParseError) -> SpecCompileError {
    match e {
        SpecParseError::Syntax(p) => SpecCompileError::Syntax(p),
        SpecParseError::Duplicate(d) => SpecCompileError::Duplicate(d),
    }
}

impl ParseError {
    /// Lifts a parsing-stage error into the pipeline's error type.
    pub fn into_compile(self) -> (r: CompileError)
        ensures
            r@ == spec_parse_to_compile(self@),
    {
        match self {
            ParseError::Syntax(e) => CompileError::Syntax(e),
            ParseError::Duplicate(e) => CompileError::Duplicate(e),
        }
    }
}

} // verus!
