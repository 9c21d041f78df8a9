//! A schema compiler for dataflow components.
//!
//! A component definition names a component, its typed input and output
//! ports, and its calls: operations that consume a subset of the inputs and
//! produce a subset of the outputs.  The compiler parses a textual component
//! definition, validates its referential integrity, and generates the
//! capability interfaces through which a graph layer wires components
//! together: per call an input interface, an output interface and an
//! output-validity record, and per component an output-export interface with
//! its generic implementation.

pub mod add;
pub mod artifact;
pub mod codegen;
pub mod error;
pub mod io_structs;
pub mod model;
pub mod naming;
pub mod parse;
pub mod token;
pub mod validate;
