//! A verified model of a struct-conversion synthesizer.
//!
//! Given the declaration of a destination record type and the path of a
//! source type, the synthesizer classifies the destination's fields into
//! plain, fixed-size-array and defaulted fields, strips the generator's
//! private attributes from the declaration, and produces a conversion plan
//! that builds a destination value from a source value field by field.
//! A small semantics for conversion plans lets the intended behaviour of
//! the generated conversion be stated and proved.

pub mod ast;
pub mod classify;
pub mod emit;
pub mod laws;
pub mod semantics;
pub mod value;
