//! Front end of a small pipe-oriented expression language: the raw syntax
//! tree and literal decoding, identifier interning, the analyzed value tree
//! and the scope-resolution pass that binds every identifier reference.
use vstd::prelude::*;

pub mod syntax;
pub mod parse_state;
pub mod runtime;
pub mod analysis;
pub mod laws;
pub mod parser;

verus! {

} // verus!
