use vstd::prelude::*;

pub mod text;
pub mod doc;
pub mod decl;
pub mod scan;
pub mod laws;
pub mod gen;

verus! {

} // verus!
