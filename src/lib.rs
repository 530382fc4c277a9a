//! Projects a labelled directed graph onto tables. A table definition selects anchor nodes
//! with a root filter and declares columns; each row holds, per column, the neighbours that
//! the anchor reaches over one edge of the column's predicate and direction.
use vstd::prelude::*;

pub mod model;
pub mod ordered;
pub mod graph;
pub mod table;
pub mod laws;
pub mod value;

verus! {

} // verus!
