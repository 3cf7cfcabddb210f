//! Typed operator graph for neural-network inference: symbolic sizes, facts
//! and tensors, a constraint solver for shape inference, an arena graph with
//! patch-based rewriting, and two exemplary operators (axis slicing and the
//! space-to-batch / batch-to-space pair).
use vstd::prelude::*;

pub mod descriptor;
pub mod dim;
pub mod error;
pub mod fact;
pub mod graph_def;
pub mod model;
pub mod padding;
pub mod s2b;
pub mod slice;
pub mod solver;
pub mod tensor;

verus! {

} // verus!
