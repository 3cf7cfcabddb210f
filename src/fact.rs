use vstd::prelude::*;
use crate::dim::Dim;

verus! {

/// The element kind of a tensor.
#[derive(Debug, Clone, Copy, PartialEq, Eq, Structural)]
pub enum DatumType {
    Bool,
    I32,
    I64,
    F32,
    TDim,
    String,
}

/// What flows along an edge of a typed graph: element kind and per-axis size.
#[derive(Debug, Clone)]
pub struct TypedFact {
    pub datum_type: DatumType,
    pub shape: Vec<Dim>,
}

impl TypedFact {
    /// The sizes of the fact, one pair per axis.
    pub open spec fn shape_view(&self) -> Seq<(int, int)> {
        self.shape@.map_values(|d: Dim| d@)
    }

    /// A fact of the given element kind and shape.
    pub fn dt_shape(datum_type: DatumType, shape: &Vec<Dim>) -> (r: TypedFact)
        ensures
            r.datum_type == datum_type,
            r.shape@ == shape@,
    {
        TypedFact { datum_type, shape: shape.clone() }
    }
}

} // verus!
