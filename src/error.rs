use vstd::prelude::*;

verus! {

/// The ways an operator, the fact solver or a graph rewrite can fail.
#[derive(Debug, Clone, Copy, PartialEq, Eq, Structural)]
pub enum TractError {
    /// Wrong number of inputs or outputs for an operator.
    Arity,
    /// A size needed as a concrete integer still holds an unknown.
    DimensionUnresolved,
    /// A computed size or padding spread is negative.
    DimensionNegative,
    /// An axis or an index range lies outside the tensor it applies to.
    DimensionOutOfRange,
    /// Two constraints disagree on the same slot.
    ShapeOrTypeConflict,
    /// The operator type is not known to the graph builder.
    UnsupportedOperator,
    /// A patch refers to an outlet that does not exist.
    PatchUnresolvable,
}

} // verus!
