use vstd::prelude::*;

verus! {

/// Why a layer refused a construction request or a propagation step.
#[derive(Clone, Copy, Debug, PartialEq, Eq, Structural)]
pub enum LayerError {
    /// A tensor's shape differs from the shape the layer currently holds.
    ShapeMismatch,
    /// A tensor does not have the rank the layer works at.
    InvalidDimensionality,
    /// A construction or reset parameter is out of range or inconsistent.
    InvalidConfig,
}

} // verus!
