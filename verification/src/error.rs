//! The ways in which loading a model or classifying an image can fail.

use vstd::prelude::*;

verus! {

/// Every failure is final: no partial model or degraded prediction is ever
/// handed out alongside one of these.
#[derive(Clone, Copy, Debug, PartialEq, Eq, Structural)]
pub enum WnnError {
    /// A scalar parameter of the model is missing or outside its domain.
    FormatError,
    /// A tensor disagrees with the scalar parameters, the input order is not
    /// a permutation, or the thresholds of a pixel decrease.
    ShapeError,
    /// Image data that cannot be read as a pixel grid.
    DecodeError,
    /// An image whose size is not the one the model was trained on.
    ShapeMismatch,
}

} // verus!
