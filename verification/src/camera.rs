//! What a camera can be asked to do. The camera itself computes in floating
//! point and belongs to the program around this library.

use vstd::prelude::*;

verus! {

/// A direction in which the camera can be asked to move.
#[derive(Clone, Copy, Debug, PartialEq, Eq, Structural)]
pub enum Movement {
    Forward,
    Backward,
    Left,
    Right,
}

} // verus!
