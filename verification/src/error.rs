//! The error type raised by grid writes and cursor-move validation.

use vstd::prelude::*;

verus! {

/// An addressed coordinate lies outside the bounds of a grid or of the
/// terminal: `x` and `y` are the offending coordinates, `width` and `height`
/// the bounds they were checked against.
#[derive(Clone, Copy, PartialEq, Eq, Structural, Debug)]
pub enum Error {
    PositionError { x: usize, y: usize, width: usize, height: usize },
}

} // verus!
