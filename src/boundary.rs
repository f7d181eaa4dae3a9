//! The direction in which a boundary acts on the particles.
use vstd::prelude::*;

verus! {

/// Whether a boundary keeps particles inside its region (containment) or
/// outside it (an obstacle).
#[derive(Debug, Clone, Copy, PartialEq, Eq, Structural)]
pub enum BoundaryType {
    Inner,
    Outer,
}

} // verus!
