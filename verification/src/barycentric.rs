//! The algebraic core of the barycentric engine.
//!
//! The engine itself is floating-point arithmetic of the shading stage:
//! from three clip-space vertices and a pixel it computes screen-space
//! derivatives of the perspective-divided weight numerators, interpolates
//! the inverse w at the pixel by a first-order step, and scales the three
//! numerators by the reciprocal of the interpolated inverse w to obtain
//! the weights. What can be said exactly lives here: the three numerators
//! always sum to the interpolated inverse w. The weights are the
//! numerators each divided by that same sum, so under exact arithmetic
//! they sum to one at every pixel, on or off the triangle — the identity
//! the engine's w-correction step is built on.

use vstd::prelude::*;

verus! {

/// The numerator of one barycentric weight: the first-order step from
/// the reference vertex along the pixel's offset, plus that vertex's own
/// inverse w contribution.
pub open spec fn weight_numerator(dx: int, dy: int, ddx: int, ddy: int, base: int) -> int {
    dx * ddx + dy * ddy + base
}

/// The interpolated inverse w at a pixel: the reference vertex's inverse
/// w plus the pixel's offset times the summed derivatives.
pub open spec fn interpolated_inv_w(
    dx: int,
    dy: int,
    ddx_sum: int,
    ddy_sum: int,
    inv_w0: int,
) -> int {
    inv_w0 + dx * ddx_sum + dy * ddy_sum
}

/// The three weight numerators sum to the interpolated inverse w, for
/// any pixel offset and any derivative values. The weights divide the
/// numerators by exactly this sum, so under exact arithmetic they sum to
/// one wherever the sum is nonzero.
pub proof fn lemma_weight_numerators_sum(
    dx: int,
    dy: int,
    ddx0: int,
    ddx1: int,
    ddx2: int,
    ddy0: int,
    ddy1: int,
    ddy2: int,
    inv_w0: int,
)
    by (nonlinear_arith)
    ensures
        weight_numerator(dx, dy, ddx0, ddy0, inv_w0) + weight_numerator(dx, dy, ddx1, ddy1, 0)
            + weight_numerator(dx, dy, ddx2, ddy2, 0) == interpolated_inv_w(
            dx,
            dy,
            ddx0 + ddx1 + ddx2,
            ddy0 + ddy1 + ddy2,
            inv_w0,
        ),
{
}

} // verus!
