use vstd::prelude::*;

use crate::vector2d::Vector2D;

verus! {

/// A single two-dimensional point mass.
///
/// A particle's identity is its index in an externally owned buffer; the
/// quadtree stores indices into that buffer, never copies of particles
/// (except for the derived per-node summary particle).
#[derive(Clone, Copy)]
pub struct Particle<T> {
    pub position: Vector2D<T>,
    pub velocity: Vector2D<T>,
    pub radius: T,
    pub mass: T,
}

} // verus!
