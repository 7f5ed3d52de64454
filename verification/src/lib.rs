//! A two-dimensional gravitational particle simulation core.
//!
//! The centrepiece is [`ParticleQuadTree`]: a 4-ary spatial index over a
//! bounding region. Each node keeps a running "summary particle" (unweighted
//! mean position, total mass) of everything inserted beneath it. A simulation
//! tick advances particle velocities and positions with an exact pairwise
//! term inside each leaf and an approximate term from the summary particles
//! of sibling quadrants collected along the descent.
//!
//! The numeric type is abstract: it is any type implementing
//! [`QuadtreePointValue`], whose executable operations are pinned to spec
//! counterparts, so every arithmetic step of the simulation is reflected
//! exactly in the contracts.

pub mod laws;
pub mod particle;
pub mod particle_quad_tree;
pub mod tick;
pub mod vector2d;
pub mod visit;

pub use particle::Particle;
pub use particle_quad_tree::ParticleQuadTree;
pub use particle_quad_tree::QuadtreeNode;
pub use particle_quad_tree::QuadtreePointValue;
pub use vector2d::Vector2D;
pub use visit::QuadtreeVisitor;
pub use visit::RecordingVisitor;
pub use visit::VisitEvent;
