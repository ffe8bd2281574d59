//! A FABRIK (Forward And Backward Reaching Inverse Kinematics) solver for
//! articulated joint chains, computed over fixed-point scalars.
//!
//! Positions, directions and quaternion components are held as `i64` values
//! scaled by `fixed::SCALE` (a value of `SCALE` stands for 1.0). All geometry
//! is exact integer arithmetic with truncating division, so every function
//! here has a precise contract and the solver is deterministic by
//! construction. A host scene graph (which typically stores floating-point
//! transforms) converts to and from this representation at its own edge.

pub mod chain;
pub mod constraint;
pub mod fixed;
pub mod quat;
pub mod vec3;

pub use chain::IkChain;
pub use constraint::{SwingConstraint, TwistConstraint};
