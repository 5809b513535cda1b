//! Moebius transformations over a scalar type, the discrete groups that
//! finitely many of them generate, their action on models of the hyperbolic
//! plane, and the orbits of a point under such a group.
//!
//! - `algebraic_extensions`: the scalar traits, and the group trait.
//! - `exact`: the scalars that are integers, for which the laws hold exactly.
//! - `moebius`: the transformations and their algebra.
//! - `set_extensions`: subsets given by a condition that is tested when a
//!   value is made.
//! - `fuchsian_group`: normalization to determinant one, and the discrete
//!   group with its two ways of being built.
//! - `geometry`: boundary points, geodesics and horocycles, with the action
//!   on each.
//! - `group_action`: actions, the picking of generators, and orbits.
//! - `group_laws`, `action_laws`: what holds of the group operations and of
//!   the actions on exact scalars.
//!
//! The contracts promise a result for scalars whose operators are functions
//! of their operands, and the laws are stated for exact scalars.
//! Floating-point scalars can be handed to the library, which then computes
//! what its functions say, step by step, with the arithmetic of the floats.

pub mod action_laws;
pub mod algebraic_extensions;
pub mod exact;
pub mod fuchsian_group;
pub mod geometry;
pub mod group_action;
pub mod group_laws;
pub mod moebius;
pub mod set_extensions;
