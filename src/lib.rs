//! A verified simulation core for an arcade asteroid-field game.
//!
//! All quantities are fixed-point integers: one world unit is
//! `geometry::SUBUNITS` sub-units, and headings are whole steps of
//! `heading::STEP_DEGREES` degrees.
pub mod geometry;
pub mod heading;
pub mod kinematics;
pub mod entity;
pub mod collision;
pub mod random;
pub mod slots;
pub mod world;
pub mod laws;
