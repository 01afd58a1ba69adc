//! Collision pipeline of a small arcade space shooter, on fixed-point values.
//!
//! Lengths, health and damage are integers counted in thousandths of a world
//! unit, so that every rule of the pipeline is exact arithmetic: overlap
//! detection, event classification per archetype, damage resolution, reaping
//! and the spawn rules.

pub mod geometry;
pub mod components;
pub mod registry;
pub mod detection;
pub mod classification;
pub mod damage;
pub mod lifecycle;
pub mod spawn;
pub mod controls;
pub mod rotation;
pub mod simulation;
