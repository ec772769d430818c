//! The behaviour and navigation core of the hostiles in a small arena game:
//! what each enemy is doing, how it moves along a path while keeping apart
//! from its neighbours, and how the population is spawned and reclaimed.
pub mod geometry;
pub mod health;
pub mod beacon;
pub mod behavior;
pub mod steering;
pub mod spawn;
pub mod minion;
pub mod population;
pub mod laws;
pub mod navigation;
