//! The entity-component-system engine.
pub mod bits;
pub mod cell;
pub mod entity;
pub mod error;
pub mod resource;
pub mod world;

pub use world::World;
