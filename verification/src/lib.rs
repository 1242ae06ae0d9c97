//! A small entity-component-system engine together with the roguelike pieces
//! that are built on it.
//!
//! [`ecs`] holds the engine: a component store that keeps one column per
//! registered component type and one bitmask per entity, a resource store for
//! singletons, a query engine over the bitmasks, and the [`ecs::World`] facade
//! that owns the stores. [`components`] and [`map`] hold the data that the
//! game keeps in a world, [`game`] the rules of moving and drawing, and
//! [`random`] the random source of the map generator.
pub mod components;
pub mod ecs;
pub mod game;
pub mod map;
pub mod random;
