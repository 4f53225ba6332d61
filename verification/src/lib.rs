//! An entity-component-system (ECS) runtime for single-threaded, per-frame
//! simulations: entity identity with a reusable free list, typed component
//! storage in a sparse (map) or dense (array) strategy, bitmask capability
//! queries over up to 128 component kinds, a name-ordered system registry
//! with a deterministic tick sweep, and a stage state machine that swaps
//! the active simulation mode and reports transition events.

pub mod bits;
pub mod names;
pub mod registry;
pub mod entity;
pub mod component;
pub mod stage;
pub mod system;
pub mod world;
pub mod physics;
