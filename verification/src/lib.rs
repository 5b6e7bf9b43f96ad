//! Entity registry and collision-attribution core of a small arena shooter.
//!
//! The library owns the mapping from logical entity IDs to game entities,
//! buffers entities spawned during a tick so that they become visible only
//! on the next tick, recovers logical identities from collision events, and
//! holds the per-tick gameplay rules (fire cooldown, control smoothing).
//! The surrounding physics and rendering stack is an external collaborator:
//! the driver reads poses and identity tags from it and hands this library
//! plain values.

pub mod bullet;
pub mod controller;
pub mod entity;
pub mod registry;
pub mod roid;
pub mod ship;
pub mod tick;
