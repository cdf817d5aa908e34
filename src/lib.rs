//! Bounding volumes kept for meshes in an explicit entity arena.
//!
//! An entity that asks for a bounding volume of some kind gets one as soon as
//! its mesh asset is available; until then it stays marked as pending and is
//! retried on every pass. Entities flagged for debugging get a child entity
//! whose mesh draws the volume, and that mesh follows the volume when it
//! changes.
use vstd::prelude::*;

pub mod components;
pub mod world;
pub mod systems;
pub mod laws;
pub mod plugins;

pub use components::{
    BoundingVolume, BoundingVolumeDebug, BoundingVolumeDebugMesh, EntityRecord, IsBoundingVolume,
    LoadingMesh, MeshHandle,
};

pub use plugins::{BoundingVolumeDebugPlugin, BoundingVolumePlugin};
pub use systems::{spawn_bounding_volumes, spawn_debug_meshes, update_debug_mesh};
pub use world::World;
