//! The stages of a pass: the spawn system runs in the update stage, and the
//! two debug-mesh systems in the post-update stage.
use crate::components::IsBoundingVolume;
use crate::systems::{
    debug_spawn_query, redrawn_debug_meshes, spawn_bounding_volumes, spawn_debug_meshes, spawn_step,
    spawned_debug_children, update_debug_mesh,
};
use crate::world::World;
use vstd::prelude::*;

verus! {

/// Keeps bounding volumes: runs the spawn system in the update stage.
#[derive(Clone, Copy, Debug, PartialEq, Eq)]
pub struct BoundingVolumePlugin;

impl BoundingVolumePlugin {
    /// The update stage of a pass.
    pub fn update<T: IsBoundingVolume<M, X>, M, X: Copy>(&self, world: &mut World<T, M, X>)
        ensures
            final(world).assets() == old(world).assets(),
            final(world).ents().len() == old(world).ents().len(),
            forall|i: int|
                0 <= i < old(world).ents().len() ==> #[trigger] final(world).ents()[i] == spawn_step(
                    old(world).ents()[i],
                    old(world).assets(),
                ),
            old(world).wf() ==> final(world).wf(),
    {
        spawn_bounding_volumes(world);
    }
}

/// Draws bounding volumes: runs the debug-mesh spawn system, then the
/// debug-mesh update system, in the post-update stage.
#[derive(Clone, Copy, Debug, PartialEq, Eq)]
pub struct BoundingVolumeDebugPlugin;

impl BoundingVolumeDebugPlugin {
    /// The post-update stage of a pass.
    pub fn post_update<T: IsBoundingVolume<M, X>, M, X: Copy>(&self, world: &mut World<T, M, X>)
        requires
            old(world).wf(),
        ensures
            exists|spawned: Seq<Option<M>>|
                {
                    &&& spawned_debug_children(
                        old(world).ents(),
                        old(world).assets(),
                        final(world).ents(),
                        spawned,
                    )
                    &&& redrawn_debug_meshes(
                        final(world).ents(),
                        spawned,
                        final(world).assets(),
                        final(world).ents().len() as int,
                    )
                },
            forall|p: int|
                0 <= p < old(world).ents().len() && debug_spawn_query(#[trigger] old(world).ents()[p])
                    ==> exists|j: int|
                    old(world).ents().len() <= j < final(world).ents().len()
                        && #[trigger] final(world).ents()[j].parent == Some(p as usize),
            forall|j1: int, j2: int|
                old(world).ents().len() <= j1 < final(world).ents().len() && old(world).ents().len()
                    <= j2 < final(world).ents().len() && (#[trigger] final(world).ents()[j1]).parent
                    == (#[trigger] final(world).ents()[j2]).parent ==> j1 == j2,
            final(world).wf(),
    {
        spawn_debug_meshes(world);
        let ghost spawned = world.assets();
        update_debug_mesh(world);
        assert(spawned_debug_children(old(world).ents(), old(world).assets(), world.ents(), spawned));
    }
}

} // verus!
