//! Properties of the pass-by-pass life of an entity, proved over the
//! functions that describe what each system does to it.
use crate::components::{EntityRecord, IsBoundingVolume, LoadingMesh};
use crate::systems::{
    drawn_volume, redrawn_debug_meshes, refreshed_child, spawn_query, spawn_step,
    spawned_debug_children, update_query,
};
use crate::world::{cleared, resolve};
use vstd::prelude::*;

verus! {

/// The record of an entity after `n` passes of the spawn system, each followed
/// by the end of the pass, while the mesh assets stay `meshes`.
pub open spec fn spawn_passes<T: IsBoundingVolume<M, X>, M, X>(
    e: EntityRecord<T, X>,
    meshes: Seq<Option<M>>,
    n: nat,
) -> EntityRecord<T, X>
    decreases n,
{
    if n == 0 {
        e
    } else {
        spawn_passes(cleared(spawn_step(e, meshes)), meshes, (n - 1) as nat)
    }
}

/// An entity whose intent marker was just added, with a mesh handle that
/// does not resolve: after any positive number of passes in which the asset
/// stays missing, it is pending, has no volume, and keeps its intent marker.
pub proof fn lemma_unresolved_stays_pending<T: IsBoundingVolume<M, X>, M, X>(
    e: EntityRecord<T, X>,
    meshes: Seq<Option<M>>,
    n: nat,
)
    requires
        e.intent is Some,
        e.intent_added,
        e.volume is None,
        e.mesh is Some,
        e.transform is Some,
        resolve(meshes, e.mesh->0) is None,
        n >= 1,
    ensures
        spawn_passes(e, meshes, n).loading == Some(LoadingMesh),
        spawn_passes(e, meshes, n).volume is None,
        spawn_passes(e, meshes, n).intent == e.intent,
    decreases n,
{
    let next = cleared(spawn_step(e, meshes));
    assert(spawn_query(e));
    assert(next.loading == Some(LoadingMesh) && next.volume is None && next.intent == e.intent);
    assert(spawn_passes(e, meshes, n) == spawn_passes(next, meshes, (n - 1) as nat));
    if n > 1 {
        lemma_pending_stays_pending(next, meshes, (n - 1) as nat);
    }
}

/// A pending entity whose mesh still does not resolve stays as it is.
proof fn lemma_pending_stays_pending<T: IsBoundingVolume<M, X>, M, X>(
    e: EntityRecord<T, X>,
    meshes: Seq<Option<M>>,
    n: nat,
)
    requires
        e.loading == Some(LoadingMesh),
        !e.intent_added,
        !e.volume_added,
        !e.volume_changed,
        e.volume is None,
        e.mesh is Some,
        e.transform is Some,
        resolve(meshes, e.mesh->0) is None,
    ensures
        spawn_passes(e, meshes, n) == e,
    decreases n,
{
    if n > 0 {
        assert(cleared(spawn_step(e, meshes)) == e);
        lemma_pending_stays_pending(e, meshes, (n - 1) as nat);
    }
}

/// An entity whose intent marker was just added and whose mesh is missing
/// for the first `k` passes (`k` may be zero) and resolves to `g` on the next
/// one: after that pass it holds the volume built from `g` and its transform,
/// is no longer pending, and has lost its intent marker.
pub proof fn lemma_resolves_on_pass<T: IsBoundingVolume<M, X>, M, X>(
    e: EntityRecord<T, X>,
    missing: Seq<Option<M>>,
    k: nat,
    loaded: Seq<Option<M>>,
    g: M,
)
    requires
        e.intent is Some,
        e.intent_added,
        e.volume is None,
        e.mesh is Some,
        e.transform is Some,
        resolve(missing, e.mesh->0) is None,
        resolve(loaded, e.mesh->0) == Some(g),
    ensures
        ({
            let r = spawn_step(spawn_passes(e, missing, k), loaded);
            &&& r.volume == Some(T::spec_new(g, e.transform->0))
            &&& r.loading is None
            &&& r.intent is None
        }),
{
    if k >= 1 {
        lemma_unresolved_stays_pending(e, missing, k);
        lemma_passes_keep_place(e, missing, k);
    }
}

/// The spawn system changes neither the mesh handle nor the transform.
proof fn lemma_passes_keep_place<T: IsBoundingVolume<M, X>, M, X>(
    e: EntityRecord<T, X>,
    meshes: Seq<Option<M>>,
    n: nat,
)
    ensures
        spawn_passes(e, meshes, n).mesh == e.mesh,
        spawn_passes(e, meshes, n).transform == e.transform,
    decreases n,
{
    if n > 0 {
        lemma_passes_keep_place(cleared(spawn_step(e, meshes)), meshes, (n - 1) as nat);
    }
}

/// The spawn system leaves an entity that already holds its volume exactly
/// as it is, whatever the mesh assets hold.
pub proof fn lemma_spawn_idempotent<T: IsBoundingVolume<M, X>, M, X>(
    e: EntityRecord<T, X>,
    meshes: Seq<Option<M>>,
)
    requires
        e.volume is Some,
    ensures
        spawn_step(e, meshes) == e,
        spawn_step(spawn_step(e, meshes), meshes) == spawn_step(e, meshes),
{
}

/// Building a volume is deterministic: two volumes built from the same mesh
/// and transform are equal.
pub proof fn lemma_construct_deterministic<T: IsBoundingVolume<M, X>, M, X>(
    a: T,
    b: T,
    mesh: M,
    transform: X,
)
    requires
        a == T::spec_new(mesh, transform),
        b == T::spec_new(mesh, transform),
    ensures
        a == b,
{
}

/// A pass whose post-update stage spawned debug children (`spawned`) and then
/// redrew debug meshes (`meshes`): a debug-flagged entity whose volume was
/// changed, and not added, during the pass gets no new child, and each of its
/// debug-mesh children now holds the drawing of the new volume under the
/// entity's current transform.
pub proof fn lemma_changed_volume_redrawn<T: IsBoundingVolume<M, X>, M, X>(
    old_ents: Seq<EntityRecord<T, X>>,
    old_meshes: Seq<Option<M>>,
    ents: Seq<EntityRecord<T, X>>,
    spawned: Seq<Option<M>>,
    meshes: Seq<Option<M>>,
    p: usize,
    c: usize,
)
    requires
        spawned_debug_children(old_ents, old_meshes, ents, spawned),
        redrawn_debug_meshes(ents, spawned, meshes, ents.len() as int),
        p < old_ents.len(),
        update_query(old_ents[p as int]),
        !old_ents[p as int].volume_added,
        c < old_ents.len(),
        old_ents[c as int].parent == Some(p),
        old_ents[c as int].debug_mesh is Some,
    ensures
        meshes[old_ents[c as int].mesh->0 as int] == Some(drawn_volume(old_ents[p as int])),
        forall|j: int| old_ents.len() <= j < ents.len() ==> #[trigger] ents[j].parent != Some(p),
{
    let n = old_ents.len() as int;
    assert(ents[c as int] == ents.subrange(0, n)[c as int]);
    assert(ents[p as int] == ents.subrange(0, n)[p as int]);
    assert(refreshed_child(ents, c as int));
}

} // verus!
