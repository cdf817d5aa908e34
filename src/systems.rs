//! The three systems that keep bounding volumes and their debug meshes up to date.
use crate::components::{BoundingVolumeDebugMesh, EntityRecord, IsBoundingVolume, LoadingMesh};
use crate::world::{fresh_record, resolve, World};
use vstd::prelude::*;

verus! {

/// The entity is looked at by the spawn system: its intent was just added or
/// it is pending, it has no volume yet, and it has a mesh and a transform.
pub open spec fn spawn_query<T, X>(e: EntityRecord<T, X>) -> bool {
    &&& e.intent_added || e.loading is Some
    &&& e.volume is None
    &&& e.mesh is Some
    &&& e.transform is Some
}

/// What one run of the spawn system makes of an entity.
pub open spec fn spawn_step<T: IsBoundingVolume<M, X>, M, X>(
    e: EntityRecord<T, X>,
    meshes: Seq<Option<M>>,
) -> EntityRecord<T, X> {
    if !spawn_query(e) {
        e
    } else {
        match resolve(meshes, e.mesh->0) {
            Some(g) => EntityRecord {
                volume: Some(T::spec_new(g, e.transform->0)),
                volume_added: true,
                loading: None,
                intent: None,
                ..e
            },
            None => EntityRecord { loading: Some(LoadingMesh), ..e },
        }
    }
}

/// Computes the bounding volume of each entity that waits for one and whose
/// mesh is now available; marks the others as pending.
pub fn spawn_bounding_volumes<T: IsBoundingVolume<M, X>, M, X: Copy>(world: &mut World<T, M, X>)
    ensures
        final(world).assets() == old(world).assets(),
        final(world).ents().len() == old(world).ents().len(),
        forall|i: int|
            0 <= i < old(world).ents().len() ==> #[trigger] final(world).ents()[i] == spawn_step(
                old(world).ents()[i],
                old(world).assets(),
            ),
        old(world).wf() ==> final(world).wf(),
{
    let n = world.entities.len();
    let mut i: usize = 0;
    while i < n
        invariant
            n == old(world).ents().len(),
            world.ents().len() == n,
            world.assets() == old(world).assets(),
            forall|k: int|
                0 <= k < i ==> #[trigger] world.ents()[k] == spawn_step(
                    old(world).ents()[k],
                    old(world).assets(),
                ),
            forall|k: int| i <= k < n ==> #[trigger] world.ents()[k] == old(world).ents()[k],
        decreases n - i,
    {
        let e = &world.entities[i];
        if (e.intent_added || e.loading.is_some()) && e.volume.is_none() && e.mesh.is_some()
            && e.transform.is_some() {
            let h = e.mesh.unwrap();
            let x = e.transform.unwrap();
            match world.mesh(h) {
                Some(g) => {
                    let v = T::new(g, &x);
                    world.entities[i].volume = Some(v);
                    world.entities[i].volume_added = true;
                    world.entities[i].loading = None;
                    world.entities[i].intent = None;
                },
                None => {
                    world.entities[i].loading = Some(LoadingMesh);
                },
            }
        }
        i = i + 1;
    }
    proof {
        let o = old(world);
        assert forall|j: int|
            0 <= j < n && (#[trigger] world.ents()[j]).debug_mesh is Some implies
                o.ents()[j].debug_mesh is Some && world.ents()[j].mesh == o.ents()[j].mesh by {
            assert(world.ents()[j] == spawn_step(o.ents()[j], o.assets()));
        }
    }
}

/// The entity is looked at by the debug-mesh spawn system: its volume
/// appeared during this pass and it asks for debug drawing.
pub open spec fn debug_spawn_query<T, X>(e: EntityRecord<T, X>) -> bool {
    &&& e.volume_added
    &&& e.volume is Some
    &&& e.debug is Some
    &&& e.transform is Some
}

/// The mesh that draws the volume of `e` under its own transform.
pub open spec fn drawn_volume<T: IsBoundingVolume<M, X>, M, X>(e: EntityRecord<T, X>) -> M {
    e.volume->0.spec_debug_mesh(e.transform->0)
}

/// `ents` extends `old` by debug-mesh children, one for each entity of `old`
/// that `debug_spawn_query` selects, in order, each with a fresh mesh handle
/// that resolves to the drawing of its parent's volume.
pub open spec fn spawned_debug_children<T: IsBoundingVolume<M, X>, M, X>(
    old_ents: Seq<EntityRecord<T, X>>,
    old_meshes: Seq<Option<M>>,
    ents: Seq<EntityRecord<T, X>>,
    meshes: Seq<Option<M>>,
) -> bool {
    let n = old_ents.len();
    let m = old_meshes.len();
    &&& n <= ents.len()
    &&& ents.subrange(0, n as int) == old_ents
    &&& meshes.len() == m + (ents.len() - n)
    &&& meshes.subrange(0, m as int) == old_meshes
    &&& forall|j: int|
        n <= j < ents.len() ==> {
            let p = (#[trigger] ents[j]).parent->0;
            &&& ents[j].parent is Some
            &&& p < n
            &&& debug_spawn_query(old_ents[p as int])
            &&& ents[j] == fresh_record::<T, X>(
                Some((m + (j - n)) as usize),
                None,
                Some(p),
                Some(BoundingVolumeDebugMesh),
            )
            &&& meshes[m + (j - n)] == Some(drawn_volume(old_ents[p as int]))
        }
    &&& forall|j1: int, j2: int|
        n <= j1 < j2 < ents.len() ==> (#[trigger] ents[j1]).parent->0 < (#[trigger] ents[j2]).parent->0
}

/// Gives each entity whose volume appeared during this pass, and which asks
/// for debug drawing, one child entity whose new mesh draws the volume.
pub fn spawn_debug_meshes<T: IsBoundingVolume<M, X>, M, X: Copy>(world: &mut World<T, M, X>)
    ensures
        spawned_debug_children(
            old(world).ents(),
            old(world).assets(),
            final(world).ents(),
            final(world).assets(),
        ),
        forall|p: int|
            0 <= p < old(world).ents().len() && debug_spawn_query(#[trigger] old(world).ents()[p])
                ==> exists|j: int|
                old(world).ents().len() <= j < final(world).ents().len()
                    && #[trigger] final(world).ents()[j].parent == Some(p as usize),
        forall|j1: int, j2: int|
            old(world).ents().len() <= j1 < final(world).ents().len() && old(world).ents().len()
                <= j2 < final(world).ents().len() && (#[trigger] final(world).ents()[j1]).parent
                == (#[trigger] final(world).ents()[j2]).parent ==> j1 == j2,
        old(world).wf() ==> final(world).wf(),
{
    let n = world.entities.len();
    let ghost m0 = world.assets().len();
    let mut i: usize = 0;
    assert(world.ents().subrange(0, n as int) =~= old(world).ents());
    assert(world.assets().subrange(0, m0 as int) =~= old(world).assets());
    while i < n
        invariant
            n == old(world).ents().len(),
            m0 == old(world).assets().len(),
            i <= n,
            spawned_debug_children(
                old(world).ents(),
                old(world).assets(),
                world.ents(),
                world.assets(),
            ),
            forall|j: int| n <= j < world.ents().len() ==> (#[trigger] world.ents()[j]).parent->0 < i,
            forall|p: int|
                0 <= p < i && debug_spawn_query(#[trigger] old(world).ents()[p]) ==> exists|j: int|
                    n <= j < world.ents().len() && #[trigger] world.ents()[j].parent == Some(
                        p as usize,
                    ),
        decreases n - i,
    {
        assert(world.ents()[i as int] == world.ents().subrange(0, n as int)[i as int]);
        let ghost prev = world.ents();
        let e = &world.entities[i];
        if e.volume_added && e.volume.is_some() && e.debug.is_some() && e.transform.is_some() {
            let x = e.transform.unwrap();
            let drawn = e.volume.as_ref().unwrap().new_debug_mesh(&x);
            let h = world.add_mesh(Some(drawn));
            let c = world.spawn(Some(h), None);
            world.entities[c].parent = Some(i);
            world.entities[c].debug_mesh = Some(BoundingVolumeDebugMesh);
            proof {
                let o = old(world);
                let ents = world.ents();
                assert(ents.subrange(0, n as int) =~= o.ents());
                assert(world.assets().subrange(0, m0 as int) =~= o.assets());
                assert(ents[c as int].parent == Some(i));
                assert forall|p: int|
                    0 <= p <= i && debug_spawn_query(#[trigger] o.ents()[p]) implies exists|j: int|
                        n <= j < ents.len() && #[trigger] ents[j].parent == Some(p as usize) by {
                    if p < i {
                        let j0 = choose|j: int| n <= j < prev.len() && #[trigger] prev[j].parent == Some(p as usize);
                        assert(ents[j0] == prev[j0]);
                    } else {
                        assert(ents[c as int].parent == Some(p as usize));
                    }
                }
            }
        }
        i = i + 1;
    }
    let total = world.meshes.len();
    proof {
        let o = old(world);
        let ents = world.ents();
        let a = world.assets();
        assert(a.len() == total);
        assert forall|j1: int, j2: int|
            n <= j1 < ents.len() && n <= j2 < ents.len() && (#[trigger] ents[j1]).parent
                == (#[trigger] ents[j2]).parent implies j1 == j2 by {
            if j1 < j2 {
                assert(ents[j1].parent->0 < ents[j2].parent->0);
            } else if j2 < j1 {
                assert(ents[j2].parent->0 < ents[j1].parent->0);
            }
        }
        if o.wf() {
            assert forall|j: int|
                0 <= j < ents.len() && (#[trigger] ents[j]).debug_mesh is Some implies {
                    &&& ents[j].mesh is Some
                    &&& resolve(a, ents[j].mesh->0) is Some
                } by {
                if j < n {
                    assert(ents[j] == ents.subrange(0, n as int)[j]);
                    assert(o.ents()[j].debug_mesh is Some);
                    assert(a[ents[j].mesh->0 as int] == a.subrange(0, m0 as int)[ents[j].mesh->0 as int]);
                } else {
                    assert(ents[j].mesh == Some((m0 + (j - n)) as usize));
                }
            }
            assert forall|i1: int, j: int|
                0 <= i1 < ents.len() && 0 <= j < ents.len() && i1 != j && (#[trigger] ents[i1]).debug_mesh is Some
                    && (#[trigger] ents[j]).debug_mesh is Some implies ents[i1].mesh != ents[j].mesh by {
                if i1 < n {
                    assert(ents[i1] == ents.subrange(0, n as int)[i1]);
                    assert(ents[i1] == o.ents()[i1]);
                    assert(ents[i1].mesh->0 < m0);
                } else {
                    assert(ents[i1].mesh == Some((m0 + (i1 - n)) as usize));
                }
                if j < n {
                    assert(ents[j] == ents.subrange(0, n as int)[j]);
                    assert(ents[j] == o.ents()[j]);
                    assert(ents[j].mesh->0 < m0);
                } else {
                    assert(ents[j].mesh == Some((m0 + (j - n)) as usize));
                }
            }
        }
    }
}

/// The entity is looked at by the debug-mesh update system: its volume was
/// changed during this pass and it asks for debug drawing.
pub open spec fn update_query<T, X>(e: EntityRecord<T, X>) -> bool {
    &&& e.volume_changed
    &&& e.volume is Some
    &&& e.debug is Some
    &&& e.transform is Some
}

/// Entity `j` draws the volume of a parent that `update_query` selects.
pub open spec fn refreshed_child<T, X>(ents: Seq<EntityRecord<T, X>>, j: int) -> bool {
    &&& 0 <= j < ents.len()
    &&& ents[j].debug_mesh is Some
    &&& ents[j].parent is Some
    &&& ents[j].parent->0 < ents.len()
    &&& update_query(ents[ents[j].parent->0 as int])
}

/// `meshes` is `old_meshes` with the mesh of every child that
/// `refreshed_child` selects redrawn from its parent's volume and transform,
/// and every other mesh left as it was.
pub open spec fn redrawn_debug_meshes<T: IsBoundingVolume<M, X>, M, X>(
    ents: Seq<EntityRecord<T, X>>,
    old_meshes: Seq<Option<M>>,
    meshes: Seq<Option<M>>,
    upto: int,
) -> bool {
    &&& meshes.len() == old_meshes.len()
    &&& forall|j: int|
        0 <= j < upto && #[trigger] refreshed_child(ents, j) ==> meshes[ents[j].mesh->0 as int]
            == Some(drawn_volume(ents[ents[j].parent->0 as int]))
    &&& forall|h: int|
        0 <= h < meshes.len() && (forall|j: int|
            0 <= j < upto && #[trigger] refreshed_child(ents, j) ==> ents[j].mesh != Some(
                h as usize,
            )) ==> #[trigger] meshes[h] == old_meshes[h]
}

/// Redraws, in place, the debug mesh of every child entity whose parent's
/// volume changed during this pass.
pub fn update_debug_mesh<T: IsBoundingVolume<M, X>, M, X: Copy>(world: &mut World<T, M, X>)
    requires
        old(world).wf(),
    ensures
        final(world).ents() == old(world).ents(),
        redrawn_debug_meshes(
            old(world).ents(),
            old(world).assets(),
            final(world).assets(),
            old(world).ents().len() as int,
        ),
        final(world).wf(),
{
    let n = world.entities.len();
    let mut j: usize = 0;
    while j < n
        invariant
            n == old(world).ents().len(),
            j <= n,
            world.ents() == old(world).ents(),
            old(world).wf(),
            redrawn_debug_meshes(old(world).ents(), old(world).assets(), world.assets(), j as int),
        decreases n - j,
    {
        let ghost before = world.assets();
        let c = &world.entities[j];
        if c.debug_mesh.is_some() && c.parent.is_some() {
            let p = c.parent.unwrap();
            let h = c.mesh.unwrap();
            if p < n {
                let e = &world.entities[p];
                if e.volume_changed && e.volume.is_some() && e.debug.is_some() && e.transform.is_some() {
                    let x = e.transform.unwrap();
                    let drawn = e.volume.as_ref().unwrap().new_debug_mesh(&x);
                    proof {
                        assert(old(world).ents()[j as int].debug_mesh is Some);
                    }
                    world.meshes.set(h, Some(drawn));
                    proof {
                        let ents = old(world).ents();
                        let a = world.assets();
                        assert(refreshed_child(ents, j as int));
                        assert forall|k: int|
                            0 <= k < j + 1 && #[trigger] refreshed_child(ents, k) implies a[ents[k].mesh->0 as int]
                                == Some(drawn_volume(ents[ents[k].parent->0 as int])) by {
                            if k < j {
                                assert(ents[k].debug_mesh is Some);
                                assert(ents[k].mesh != ents[j as int].mesh);
                            }
                        }
                        assert forall|hh: int|
                            0 <= hh < a.len() && (forall|k: int|
                                0 <= k < j + 1 && #[trigger] refreshed_child(ents, k) ==> ents[k].mesh != Some(
                                    hh as usize,
                                )) implies #[trigger] a[hh] == old(world).assets()[hh] by {
                            assert(ents[j as int].mesh != Some(hh as usize));
                            assert(before[hh] == old(world).assets()[hh]);
                        }
                    }
                }
            }
        }
        j = j + 1;
    }
    proof {
        let ents = world.ents();
        let a = world.assets();
        let o = old(world).assets();
        assert forall|k: int|
            0 <= k < ents.len() && (#[trigger] ents[k]).debug_mesh is Some implies {
                &&& ents[k].mesh is Some
                &&& resolve(a, ents[k].mesh->0) is Some
            } by {
            let h = ents[k].mesh->0 as int;
            assert(resolve(o, ents[k].mesh->0) is Some);
            if forall|k2: int|
                0 <= k2 < n && #[trigger] refreshed_child(ents, k2) ==> ents[k2].mesh != Some(h as usize) {
                assert(a[h] == o[h]);
            } else {
                let k2 = choose|k2: int|
                    0 <= k2 < n && #[trigger] refreshed_child(ents, k2) && ents[k2].mesh == Some(h as usize);
                assert(a[h] == Some(drawn_volume(ents[ents[k2].parent->0 as int])));
            }
        }
    }
}

} // verus!
