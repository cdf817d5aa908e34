//! The arena of entities and the store of mesh assets that the systems work on.
use crate::components::{
    BoundingVolume, BoundingVolumeDebug, BoundingVolumeDebugMesh, EntityRecord, MeshHandle,
};
use vstd::prelude::*;

verus! {

/// The mesh that `h` resolves to, if the asset is there.
pub open spec fn resolve<M>(meshes: Seq<Option<M>>, h: MeshHandle) -> Option<M> {
    if h < meshes.len() {
        meshes[h as int]
    } else {
        None
    }
}

/// The record of an entity that has just been created.
pub open spec fn fresh_record<T, X>(
    mesh: Option<MeshHandle>,
    transform: Option<X>,
    parent: Option<usize>,
    debug_mesh: Option<BoundingVolumeDebugMesh>,
) -> EntityRecord<T, X> {
    EntityRecord {
        mesh,
        transform,
        parent,
        intent: None,
        intent_added: false,
        loading: None,
        volume: None,
        volume_added: false,
        volume_changed: false,
        debug: None,
        debug_mesh,
    }
}

/// A record with the change flags of the pass cleared.
pub open spec fn cleared<T, X>(e: EntityRecord<T, X>) -> EntityRecord<T, X> {
    EntityRecord { intent_added: false, volume_added: false, volume_changed: false, ..e }
}

/// Entities with the components of one kind of bounding volume `T`, and the
/// mesh assets they refer to. A handle that was never filled stands for an
/// asset that is still loading.
pub struct World<T, M, X> {
    pub(crate) entities: Vec<EntityRecord<T, X>>,
    pub(crate) meshes: Vec<Option<M>>,
}

/// Every debug-mesh entity has a mesh of its own that resolves.
pub open spec fn debug_meshes_resolve<T, M, X>(
    ents: Seq<EntityRecord<T, X>>,
    meshes: Seq<Option<M>>,
) -> bool {
    &&& forall|j: int|
        0 <= j < ents.len() && (#[trigger] ents[j]).debug_mesh is Some ==> {
            &&& ents[j].mesh is Some
            &&& resolve(meshes, ents[j].mesh->0) is Some
        }
    &&& forall|i: int, j: int|
        0 <= i < ents.len() && 0 <= j < ents.len() && i != j && (#[trigger] ents[i]).debug_mesh is Some
            && (#[trigger] ents[j]).debug_mesh is Some ==> ents[i].mesh != ents[j].mesh
}

/// Two arenas that agree, entity by entity, on the debug-mesh marker and the
/// mesh handle are both well formed over `meshes` or both not.
proof fn lemma_same_debug_layout<T, M, X>(
    a: Seq<EntityRecord<T, X>>,
    b: Seq<EntityRecord<T, X>>,
    meshes: Seq<Option<M>>,
)
    requires
        a.len() == b.len(),
        forall|j: int|
            #![trigger a[j]]
            #![trigger b[j]]
            0 <= j < a.len() ==> b[j].debug_mesh == a[j].debug_mesh && b[j].mesh == a[j].mesh,
    ensures
        debug_meshes_resolve(a, meshes) == debug_meshes_resolve(b, meshes),
{
}

impl<T, M, X> World<T, M, X> {
    /// The entities, indexed by their id.
    pub open(crate) spec fn ents(&self) -> Seq<EntityRecord<T, X>> {
        self.entities@
    }

    /// The mesh assets, indexed by their handle.
    pub open(crate) spec fn assets(&self) -> Seq<Option<M>> {
        self.meshes@
    }

    /// The world is well formed: each debug-mesh entity owns a mesh that resolves.
    pub open spec fn wf(&self) -> bool {
        debug_meshes_resolve(self.ents(), self.assets())
    }

    /// An empty world.
    pub fn new() -> (r: Self)
        ensures
            r.ents().len() == 0,
            r.assets().len() == 0,
            r.wf(),
    {
        World { entities: Vec::new(), meshes: Vec::new() }
    }

    /// The number of entities.
    pub fn entity_count(&self) -> (r: usize)
        ensures
            r == self.ents().len(),
    {
        self.entities.len()
    }

    /// The number of mesh handles.
    pub fn mesh_count(&self) -> (r: usize)
        ensures
            r == self.assets().len(),
    {
        self.meshes.len()
    }

    /// The components of entity `e`.
    pub fn entity(&self, e: usize) -> (r: &EntityRecord<T, X>)
        requires
            e < self.ents().len(),
        ensures
            *r == self.ents()[e as int],
    {
        &self.entities[e]
    }

    /// The mesh behind handle `h`, if the asset is there.
    pub fn mesh(&self, h: MeshHandle) -> (r: Option<&M>)
        ensures
            r is Some == resolve(self.assets(), h) is Some,
            r is Some ==> *r->0 == resolve(self.assets(), h)->0,
    {
        if h < self.meshes.len() {
            match &self.meshes[h] {
                Some(m) => Some(m),
                None => None,
            }
        } else {
            None
        }
    }

    /// Adds a mesh handle; `None` stands for an asset that has not loaded yet.
    pub fn add_mesh(&mut self, m: Option<M>) -> (h: MeshHandle)
        ensures
            h == old(self).assets().len(),
            final(self).assets() == old(self).assets().push(m),
            final(self).ents() == old(self).ents(),
            old(self).wf() ==> final(self).wf(),
    {
        let h = self.meshes.len();
        self.meshes.push(m);
        proof {
            assert(forall|k: MeshHandle| #[trigger] resolve(old(self).assets(), k) is Some
                ==> resolve(self.meshes@, k) == resolve(old(self).assets(), k));
        }
        h
    }

    /// Fills the asset behind handle `h`, as a loader does once the mesh is read.
    pub fn load_mesh(&mut self, h: MeshHandle, m: M)
        requires
            h < old(self).assets().len(),
        ensures
            final(self).assets() == old(self).assets().update(h as int, Some(m)),
            final(self).ents() == old(self).ents(),
            old(self).wf() ==> final(self).wf(),
    {
        self.meshes.set(h, Some(m));
        proof {
            assert(forall|k: MeshHandle| #[trigger] resolve(old(self).assets(), k) is Some
                ==> resolve(self.meshes@, k) is Some);
        }
    }

    /// Creates an entity with a mesh and a transform, and no other component.
    pub fn spawn(&mut self, mesh: Option<MeshHandle>, transform: Option<X>) -> (e: usize)
        ensures
            e == old(self).ents().len(),
            final(self).ents() == old(self).ents().push(fresh_record(mesh, transform, None, None)),
            final(self).assets() == old(self).assets(),
            old(self).wf() ==> final(self).wf(),
    {
        let e = self.entities.len();
        let rec = EntityRecord {
            mesh,
            transform,
            parent: None,
            intent: None,
            intent_added: false,
            loading: None,
            volume: None,
            volume_added: false,
            volume_changed: false,
            debug: None,
            debug_mesh: None,
        };
        self.entities.push(rec);
        proof {
            assert(self.entities@[e as int].debug_mesh is None);
        }
        e
    }

    /// Adds the intent marker to entity `e`: a volume of kind `T` is wanted.
    pub fn insert_intent(&mut self, e: usize)
        requires
            e < old(self).ents().len(),
        ensures
            final(self).ents() == old(self).ents().update(
                e as int,
                EntityRecord {
                    intent: Some(BoundingVolume::new_spec()),
                    intent_added: true,
                    ..old(self).ents()[e as int]
                },
            ),
            final(self).assets() == old(self).assets(),
            old(self).wf() ==> final(self).wf(),
    {
        self.entities[e].intent = Some(BoundingVolume::default());
        self.entities[e].intent_added = true;
        proof {
            lemma_same_debug_layout(old(self).ents(), self.ents(), self.assets());
        }
    }

    /// Adds the debug flag to entity `e`: its volumes are to be drawn.
    pub fn insert_debug(&mut self, e: usize)
        requires
            e < old(self).ents().len(),
        ensures
            final(self).ents() == old(self).ents().update(
                e as int,
                EntityRecord { debug: Some(BoundingVolumeDebug), ..old(self).ents()[e as int] },
            ),
            final(self).assets() == old(self).assets(),
            old(self).wf() ==> final(self).wf(),
    {
        self.entities[e].debug = Some(BoundingVolumeDebug);
        proof {
            lemma_same_debug_layout(old(self).ents(), self.ents(), self.assets());
        }
    }

    /// Moves entity `e`. Its volume is left as it is.
    pub fn set_transform(&mut self, e: usize, transform: X)
        requires
            e < old(self).ents().len(),
        ensures
            final(self).ents() == old(self).ents().update(
                e as int,
                EntityRecord { transform: Some(transform), ..old(self).ents()[e as int] },
            ),
            final(self).assets() == old(self).assets(),
            old(self).wf() ==> final(self).wf(),
    {
        self.entities[e].transform = Some(transform);
        proof {
            lemma_same_debug_layout(old(self).ents(), self.ents(), self.assets());
        }
    }

    /// Gives entity `e` the volume `v`, as a system that moves or deforms it
    /// does. A volume put where there was none counts as added during this
    /// pass; one that replaces another counts as changed.
    pub fn set_volume(&mut self, e: usize, v: T)
        requires
            e < old(self).ents().len(),
        ensures
            final(self).ents() == old(self).ents().update(
                e as int,
                if old(self).ents()[e as int].volume is Some {
                    EntityRecord { volume: Some(v), volume_changed: true, ..old(self).ents()[e as int] }
                } else {
                    EntityRecord { volume: Some(v), volume_added: true, ..old(self).ents()[e as int] }
                },
            ),
            final(self).assets() == old(self).assets(),
            old(self).wf() ==> final(self).wf(),
    {
        if self.entities[e].volume.is_some() {
            self.entities[e].volume_changed = true;
        } else {
            self.entities[e].volume_added = true;
        }
        self.entities[e].volume = Some(v);
        proof {
            lemma_same_debug_layout(old(self).ents(), self.ents(), self.assets());
        }
    }

    /// Ends a pass: what was added or changed during it no longer counts as new.
    pub fn end_pass(&mut self)
        ensures
            final(self).ents().len() == old(self).ents().len(),
            forall|i: int|
                0 <= i < old(self).ents().len() ==> #[trigger] final(self).ents()[i] == cleared(
                    old(self).ents()[i],
                ),
            final(self).assets() == old(self).assets(),
            old(self).wf() ==> final(self).wf(),
    {
        let n = self.entities.len();
        let mut i: usize = 0;
        while i < n
            invariant
                n == old(self).ents().len(),
                self.ents().len() == n,
                self.assets() == old(self).assets(),
                forall|k: int| 0 <= k < i ==> #[trigger] self.ents()[k] == cleared(old(self).ents()[k]),
                forall|k: int| i <= k < n ==> #[trigger] self.ents()[k] == old(self).ents()[k],
            decreases n - i,
        {
            self.entities[i].intent_added = false;
            self.entities[i].volume_added = false;
            self.entities[i].volume_changed = false;
            i = i + 1;
        }
        proof {
            lemma_same_debug_layout(old(self).ents(), self.ents(), self.assets());
        }
    }
}

} // verus!
