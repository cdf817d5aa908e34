//! Components that entities carry, and the contract of a bounding-volume kind.
use std::marker::PhantomData;
use vstd::prelude::*;

verus! {

/// Index of a mesh in the world's asset store.
pub type MeshHandle = usize;

/// What a kind of bounding volume offers: it can be built from a mesh and a
/// world transform, and it can draw itself as a mesh.
///
/// `M` is the mesh data and `X` the world transform. Both operations are
/// functions of their arguments alone, which `spec_new` and `spec_debug_mesh`
/// name.
pub trait IsBoundingVolume<M, X>: Sized {
    /// The volume that `new` builds from a mesh and a transform. Each kind
    /// defines it.
    spec fn spec_new(mesh: M, transform: X) -> Self;

    /// The mesh that `new_debug_mesh` draws for this volume under a
    /// transform. Each kind defines it.
    spec fn spec_debug_mesh(&self, transform: X) -> M;

    /// Builds a volume that encloses `mesh` placed by `transform`.
    fn new(mesh: &M, transform: &X) -> (r: Self)
        ensures
            r == Self::spec_new(*mesh, *transform),
    ;

    /// Draws this volume as a mesh, placed by `transform`.
    fn new_debug_mesh(&self, transform: &X) -> (r: M)
        ensures
            r == self.spec_debug_mesh(*transform),
    ;
}

/// Marks an entity that wants a bounding volume of kind `T`.
pub struct BoundingVolume<T> {
    pub kind: PhantomData<T>,
}

impl<T> BoundingVolume<T> {
    /// The marker value; it holds nothing but its kind.
    pub open spec fn new_spec() -> Self {
        BoundingVolume { kind: PhantomData }
    }

}

impl<T> Default for BoundingVolume<T> {
    fn default() -> (r: Self)
        ensures
            r == Self::new_spec(),
    {
        BoundingVolume { kind: PhantomData }
    }
}

/// Asks for the bounding volumes of an entity to be drawn.
#[derive(Clone, Copy, Debug, PartialEq, Eq)]
pub struct BoundingVolumeDebug;

/// Marks an entity whose mesh was not yet available when a volume was asked for.
#[derive(Clone, Copy, Debug, PartialEq, Eq)]
pub struct LoadingMesh;

/// Marks a child entity whose mesh draws its parent's bounding volume.
#[derive(Clone, Copy, Debug, PartialEq, Eq)]
pub struct BoundingVolumeDebugMesh;

/// The components of one entity that concern bounding volumes of kind `T`,
/// with the change flags of the current pass.
pub struct EntityRecord<T, X> {
    /// The mesh the entity shows.
    pub mesh: Option<MeshHandle>,
    /// Where the entity stands in the world.
    pub transform: Option<X>,
    /// The entity this one is a child of.
    pub parent: Option<usize>,
    /// A volume of kind `T` is wanted.
    pub intent: Option<BoundingVolume<T>>,
    /// `intent` was added during the current pass.
    pub intent_added: bool,
    /// The mesh was not available on an earlier attempt.
    pub loading: Option<LoadingMesh>,
    /// The computed bounding volume.
    pub volume: Option<T>,
    /// `volume` was added during the current pass.
    pub volume_added: bool,
    /// `volume` was changed in place during the current pass.
    pub volume_changed: bool,
    /// The volume is to be drawn.
    pub debug: Option<BoundingVolumeDebug>,
    /// This entity draws its parent's volume.
    pub debug_mesh: Option<BoundingVolumeDebugMesh>,
}

} // verus!
