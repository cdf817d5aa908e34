use bounding_volumes::{
    spawn_bounding_volumes, spawn_debug_meshes, update_debug_mesh, BoundingVolumeDebugPlugin,
    BoundingVolumeDebugMesh, BoundingVolumePlugin, IsBoundingVolume, LoadingMesh, World,
};

/// Vertex positions of a mesh.
#[derive(Clone, Debug, PartialEq)]
struct Points(Vec<[f64; 3]>);

/// A translation followed by a uniform scale.
#[derive(Clone, Copy, Debug, PartialEq)]
struct Place {
    translation: [f64; 3],
    scale: f64,
}

const IDENTITY: Place = Place { translation: [0.0, 0.0, 0.0], scale: 1.0 };

/// A sphere in the mesh's own space: centred on the mean of the vertices,
/// reaching the farthest one.
#[derive(Clone, Debug, PartialEq)]
struct Sphere {
    center: [f64; 3],
    radius: f64,
}

impl IsBoundingVolume<Points, Place> for Sphere {
    fn spec_new(mesh: Points, transform: Place) -> Self {
        Self::new(&mesh, &transform)
    }

    fn spec_debug_mesh(&self, transform: Place) -> Points {
        self.new_debug_mesh(&transform)
    }

    fn new(mesh: &Points, _transform: &Place) -> Self {
        let n = mesh.0.len() as f64;
        let mut c = [0.0; 3];
        for p in &mesh.0 {
            for k in 0..3 {
                c[k] += p[k] / n;
            }
        }
        let mut r: f64 = 0.0;
        for p in &mesh.0 {
            let d = ((p[0] - c[0]).powi(2) + (p[1] - c[1]).powi(2) + (p[2] - c[2]).powi(2)).sqrt();
            r = r.max(d);
        }
        Sphere { center: c, radius: r }
    }

    fn new_debug_mesh(&self, transform: &Place) -> Points {
        let mut out = Vec::new();
        for axis in 0..3 {
            for sign in [-1.0, 1.0] {
                let mut p = self.center;
                p[axis] += sign * self.radius;
                out.push([
                    p[0] * transform.scale + transform.translation[0],
                    p[1] * transform.scale + transform.translation[1],
                    p[2] * transform.scale + transform.translation[2],
                ]);
            }
        }
        Points(out)
    }
}

fn sphere_mesh(radius: f64) -> Points {
    Points(vec![
        [radius, 0.0, 0.0],
        [-radius, 0.0, 0.0],
        [0.0, radius, 0.0],
        [0.0, -radius, 0.0],
        [0.0, 0.0, radius],
        [0.0, 0.0, -radius],
    ])
}

fn run_pass(world: &mut World<Sphere, Points, Place>) {
    BoundingVolumePlugin.update(world);
    BoundingVolumeDebugPlugin.post_update(world);
    world.end_pass();
}

fn children_of(world: &World<Sphere, Points, Place>, parent: usize) -> Vec<usize> {
    (0..world.entity_count()).filter(|&j| world.entity(j).parent == Some(parent)).collect()
}

fn extent(mesh: &Points) -> f64 {
    mesh.0.iter().map(|p| p[0].abs().max(p[1].abs()).max(p[2].abs())).fold(0.0, f64::max)
}

#[test]
fn unresolved_mesh_stays_pending() {
    let mut w: World<Sphere, Points, Place> = World::new();
    let h = w.add_mesh(None);
    let e = w.spawn(Some(h), Some(IDENTITY));
    w.insert_intent(e);
    for _ in 0..5 {
        run_pass(&mut w);
        assert_eq!(w.entity(e).loading, Some(LoadingMesh));
        assert!(w.entity(e).volume.is_none());
        assert!(w.entity(e).intent.is_some());
    }
}

#[test]
fn mesh_resolving_later_attaches_volume() {
    let mut w: World<Sphere, Points, Place> = World::new();
    let h = w.add_mesh(None);
    let e = w.spawn(Some(h), Some(IDENTITY));
    w.insert_intent(e);
    run_pass(&mut w);
    run_pass(&mut w);
    assert!(w.entity(e).volume.is_none());
    w.load_mesh(h, sphere_mesh(1.0));
    run_pass(&mut w);
    let rec = w.entity(e);
    assert_eq!(rec.volume, Some(Sphere { center: [0.0, 0.0, 0.0], radius: 1.0 }));
    assert!(rec.loading.is_none());
    assert!(rec.intent.is_none());
}

#[test]
fn mesh_present_at_once_resolves_on_first_pass() {
    let mut w: World<Sphere, Points, Place> = World::new();
    let h = w.add_mesh(Some(sphere_mesh(3.0)));
    let e = w.spawn(Some(h), Some(IDENTITY));
    w.insert_intent(e);
    spawn_bounding_volumes(&mut w);
    assert_eq!(w.entity(e).volume.as_ref().map(|s| s.radius), Some(3.0));
    assert!(w.entity(e).volume_added);
    assert!(w.entity(e).loading.is_none());
}

#[test]
fn handle_out_of_range_counts_as_missing() {
    let mut w: World<Sphere, Points, Place> = World::new();
    let e = w.spawn(Some(7), Some(IDENTITY));
    w.insert_intent(e);
    spawn_bounding_volumes(&mut w);
    assert_eq!(w.entity(e).loading, Some(LoadingMesh));
    assert!(w.entity(e).volume.is_none());
}

#[test]
fn entities_without_intent_or_place_are_left_alone() {
    let mut w: World<Sphere, Points, Place> = World::new();
    let h = w.add_mesh(Some(sphere_mesh(1.0)));
    let plain = w.spawn(Some(h), Some(IDENTITY));
    let no_transform = w.spawn(Some(h), None);
    w.insert_intent(no_transform);
    let no_mesh = w.spawn(None, Some(IDENTITY));
    w.insert_intent(no_mesh);
    spawn_bounding_volumes(&mut w);
    for e in [plain, no_transform, no_mesh] {
        assert!(w.entity(e).volume.is_none());
        assert!(w.entity(e).loading.is_none());
    }
}

#[test]
fn spawn_is_idempotent_on_resolved_entity() {
    let mut w: World<Sphere, Points, Place> = World::new();
    let h = w.add_mesh(Some(sphere_mesh(1.0)));
    let e = w.spawn(Some(h), Some(IDENTITY));
    w.insert_intent(e);
    run_pass(&mut w);
    let before = w.entity(e).volume.clone();
    w.load_mesh(h, sphere_mesh(5.0));
    spawn_bounding_volumes(&mut w);
    spawn_bounding_volumes(&mut w);
    let rec = w.entity(e);
    assert_eq!(rec.volume, before);
    assert!(rec.intent.is_none());
    assert!(rec.loading.is_none());
    assert!(!rec.volume_added);
}

#[test]
fn debug_child_spawned_exactly_once() {
    let mut w: World<Sphere, Points, Place> = World::new();
    let h = w.add_mesh(Some(sphere_mesh(1.0)));
    let e = w.spawn(Some(h), Some(IDENTITY));
    w.insert_intent(e);
    w.insert_debug(e);
    for _ in 0..4 {
        run_pass(&mut w);
    }
    let kids = children_of(&w, e);
    assert_eq!(kids.len(), 1);
    let child = w.entity(kids[0]);
    assert_eq!(child.debug_mesh, Some(BoundingVolumeDebugMesh));
    let mesh = w.mesh(child.mesh.unwrap()).unwrap();
    assert_eq!(extent(mesh), 1.0);
}

#[test]
fn no_debug_flag_no_child() {
    let mut w: World<Sphere, Points, Place> = World::new();
    let h = w.add_mesh(Some(sphere_mesh(1.0)));
    let e = w.spawn(Some(h), Some(IDENTITY));
    w.insert_intent(e);
    run_pass(&mut w);
    run_pass(&mut w);
    assert!(w.entity(e).volume.is_some());
    assert_eq!(w.entity_count(), 1);
    assert_eq!(w.mesh_count(), 1);
}

#[test]
fn changed_volume_redraws_debug_mesh_without_new_child() {
    let mut w: World<Sphere, Points, Place> = World::new();
    let h = w.add_mesh(Some(sphere_mesh(1.0)));
    let e = w.spawn(Some(h), Some(IDENTITY));
    w.insert_intent(e);
    w.insert_debug(e);
    run_pass(&mut w);
    let count = w.entity_count();
    let meshes = w.mesh_count();
    let child = children_of(&w, e)[0];
    let handle = w.entity(child).mesh.unwrap();
    let moved = Place { translation: [1.0, 0.0, 0.0], scale: 1.0 };
    w.set_transform(e, moved);
    let grown = Sphere { center: [0.0, 0.0, 0.0], radius: 3.0 };
    w.set_volume(e, grown.clone());
    assert!(w.entity(e).volume_changed);
    run_pass(&mut w);
    assert_eq!(w.entity_count(), count);
    assert_eq!(w.mesh_count(), meshes);
    assert_eq!(children_of(&w, e), vec![child]);
    assert_eq!(w.mesh(handle), Some(&grown.new_debug_mesh(&moved)));
}

#[test]
fn update_system_alone_redraws_in_place() {
    let mut w: World<Sphere, Points, Place> = World::new();
    let h = w.add_mesh(Some(sphere_mesh(1.0)));
    let e = w.spawn(Some(h), Some(IDENTITY));
    w.insert_intent(e);
    w.insert_debug(e);
    spawn_bounding_volumes(&mut w);
    spawn_debug_meshes(&mut w);
    w.end_pass();
    let child = children_of(&w, e)[0];
    let handle = w.entity(child).mesh.unwrap();
    w.set_volume(e, Sphere { center: [0.0, 0.0, 0.0], radius: 2.0 });
    update_debug_mesh(&mut w);
    assert_eq!(extent(w.mesh(handle).unwrap()), 2.0);
    assert_eq!(w.mesh(h), Some(&sphere_mesh(1.0)));
}

#[test]
fn construct_is_deterministic() {
    let mesh = sphere_mesh(2.5);
    let place = Place { translation: [1.0, 2.0, 3.0], scale: 0.5 };
    assert_eq!(Sphere::new(&mesh, &place), Sphere::new(&mesh, &place));
}

#[test]
fn sphere_of_radius_two_scenario() {
    let mut w: World<Sphere, Points, Place> = World::new();
    let h = w.add_mesh(Some(sphere_mesh(2.0)));
    let e = w.spawn(Some(h), Some(IDENTITY));
    w.insert_intent(e);
    w.insert_debug(e);
    run_pass(&mut w);
    let v = w.entity(e).volume.clone().unwrap();
    for k in 0..3 {
        assert!(v.center[k].abs() < 1e-9);
    }
    assert!((v.radius - 2.0).abs() < 1e-9);
    let kids = children_of(&w, e);
    assert_eq!(kids.len(), 1);
    let mesh = w.mesh(w.entity(kids[0]).mesh.unwrap()).unwrap();
    assert!((extent(mesh) - 2.0).abs() < 1e-9);
}

#[test]
fn transform_change_alone_keeps_debug_mesh() {
    let mut w: World<Sphere, Points, Place> = World::new();
    let h = w.add_mesh(Some(sphere_mesh(2.0)));
    let e = w.spawn(Some(h), Some(IDENTITY));
    w.insert_intent(e);
    w.insert_debug(e);
    run_pass(&mut w);
    let child = children_of(&w, e)[0];
    let handle = w.entity(child).mesh.unwrap();
    let doubled = Place { translation: [0.0, 0.0, 0.0], scale: 2.0 };
    w.set_transform(e, doubled);
    run_pass(&mut w);
    assert!((extent(w.mesh(handle).unwrap()) - 2.0).abs() < 1e-9);
    let same = w.entity(e).volume.clone().unwrap();
    w.set_volume(e, same);
    run_pass(&mut w);
    assert!((extent(w.mesh(handle).unwrap()) - 4.0).abs() < 1e-9);
    assert_eq!(children_of(&w, e), vec![child]);
}

#[test]
fn end_pass_clears_change_flags() {
    let mut w: World<Sphere, Points, Place> = World::new();
    let h = w.add_mesh(Some(sphere_mesh(1.0)));
    let e = w.spawn(Some(h), Some(IDENTITY));
    w.insert_intent(e);
    assert!(w.entity(e).intent_added);
    spawn_bounding_volumes(&mut w);
    assert!(w.entity(e).volume_added);
    w.end_pass();
    assert!(!w.entity(e).intent_added);
    assert!(!w.entity(e).volume_added);
    assert!(!w.entity(e).volume_changed);
}

#[test]
fn volume_set_where_none_was_counts_as_added() {
    let mut w: World<Sphere, Points, Place> = World::new();
    let h = w.add_mesh(None);
    let e = w.spawn(Some(h), Some(IDENTITY));
    w.insert_debug(e);
    w.set_volume(e, Sphere { center: [0.0, 0.0, 0.0], radius: 1.5 });
    assert!(w.entity(e).volume_added);
    assert!(!w.entity(e).volume_changed);
    spawn_debug_meshes(&mut w);
    assert_eq!(children_of(&w, e).len(), 1);
    assert_eq!(w.mesh_count(), 2);
    assert_eq!(extent(w.mesh(1).unwrap()), 1.5);
}
