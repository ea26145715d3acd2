use kestrel_engine::anim_stats::AnimationRecorder;
use kestrel_engine::animation_time::{AnimationDelta, AnimationTime};
use kestrel_engine::collisions::{
    drain_collision_events, publish_collisions, ColliderEntities, CollisionEventKind,
    ForceReport, TouchReport,
};
use kestrel_engine::components::{
    EmitterSnapshot, MeshLighting, OrbitController, Particle, ParticleVisual, Transform,
    Transform3D,
};
use kestrel_engine::contacts::{collide_spatial, ColliderRow, ParticleContacts};
use kestrel_engine::entity::Entity;
use kestrel_engine::events::{EventBus, GameEvent};
use kestrel_engine::hierarchy::{
    attach_child_to_parent, collect_scene_entity, despawn_entity, find_scene_roots, Member,
};
use kestrel_engine::info::entity_info;
use kestrel_engine::mesh::MeshBounds;
use kestrel_engine::motion::{
    apply_spin, bounce, orbit_velocity, rescale, solve_forces, PhysicsParams, WorldBounds,
};
use kestrel_engine::particles::{
    particle_budget_metrics, spawn_particle, update_emitters, update_particles, ParticleCaps,
    ParticleRow, ParticleState,
};
use kestrel_engine::paths::{extension, file_name, stem};
use kestrel_engine::picking::{
    pick_entity, pick_entity_3d, ray_aabb_intersection, ray_hit_obb, ray_sphere_intersection,
    PickBox, PickCandidate,
};
use kestrel_engine::scalar::{Fixed, Scalar};
use kestrel_engine::scene::{
    announce, describe_entity, make_emitter, resolve_parents, spawn_scene_entity, AtlasRegion,
    EmitterLook, MeshData, SceneEntity, SceneError, SpriteData,
};
use kestrel_engine::scene_deps::{check_atlases, check_meshes, MissingMesh};
use kestrel_engine::spatial::{
    build_spatial_index, spatial_hash_rects, QuadtreeEntry, SpatialHash, SpatialIndexConfig,
    SpatialMode, SpatialQuadtree,
};
use kestrel_engine::text::{to_ascii_lower, to_decimal};
use kestrel_engine::text_map::TextMap;
use kestrel_engine::transform::{
    propagate_scene_transforms, SceneNode, TransformPropagationMode, TransformPropagationScratch,
};
use kestrel_engine::vectors::{Vec2, Vec3, Vec4};
use kestrel_engine::world_edit::{
    find_entity_by_scene_id, spawn_burst_sprite, spawn_demo_scene, spawn_mesh_entity,
    spawn_scripted_sprite, sprite_uv, DemoName, ScriptError, SpriteInstanceTransform,
};
use std::sync::Arc;

/// A number as the engine computes with it.
#[derive(Clone, Copy, Debug, PartialEq)]
struct Num(f32);

impl Scalar for Num {
    fn zero() -> Self {
        Num(0.0)
    }
    fn one() -> Self {
        Num(1.0)
    }
    fn clip_epsilon() -> Self {
        Num(1e-5)
    }
    fn machine_epsilon() -> Self {
        Num(f32::EPSILON)
    }
    fn from_count(count: usize) -> Self {
        Num(count as f32)
    }
    fn plus(self, rhs: Self) -> Self {
        Num(self.0 + rhs.0)
    }
    fn minus(self, rhs: Self) -> Self {
        Num(self.0 - rhs.0)
    }
    fn times(self, rhs: Self) -> Self {
        Num(self.0 * rhs.0)
    }
    fn over(self, rhs: Self) -> Self {
        Num(self.0 / rhs.0)
    }
    fn negated(self) -> Self {
        Num(-self.0)
    }
    fn rem_euclid_by(self, rhs: Self) -> Self {
        Num(self.0.rem_euclid(rhs.0))
    }
    fn floored(self) -> Self {
        Num(self.0.floor())
    }
    fn floor_count(self) -> u64 {
        self.0.floor() as u64
    }
    fn floor_steps(self) -> i32 {
        self.0.floor() as i32
    }
    fn ceil_steps(self) -> i32 {
        self.0.ceil() as i32
    }
    fn from_steps(steps: i32) -> Self {
        Num(steps as f32)
    }
    fn to_fixed(self) -> u32 {
        (self.0 * 65536.0).round() as u32
    }
    fn from_fixed(value: u32) -> Self {
        Num(value as f32 / 65536.0)
    }
    fn lt(self, rhs: Self) -> bool {
        self.0 < rhs.0
    }
    fn le(self, rhs: Self) -> bool {
        self.0 <= rhs.0
    }
    fn same(self, rhs: Self) -> bool {
        self.0 == rhs.0
    }
    fn finite(self) -> bool {
        self.0.is_finite()
    }
    fn nan(self) -> bool {
        self.0.is_nan()
    }
    fn larger(self, rhs: Self) -> Self {
        Num(self.0.max(rhs.0))
    }
    fn smaller(self, rhs: Self) -> Self {
        Num(self.0.min(rhs.0))
    }
    fn magnitude(self) -> Self {
        Num(self.0.abs())
    }
    fn rounded(self) -> Self {
        Num(self.0.round())
    }
    fn sign(self) -> Self {
        Num(self.0.signum())
    }
    fn root(self) -> Self {
        Num(self.0.sqrt())
    }
    fn topmost() -> Self {
        Num(f32::INFINITY)
    }
    fn zero_spec() -> Self {
        Self::zero()
    }
    fn one_spec() -> Self {
        Self::one()
    }
    fn clip_epsilon_spec() -> Self {
        Self::clip_epsilon()
    }
    fn machine_epsilon_spec() -> Self {
        Self::machine_epsilon()
    }
    fn from_count_spec(count: usize) -> Self {
        Self::from_count(count)
    }
    fn plus_spec(self, rhs: Self) -> Self {
        self.plus(rhs)
    }
    fn minus_spec(self, rhs: Self) -> Self {
        self.minus(rhs)
    }
    fn times_spec(self, rhs: Self) -> Self {
        self.times(rhs)
    }
    fn over_spec(self, rhs: Self) -> Self {
        self.over(rhs)
    }
    fn negated_spec(self) -> Self {
        self.negated()
    }
    fn rem_euclid_by_spec(self, rhs: Self) -> Self {
        self.rem_euclid_by(rhs)
    }
    fn floored_spec(self) -> Self {
        self.floored()
    }
    fn floor_count_spec(self) -> u64 {
        self.floor_count()
    }
    fn floor_steps_spec(self) -> i32 {
        self.floor_steps()
    }
    fn ceil_steps_spec(self) -> i32 {
        self.ceil_steps()
    }
    fn from_steps_spec(steps: i32) -> Self {
        Self::from_steps(steps)
    }
    fn to_fixed_spec(self) -> u32 {
        self.to_fixed()
    }
    fn from_fixed_spec(value: u32) -> Self {
        Self::from_fixed(value)
    }
    fn lt_spec(self, rhs: Self) -> bool {
        self.lt(rhs)
    }
    fn le_spec(self, rhs: Self) -> bool {
        self.le(rhs)
    }
    fn same_spec(self, rhs: Self) -> bool {
        self.same(rhs)
    }
    fn finite_spec(self) -> bool {
        self.finite()
    }
    fn nan_spec(self) -> bool {
        self.nan()
    }
    fn larger_spec(self, rhs: Self) -> Self {
        self.larger(rhs)
    }
    fn smaller_spec(self, rhs: Self) -> Self {
        self.smaller(rhs)
    }
    fn magnitude_spec(self) -> Self {
        self.magnitude()
    }
    fn rounded_spec(self) -> Self {
        self.rounded()
    }
    fn sign_spec(self) -> Self {
        self.sign()
    }
    fn root_spec(self) -> Self {
        self.root()
    }
    fn topmost_spec() -> Self {
        Self::topmost()
    }
}

fn v2(x: f32, y: f32) -> Vec2<Num> {
    Vec2 { x: Num(x), y: Num(y) }
}

fn v3(x: f32, y: f32, z: f32) -> Vec3<Num> {
    Vec3 { x: Num(x), y: Num(y), z: Num(z) }
}

fn v4(x: f32, y: f32, z: f32, w: f32) -> Vec4<Num> {
    Vec4 { x: Num(x), y: Num(y), z: Num(z), w: Num(w) }
}

fn pair(v: Vec2<Num>) -> (f32, f32) {
    (v.x.0, v.y.0)
}

fn row(index: u64) -> Entity {
    Entity::from_bits(index)
}

fn text(value: &str) -> Arc<String> {
    Arc::new(value.to_string())
}

fn bounds() -> WorldBounds<Num> {
    WorldBounds { min: v2(-1.0, -1.0), max: v2(1.0, 1.0), thickness: Num(0.1) }
}

fn placed(x: f32, y: f32) -> Transform<Num> {
    Transform { translation: v2(x, y), rotation: Num(0.0), scale: v2(1.0, 1.0) }
}

#[test]
fn things_bounce_off_the_walls() {
    let mut at = v2(0.95, 0.0);
    let mut velocity = v2(2.0, 1.0);
    bounce(&mut at, &mut velocity, Some(v2(0.1, 0.1)), &bounds());
    assert_eq!(pair(at), (1.0 - 0.1, 0.0));
    assert_eq!(pair(velocity), (-2.0, 1.0));
    let walls = bounds().walls();
    assert_eq!(walls.len(), 4);
    assert_eq!(pair(walls[0].center), (0.0, -1.0 - 0.1));
    assert_eq!(pair(walls[2].half), (0.1, 1.0 + 0.1));
}

#[test]
fn forces_give_velocity_and_are_spent() {
    let params = PhysicsParams { gravity: v2(0.0, -10.0), linear_damping: Num(0.0) };
    let mut velocity = v2(1.0, 0.0);
    let mut force = v2(2.0, 0.0);
    solve_forces(&mut velocity, &mut force, Num(2.0), &params, Num(0.5));
    assert_eq!(pair(velocity), (1.5, -5.0));
    assert_eq!(pair(force), (0.0, 0.0));
    let mut transform = placed(0.0, 0.0);
    apply_spin(&mut transform, Num(2.0), Num(0.5));
    assert_eq!(transform.rotation, Num(1.0));
    let orbit = OrbitController { center: v2(0.0, 0.0), angular_speed: Num(2.0) };
    assert_eq!(pair(orbit_velocity(v2(1.0, 0.0), &orbit).unwrap()), (-0.0, 2.0));
    assert!(orbit_velocity(v2(0.0, 0.0), &orbit).is_none());
}

#[test]
fn a_new_scale_changes_the_mass() {
    let made = rescale(v2(2.0, -2.0), Some(v2(0.5, 0.5)), Some(Num(3.0))).unwrap();
    assert_eq!(pair(made.half), (1.0, 1.0));
    assert_eq!(made.mass, Some(Num(12.0)));
    assert!(rescale(v2(0.0, 1.0), None, Some(Num(1.0))).is_none());
}

#[test]
fn rays_meet_balls_and_boxes() {
    let origin = v3(0.0, 0.0, -5.0);
    let dir = v3(0.0, 0.0, 1.0);
    assert_eq!(ray_sphere_intersection(origin, dir, v3(0.0, 0.0, 0.0), Num(1.0)), Some(Num(4.0)));
    assert_eq!(ray_sphere_intersection(origin, dir, v3(3.0, 0.0, 0.0), Num(1.0)), None);
    let (t, _) =
        ray_aabb_intersection(origin, dir, v3(-1.0, -1.0, -1.0), v3(1.0, 1.0, 1.0)).unwrap();
    assert_eq!(t, Num(4.0));
    assert!(
        ray_aabb_intersection(origin, v3(0.0, 0.0, -1.0), v3(-1.0, -1.0, -1.0), v3(1.0, 1.0, 1.0))
            .is_none()
    );
    let ball = MeshBounds {
        min: v3(-1.0, -1.0, -1.0),
        max: v3(1.0, 1.0, 1.0),
        center: v3(0.0, 0.0, 0.0),
        radius: Num(1.0),
    };
    let same = |v: Vec3<Num>| v;
    assert_eq!(ray_hit_obb(origin, origin, dir, &ball, &same), Some(Num(4.0)));
}

#[test]
fn the_nearest_entity_is_picked() {
    let near = PickCandidate {
        entity: row(1),
        box_distance: Some(Num(3.0)),
        center: v3(0.0, 0.0, 0.0),
        radius: Num(1.0),
    };
    let far = PickCandidate {
        entity: row(2),
        box_distance: Some(Num(7.0)),
        center: v3(0.0, 0.0, 0.0),
        radius: Num(1.0),
    };
    let picked = pick_entity_3d(&vec![far, near], v3(0.0, 0.0, -5.0), v3(0.0, 0.0, 1.0));
    assert_eq!(picked, Some(row(1)));
    let boxes = vec![
        PickBox { entity: row(3), center: v2(0.0, 0.0), half: Some(v2(1.0, 1.0)) },
        PickBox { entity: row(4), center: v2(5.0, 0.0), half: None },
    ];
    assert_eq!(pick_entity(&boxes, v2(0.5, 0.5)), Some(row(3)));
    assert_eq!(pick_entity(&boxes, v2(5.2, 0.0)), Some(row(4)));
    assert_eq!(pick_entity(&boxes, v2(3.0, 0.0)), None);
}

fn emitter() -> EmitterSnapshot<Num> {
    EmitterSnapshot {
        rate: Num(10.0),
        spread: Num(0.5),
        speed: Num(2.0),
        lifetime: Num(1.0),
        start_color: v4(1.0, 0.0, 0.0, 1.0),
        end_color: v4(0.0, 0.0, 1.0, 0.0),
        start_size: Num(0.2),
        end_size: Num(0.4),
    }
}

fn look() -> EmitterLook {
    EmitterLook { atlas: text("main"), region: text("green") }
}

#[test]
fn emitters_keep_within_their_caps() {
    let caps = ParticleCaps::new(3, 4, Num(8.0));
    let mut emitters = vec![make_emitter(&emitter(), &look())];
    let mut state = ParticleState { active_particles: 0 };
    let first = update_emitters(&mut emitters, &caps, &mut state, Num(1.0));
    assert_eq!(first, vec![3]);
    state.active_particles = 3;
    let second = update_emitters(&mut emitters, &caps, &mut state, Num(1.0));
    assert_eq!(second, vec![1]);
    let metrics = particle_budget_metrics(&caps, 4, &emitters);
    assert_eq!(metrics.available_spawn_this_frame, 0);
    assert_eq!(metrics.cap_utilization(), Num(1.0));
    assert_eq!(metrics.total_emitters, 1);
}

#[test]
fn particles_fade_and_end() {
    let born = spawn_particle(&make_emitter(&emitter(), &look()), v2(1.0, 1.0), v2(0.0, 1.0));
    assert_eq!(pair(born.velocity), (0.0, 2.0));
    assert_eq!(born.particle.lifetime, Num(1.0));
    let mut rows = vec![ParticleRow {
        entity: row(9),
        particle: Particle { lifetime: Num(1.0), max_lifetime: Num(1.0) },
        transform: placed(0.0, 0.0),
        velocity: Some(v2(1.0, 0.0)),
        visual: ParticleVisual {
            start_color: v4(1.0, 1.0, 1.0, 1.0),
            end_color: v4(0.0, 0.0, 0.0, 0.0),
            start_size: Num(1.0),
            end_size: Num(3.0),
        },
        tint: v4(1.0, 1.0, 1.0, 1.0),
        half: None,
        force: None,
        mass: None,
        trail: None,
    }];
    let mut state = ParticleState { active_particles: 1 };
    let heading = |v: Vec2<Num>| Num(v.y.0.atan2(v.x.0));
    let ended =
        update_particles(&mut rows, &vec![], &vec![], Num(0.5), &mut state, &heading);
    assert!(ended.is_empty());
    assert_eq!(rows[0].tint.w, Num(0.5));
    assert_eq!(rows[0].transform.scale.x, Num(2.0));
    let ended =
        update_particles(&mut rows, &vec![], &vec![], Num(1.0), &mut state, &heading);
    assert_eq!(ended, vec![row(9)]);
}

#[test]
fn cells_hold_what_reaches_into_them() {
    let mut grid = SpatialHash::new(Num(1.0));
    assert_eq!(grid.key(v2(-0.5, 1.5)), (-1, 1));
    grid.insert(row(1), v2(0.5, 0.5), v2(0.1, 0.1));
    grid.insert(row(2), v2(1.0, 0.5), v2(0.2, 0.2));
    assert_eq!(grid.cell_entities(0, 0).map(|c| c.len()), Some(2));
    assert_eq!(grid.cell_entities(1, 0).map(|c| c.len()), Some(1));
    assert_eq!(grid.occupied_cells(), 2);
    assert_eq!(spatial_hash_rects(&grid).len(), 2);
    grid.begin_frame();
    assert_eq!(grid.occupied_cells(), 0);
}

fn colliders(n: u64) -> Vec<QuadtreeEntry<Num>> {
    (0..n)
        .map(|i| QuadtreeEntry {
            entity: row(i),
            center: v2(0.01 * i as f32, 0.0),
            half: v2(0.05, 0.05),
        })
        .collect()
}

#[test]
fn crowded_cells_ask_for_a_tree() {
    let mut grid = SpatialHash::new(Num(1.0));
    let mut tree = SpatialQuadtree::new(4, 2);
    let mut config = SpatialIndexConfig::<Num>::default();
    config.fallback_enabled = true;
    config.set_spatial_density_threshold(Num(3.0));
    let few =
        build_spatial_index(&mut grid, &mut tree, &bounds(), &config, &colliders(2));
    assert!(matches!(few.mode, SpatialMode::Grid));
    let many =
        build_spatial_index(&mut grid, &mut tree, &bounds(), &config, &colliders(30));
    assert!(matches!(many.mode, SpatialMode::Quadtree));
    assert!(many.quadtree_nodes > 1);
    assert_eq!(many.entity_count, 30);
}

fn touch(mode: SpatialMode) -> (Vec<ColliderRow<Num>>, Vec<GameEvent<Num>>, usize) {
    let entries = colliders(2);
    let mut grid = SpatialHash::new(Num(1.0));
    let mut tree = SpatialQuadtree::new(4, 1);
    let config = SpatialIndexConfig::<Num>::default();
    build_spatial_index(&mut grid, &mut tree, &bounds(), &config, &entries);
    tree.rebuild(&bounds(), &entries);
    let mut rows: Vec<ColliderRow<Num>> = entries
        .iter()
        .map(|e| ColliderRow {
            entity: e.entity,
            translation: e.center,
            half: e.half,
            velocity: Some(v2(0.0, 0.0)),
        })
        .collect();
    let mut contacts = ParticleContacts::new();
    let mut bus = EventBus::new();
    collide_spatial(&grid, &tree, mode, &mut rows, &mut contacts, &mut bus);
    collide_spatial(&grid, &tree, mode, &mut rows, &mut contacts, &mut bus);
    let pairs = contacts.pairs.len();
    (rows, bus.drain(), pairs)
}

#[test]
fn contacts_start_once() {
    for mode in [SpatialMode::Grid, SpatialMode::Quadtree] {
        let (rows, events, pairs) = touch(mode);
        assert_eq!(pairs, 1);
        assert_eq!(events.len(), 1);
        assert_eq!(events[0].describe(""), "CollisionStarted a=0 b=1");
        assert!(rows[0].velocity.unwrap().x.0 < 0.0);
    }
}

fn node(entity: u64, has_parent: bool, children: Vec<u64>, plane: i64) -> SceneNode<Fixed, Fixed, Fixed> {
    SceneNode {
        entity: row(entity),
        has_parent,
        children: children.into_iter().map(row).collect(),
        plane: Some(Fixed(plane)),
        space: None,
        world: Fixed(0),
    }
}

#[test]
fn children_lie_within_their_parents() {
    let mut rows = vec![
        node(1, false, vec![2, 3], 10),
        node(2, true, vec![4], 5),
        node(3, true, vec![], 7),
        node(4, true, vec![], 1),
        node(5, false, vec![], 100),
    ];
    let mut scratch = TransformPropagationScratch::new();
    let stats = propagate_scene_transforms(&mut rows, true, &mut scratch);
    let worlds: Vec<i64> = rows.iter().map(|r| r.world.0).collect();
    assert_eq!(worlds, vec![10, 15, 17, 16, 100]);
    assert!(matches!(stats.mode, TransformPropagationMode::Hierarchy));
    assert_eq!(stats.processed_entities, 5);
    assert_eq!(stats.root_entities, 2);

    let mut flat = vec![node(1, false, vec![], 10), node(2, false, vec![], 5)];
    let stats = propagate_scene_transforms(&mut flat, false, &mut scratch);
    assert!(matches!(stats.mode, TransformPropagationMode::Flat));
    assert_eq!(flat[1].world, Fixed(5));
}

#[test]
fn deep_scenes_reach_past_the_inline_room() {
    let mut rows: Vec<SceneNode<Fixed, Fixed, Fixed>> = Vec::new();
    rows.push(node(0, false, (1..40).collect(), 1));
    for i in 1..40 {
        rows.push(node(i, true, vec![], i as i64));
    }
    let mut scratch = TransformPropagationScratch::new();
    let stats = propagate_scene_transforms(&mut rows, true, &mut scratch);
    assert_eq!(stats.processed_entities, 40);
    assert!((1..40).all(|i| rows[i].world == Fixed(1 + i as i64)));
}

fn member(entity: u64) -> Member {
    Member { entity: row(entity), parent: None, children: None, placed: true, is_particle: false }
}

#[test]
fn families_are_kept_and_removed_together() {
    let mut members = vec![member(1), member(2), member(3), member(4)];
    attach_child_to_parent(&mut members, row(2), row(1));
    attach_child_to_parent(&mut members, row(3), row(2));
    assert_eq!(find_scene_roots(&members), vec![row(1), row(4)]);
    let mut listed = Vec::new();
    collect_scene_entity(&members, row(1), &mut listed);
    let shown: Vec<(u64, Option<usize>)> =
        listed.iter().map(|l| (l.entity.to_bits(), l.parent)).collect();
    assert_eq!(shown, vec![(1, None), (2, Some(0)), (3, Some(1))]);
    let removed = despawn_entity(&mut members, row(2));
    assert_eq!(removed.len(), 2);
    assert_eq!(members.len(), 2);
    assert!(members[0].children.as_ref().map_or(true, |c| c.is_empty()));
}

fn scene_entity(id: &str) -> SceneEntity<Num> {
    SceneEntity {
        id: id.to_string(),
        name: None,
        transform: placed(1.0, 2.0),
        sprite: None,
        transform3d: None,
        mesh: None,
        tint: Some(v4(0.1, 0.2, 0.3, 0.4)),
        velocity: Some(v2(1.0, 0.0)),
        mass: Some(Num(2.0)),
        collider: Some(v2(0.5, 0.5)),
        particle_emitter: None,
        orbit: None,
        spin: Some(Num(0.5)),
        parent_id: None,
        parent: None,
    }
}

#[test]
fn scene_entities_come_to_life_and_are_written_down_again() {
    let mut recorder = AnimationRecorder::new();
    let mut data = scene_entity("a");
    data.sprite =
        Some(SpriteData { atlas: "main".to_string(), region: "green".to_string(), animation: None });
    data.mesh = Some(MeshData {
        key: "cube".to_string(),
        material: None,
        lighting: MeshLighting::default(),
    });
    let region = Some(AtlasRegion { name: text("green"), id: 3, uv: [Num(0.5); 4] });
    let made =
        spawn_scene_entity(data, &look(), &region, &None, row(7), Num(0.0), &mut recorder)
            .ok()
            .unwrap();
    assert_eq!(made.body.unwrap().mass, Num(2.0));
    assert_eq!(made.sprite.as_ref().unwrap().region_id, 3);
    assert_eq!(made.transform3d.unwrap().translation.y, Num(2.0));
    assert_eq!(
        announce(&made).unwrap().describe(""),
        "SpriteSpawned entity=7 atlas=main region=green"
    );
    let back = describe_entity(&made, Some(4), None);
    assert_eq!(back.id, "a");
    assert_eq!(back.parent, Some(4));
    assert_eq!(back.mesh.unwrap().key, "cube");
    assert_eq!(pair(back.collider.unwrap()), (0.5, 0.5));
    assert_eq!(back.spin, Some(Num(0.5)));
    let shown = entity_info::<Num, Num, Num>(&made, v2(4.0, 4.0), None, None, None);
    assert_eq!(shown.scene_id, "a");
    assert_eq!(pair(shown.translation), (4.0, 4.0));
}

#[test]
fn unknown_regions_and_parents_are_errors() {
    let mut recorder = AnimationRecorder::new();
    let mut data = scene_entity("a");
    data.sprite =
        Some(SpriteData { atlas: "main".to_string(), region: "gone".to_string(), animation: None });
    let err = spawn_scene_entity(data, &look(), &None, &None, row(1), Num(0.0), &mut recorder)
        .err()
        .unwrap();
    assert_eq!(err.message(), "Scene references unknown atlas region 'main:gone'");
    let mut child = scene_entity("b");
    child.parent = Some(9);
    let err = resolve_parents(&vec![scene_entity("a"), child]).err().unwrap();
    assert!(matches!(err, SceneError::ParentOutOfBounds { index: 9 }));
    assert_eq!(err.message(), "Scene entity parent index 9 out of bounds");
    let mut child = scene_entity("b");
    child.parent_id = Some("a".to_string());
    let parents = resolve_parents(&vec![scene_entity("a"), child]).ok().unwrap();
    assert_eq!(parents, vec![None, Some(0)]);
}

#[test]
fn scenes_name_what_they_need() {
    let mut loaded = TextMap::new();
    loaded.insert("main".to_string(), ());
    assert!(check_atlases(&vec!["main".to_string()], &loaded).is_ok());
    assert_eq!(
        check_atlases(&vec!["main".to_string(), "ui".to_string()], &loaded).unwrap_err(),
        "Scene requires atlas 'ui' which is not loaded. Call AssetManager::load_atlas before loading the scene."
    );
    assert!(check_meshes(&vec![]).is_ok());
    let missing = vec![
        MissingMesh { key: "a".to_string(), path: None, reason: "x".to_string() },
        MissingMesh {
            key: "b".to_string(),
            path: Some("b.gltf".to_string()),
            reason: "y".to_string(),
        },
    ];
    assert_eq!(
        check_meshes(&missing).unwrap_err(),
        "Scene requires meshes that are unavailable: a (no path provided) : x, b (b.gltf) : y"
    );
}

#[test]
fn scripts_get_their_sprites() {
    let known = Some(AtlasRegion { name: text("redorb"), id: 2, uv: [Num(0.25); 4] });
    let spawn = |scale: f32, known: &Option<AtlasRegion<Num>>| {
        spawn_scripted_sprite(
            row(1),
            "id".to_string(),
            "main",
            "redorb",
            known,
            v2(1.0, 1.0),
            Num(scale),
            v2(0.0, 3.0),
        )
    };
    let made = spawn(2.0, &known).ok().unwrap();
    assert_eq!(pair(made.half.unwrap()), (1.0, 1.0));
    assert_eq!(made.body.unwrap().mass, Num(1.0));
    let err = spawn(0.0, &known).err().unwrap();
    assert!(matches!(err, ScriptError::ScaleNotPositive));
    assert_eq!(err.message(), "Scale must be positive");
    let err = spawn(1.0, &None).err().unwrap();
    assert_eq!(err.message(), "Region 'redorb' not found in atlas 'main'");
}

#[test]
fn the_demo_scene_has_five_entities() {
    let name = |i: u64| DemoName { entity: row(i), scene_id: format!("demo{i}") };
    let rows = spawn_demo_scene(name(0), name(1), name(2), name(3), name(4), Num(1.0), &look());
    assert_eq!(rows.len(), 5);
    assert_eq!(rows[0].spin, Some(Num(1.2)));
    assert_eq!(pair(rows[1].transform.translation), (-0.9, 0.0));
    assert_eq!(rows[2].velocity.unwrap().y, Num(0.9 * 0.95));
    assert_eq!(rows[3].orbit.unwrap().angular_speed, Num(1.05));
    assert_eq!(rows[4].emitter.as_ref().unwrap().rate, Num(35.0));
    assert_eq!(find_entity_by_scene_id(&rows, "demo3"), Some(row(3)));
    assert_eq!(find_entity_by_scene_id(&rows, "demo9"), None);
}

#[test]
fn entities_can_be_edited() {
    let mut made =
        spawn_burst_sprite(row(1), "b".to_string(), 2, v2(0.0, 0.0), v2(1.0, 0.0), Num(0.5));
    assert_eq!(made.sprite.as_ref().unwrap().region.as_str(), "bluebox");
    assert_eq!(made.velocity.unwrap().x, Num(0.6));
    made.set_translation(v2(3.0, 4.0));
    assert_eq!(pair(made.body.unwrap().translation), (3.0, 4.0));
    made.set_rotation(Num(0.25));
    assert_eq!(made.transform.rotation, Num(0.25));
    assert!(!made.set_scale(v2(0.0, 1.0)));
    assert!(made.set_scale(v2(1.0, 1.0)));
    assert_eq!(pair(made.half.unwrap()), (0.5, 0.5));
    assert_eq!(made.mass, Some(Num(0.8 * 4.0)));
    assert!(made.set_velocity(v2(7.0, 7.0)));
    assert!(made.set_tint(Some(v4(1.0, 1.0, 1.0, 1.0))));
    assert!(made.set_tint(None));
    assert!(!made.set_tint(None));
    made.prepare_tint_track(true);
    assert_eq!(made.tint.unwrap().x, Num(1.0));
    assert!(!made.set_mesh_translation(v3(0.0, 0.0, 0.0)));
    let known = Some(AtlasRegion { name: text("checker"), id: 1, uv: [Num(0.5); 4] });
    let uv = sprite_uv(made.sprite.as_mut().unwrap(), &known);
    assert_eq!(uv[0], Num(0.5));
    assert!(made.set_sprite_region(&known));
    assert!(!made.set_sprite_region(&None));
    assert!(made.set_sprite_atlas("ui", &None, &known));
    assert_eq!(made.sprite.as_ref().unwrap().atlas_key.as_str(), "ui");
    assert!(!made.set_sprite_atlas("ui", &None, &None));

    let mut mesh =
        spawn_mesh_entity(row(2), "m".to_string(), "cube", v3(1.0, 2.0, 3.0), v3(1.0, 1.0, 1.0));
    assert!(mesh.set_mesh_translation(v3(4.0, 5.0, 6.0)));
    assert_eq!(pair(mesh.transform.translation), (4.0, 5.0));
    assert!(mesh.set_mesh_scale(v3(2.0, 3.0, 4.0)));
    assert_eq!(pair(mesh.transform.scale), (2.0, 3.0));
    assert!(mesh.set_mesh_rotation(v4(0.0, 0.0, 0.0, 1.0)));
    assert_eq!(Transform3D::at(v3(0.0, 0.0, 0.0)).rotation.w, Num(1.0));
    let instance = SpriteInstanceTransform {
        axis_x: v3(2.0, 0.0, 0.0),
        axis_y: v3(0.0, -4.0, 0.0),
        translation: v3(0.0, 0.0, 0.0),
    };
    assert_eq!(pair(instance.half_extent_2d()), (1.0, 2.0));
}

#[test]
fn collisions_are_told_of_entities() {
    let mut owners = ColliderEntities::new();
    owners.register_collider_entity(10, row(2));
    owners.register_collider_entity(11, row(1));
    let touches = vec![
        TouchReport { first: 10, second: 11, started: true, sensor: false },
        TouchReport { first: 10, second: 11, started: true, sensor: true },
        TouchReport { first: 10, second: 99, started: true, sensor: false },
        TouchReport { first: 11, second: 10, started: false, sensor: false },
    ];
    let forces = vec![ForceReport { first: 10, second: 11, force: Num(1.5) }];
    let told = drain_collision_events(&owners, &touches, &forces);
    assert_eq!(told.len(), 3);
    assert!(matches!(told[0].0, CollisionEventKind::Started));
    let mut bus = EventBus::new();
    publish_collisions(&told, &mut bus);
    let said: Vec<String> = bus.drain().iter().map(|e| e.describe("1.500")).collect();
    assert_eq!(
        said,
        vec![
            "CollisionStarted a=1 b=2",
            "CollisionEnded a=1 b=2",
            "CollisionForce a=1 b=2 force=1.500",
        ]
    );
    owners.unregister_collider(10);
    assert_eq!(owners.find(10), None);
    assert_eq!(owners.find(11), Some(row(1)));
}

#[test]
fn events_are_put_into_words() {
    let spawned: GameEvent<Num> =
        GameEvent::SpriteAnimationEvent { entity: row(4), timeline: text("run"), event: text("step") };
    assert_eq!(spawned.describe(""), "SpriteAnimationEvent entity=4 timeline=run event=step");
    let gone: GameEvent<Num> = GameEvent::EntityDespawned { entity: row(5) };
    assert_eq!(gone.describe(""), "EntityDespawned entity=5");
    let said: GameEvent<Num> = GameEvent::ScriptMessage { message: "hi".to_string() };
    assert_eq!(said.describe(""), "ScriptMessage hi");
}

#[test]
fn time_is_planned_in_whole_steps() {
    let mut time = AnimationTime::<Num>::new();
    assert!(matches!(time.consume(Num(0.5)), AnimationDelta::Single(Num(d)) if d == 0.5));
    time.set_scale(Num(2.0));
    assert!(matches!(time.consume(Num(0.5)), AnimationDelta::Single(Num(d)) if d == 1.0));
    time.set_fixed_step(Some(Num(0.25)));
    assert!(matches!(time.consume(Num(0.5)), AnimationDelta::Fixed { steps: 4, .. }));
    time.paused = true;
    assert!(matches!(time.consume(Num(0.5)), AnimationDelta::Idle));
    time.set_scale(Num(-1.0));
    assert_eq!(time.scale, Num(0.0));
    time.set_group_scale("fx", Num(3.0));
    assert_eq!(time.group_scale(Some("fx")), Num(3.0));
    assert_eq!(time.group_scale(None), Num(1.0));
}

#[test]
fn paths_and_numbers_are_spelled_out() {
    assert_eq!(file_name("a/b.tar.gz").unwrap(), "b.tar.gz");
    assert_eq!(file_name("a/b/").unwrap(), "b");
    assert!(file_name("..").is_none());
    assert_eq!(stem("b.tar.gz"), "b.tar");
    assert_eq!(extension("b.tar.gz").unwrap(), "gz");
    assert!(extension(".hidden").is_none());
    assert_eq!(to_decimal(0), "0");
    assert_eq!(to_decimal(18446744073709551615), "18446744073709551615");
    assert_eq!(to_ascii_lower("AbC1"), "abc1");
}
