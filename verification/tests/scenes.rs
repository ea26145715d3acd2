use kestrel_engine::anim_stats::{
    record_transform_looped_resume, reset_transform_clip_stats, transform_clip_stats_snapshot,
    AnimationRecorder,
};
use kestrel_engine::animation_time::AnimationTime;
use kestrel_engine::camera::SmallAngles;
use kestrel_engine::components::{
    EmitterSnapshot, MeshLighting, MeshSurface, Transform, Transform3D,
};
use kestrel_engine::draw::{
    adjust_root_spin, collect_mesh_instances, collect_sprite_instances, collider_rects,
    entity_bounds, first_emitter, set_animation_group_scale, set_root_spin, DrawnMesh,
    DrawnSprite,
};
use kestrel_engine::entity::Entity;
use kestrel_engine::hierarchy::{clear_scene_entities, Member};
use kestrel_engine::info::{entity_info, EntityInfo};
use kestrel_engine::input::{Input, InputEvent, Key};
use kestrel_engine::mesh_preview::{MeshControlMode, PreviewView};
use kestrel_engine::picking::{picking_direction, picking_scale};
use kestrel_engine::scalar::{Fixed, Scalar};
use kestrel_engine::scene::{
    make_emitter, resolve_parents, AtlasRegion, EmitterLook, EntityRow, MeshData, SceneEntity,
    SceneError, SpriteData,
};
use kestrel_engine::scene_deps::{
    atlas_step, check_loaded_atlases, check_mesh_sources, check_prepared_meshes, AtlasStep,
    MissingAtlas, MissingMesh,
};
use kestrel_engine::scene_world::{
    export_prefab, export_scene, instantiate_scene_entities, load_scene_internal, LoadedScene,
    SceneSource,
};
use kestrel_engine::skeleton::SkinMesh;
use kestrel_engine::sprite::{Sprite, UNINITIALIZED_REGION};
use kestrel_engine::text_map::TextMap;
use kestrel_engine::vectors::{Vec2, Vec3, Vec4};
use kestrel_engine::world_edit::bare_row;
use std::sync::Arc;

fn part(a: usize, b: usize) -> Fixed {
    Fixed::from_count(a).over(Fixed::from_count(b))
}

fn v2(x: usize, y: usize) -> Vec2<Fixed> {
    Vec2 { x: part(x, 1), y: part(y, 1) }
}

fn v3(x: usize, y: usize, z: usize) -> Vec3<Fixed> {
    Vec3 { x: part(x, 1), y: part(y, 1), z: part(z, 1) }
}

fn look() -> EmitterLook {
    EmitterLook { atlas: Arc::new("main".to_string()), region: Arc::new("dot".to_string()) }
}

fn at(x: usize, y: usize) -> Transform<Fixed> {
    Transform { translation: v2(x, y), rotation: part(0, 1), scale: v2(1, 1) }
}

fn entity_of(id: &str, parent_id: Option<&str>, parent: Option<usize>) -> SceneEntity<Fixed> {
    SceneEntity {
        id: id.to_string(),
        name: None,
        transform: at(2, 3),
        sprite: None,
        transform3d: None,
        mesh: None,
        tint: None,
        velocity: None,
        mass: None,
        collider: None,
        particle_emitter: None,
        orbit: None,
        spin: None,
        parent_id: parent_id.map(str::to_string),
        parent,
    }
}

fn nothing_known() -> SceneSource<Fixed> {
    SceneSource { region: None, timeline: None, random_fraction: part(1, 2) }
}

fn load(entities: Vec<SceneEntity<Fixed>>) -> Result<LoadedScene<Fixed>, SceneError> {
    let ids = (0..entities.len() as u64).map(|i| Entity::from_bits(10 + i)).collect();
    let sources = entities.iter().map(|_| nothing_known()).collect();
    load_scene_internal(entities, &look(), &sources, &ids, &mut AnimationRecorder::new())
}

fn parents_of(scene: &LoadedScene<Fixed>) -> Vec<Option<u64>> {
    scene.members.iter().map(|m| m.parent.map(|p| p.to_bits())).collect()
}

#[test]
fn scenes_come_to_life_with_their_parents() {
    let mut child = entity_of("child", Some("root"), None);
    child.tint = Some(Vec4 { x: part(1, 1), y: part(0, 1), z: part(0, 1), w: part(1, 2) });
    let scene = load(vec![
        entity_of("root", None, None),
        child,
        entity_of("other", None, Some(1)),
    ])
    .ok()
    .unwrap();
    assert_eq!(scene.rows.len(), 3);
    assert_eq!(scene.rows[1].entity, Entity::from_bits(11));
    assert_eq!(scene.rows[1].scene_id, "child");
    assert_eq!(scene.rows[1].tint.unwrap().w, part(1, 2));
    assert_eq!(parents_of(&scene), [None, Some(10), Some(11)]);
    assert_eq!(scene.members[0].children, Some(vec![Entity::from_bits(11)]));
    assert_eq!(scene.members[1].children, Some(vec![Entity::from_bits(12)]));
    assert_eq!(scene.members[2].children, None);
}

#[test]
fn broken_scenes_are_refused() {
    let lost = load(vec![entity_of("a", None, Some(7))]);
    assert!(matches!(lost, Err(SceneError::ParentOutOfBounds { index: 7 })));

    let mut drawn = entity_of("b", None, Some(7));
    drawn.sprite =
        Some(SpriteData { atlas: "main".to_string(), region: "gone".to_string(), animation: None });
    match load(vec![entity_of("a", None, Some(7)), drawn]) {
        Err(SceneError::UnknownRegion { atlas, region }) => {
            assert_eq!((atlas.as_str(), region.as_str()), ("main", "gone"));
        }
        _ => panic!("the region comes first"),
    }
}

#[test]
fn prefabs_do_without_parents_that_are_not_there() {
    let entities = vec![entity_of("a", None, Some(7)), entity_of("b", Some("a"), None)];
    let ids = vec![Entity::from_bits(1), Entity::from_bits(2)];
    let sources = vec![nothing_known(), nothing_known()];
    let mut recorder = AnimationRecorder::new();
    let scene =
        instantiate_scene_entities(entities, &look(), &sources, &ids, &mut recorder).ok().unwrap();
    assert_eq!(parents_of(&scene), [None, Some(1)]);
}

#[test]
fn a_scene_that_was_written_down_is_read_back() {
    let mut root = entity_of("root", None, None);
    root.spin = Some(part(3, 2));
    root.mass = Some(part(4, 1));
    let mut leaf = entity_of("leaf", Some("twig"), None);
    leaf.mesh = Some(MeshData {
        key: "cube".to_string(),
        material: Some("red".to_string()),
        lighting: MeshLighting::default(),
    });
    leaf.transform3d = Some(Transform3D::at(v3(1, 2, 3)));
    let scene = load(vec![
        root,
        entity_of("twig", Some("root"), None),
        leaf,
        entity_of("alone", None, None),
    ])
    .ok()
    .unwrap();
    let written = export_scene(&scene.members, &scene.rows);
    let ids: Vec<&str> = written.iter().map(|e| e.id.as_str()).collect();
    assert_eq!(ids, ["root", "twig", "leaf", "alone"]);
    assert_eq!(written[0].spin, Some(part(3, 2)));
    assert_eq!(written[0].mass, Some(part(4, 1)));
    assert_eq!(written[2].parent, Some(1));
    assert_eq!(written[2].parent_id.as_deref(), Some("twig"));
    assert_eq!(written[2].mesh.as_ref().unwrap().material.as_deref(), Some("red"));
    assert_eq!(resolve_parents(&written).ok().unwrap(), [None, Some(0), Some(1), None]);

    let again = load(written).ok().unwrap();
    assert_eq!(parents_of(&again), [None, Some(10), Some(11), None]);

    let twig = export_prefab(&scene.members, &scene.rows, Entity::from_bits(11)).unwrap();
    assert_eq!(twig.len(), 2);
    assert_eq!((twig[0].parent, twig[1].parent), (None, Some(0)));
    assert!(export_prefab(&scene.members, &scene.rows, Entity::from_bits(99)).is_none());
}

#[test]
fn clearing_keeps_the_bounds() {
    let scene = load(vec![entity_of("a", None, None), entity_of("b", Some("a"), None)]);
    let mut members = scene.ok().unwrap().members;
    let boundary = Entity::from_bits(1);
    members.insert(
        0,
        Member {
            entity: boundary,
            parent: None,
            children: None,
            placed: false,
            is_particle: false,
        },
    );
    let gone = clear_scene_entities(&mut members, boundary);
    assert_eq!(gone, [Entity::from_bits(11), Entity::from_bits(10)]);
    assert_eq!(members.len(), 1);
    assert_eq!(members[0].entity, boundary);
}

#[test]
fn missing_parts_of_scenes_are_named() {
    let mut loaded = TextMap::new();
    loaded.insert("main".to_string(), ());
    assert_eq!(atlas_step("main", &None, &loaded), AtlasStep::There);
    assert_eq!(atlas_step("x", &Some("x.json".to_string()), &loaded), AtlasStep::Load);
    assert_eq!(atlas_step("x", &None, &loaded), AtlasStep::NoPath);

    assert!(check_loaded_atlases(&Vec::new()).is_ok());
    let atlases = vec![
        MissingAtlas {
            key: "a".to_string(),
            tried: Some(("a.json".to_string(), "no file".to_string())),
        },
        MissingAtlas { key: "b".to_string(), tried: None },
    ];
    assert_eq!(
        check_loaded_atlases(&atlases).unwrap_err(),
        "Scene requires atlases that could not be loaded: a (a.json): no file, b (no path provided)"
    );
    let meshes = vec![MissingMesh {
        key: "m".to_string(),
        path: None,
        reason: "not there".to_string(),
    }];
    assert_eq!(
        check_prepared_meshes(&meshes).unwrap_err(),
        "Scene requires meshes that could not be prepared: m (no path provided) : not there"
    );
    assert!(check_mesh_sources(&Vec::new()).is_ok());
    assert_eq!(
        check_mesh_sources(&vec!["a".to_string(), "b".to_string()]).unwrap_err(),
        "Scene references meshes (a, b) but no mesh source exporter was provided. Use \
         save_scene_to_path_with_mesh_source to record mesh paths."
    );
}

#[test]
fn sprites_are_drawn_where_they_are() {
    let place = Transform { translation: v2(5, 6), rotation: part(0, 1), scale: v2(2, 4) };
    let world = place.to_mat4::<SmallAngles>();
    assert_eq!(world[0], part(2, 1));
    assert_eq!(world[5], part(4, 1));
    assert_eq!((world[12], world[13]), (part(5, 1), part(6, 1)));
    assert_eq!((world[10], world[15]), (part(1, 1), part(1, 1)));
    let sprite = |id: u16| Sprite {
        atlas_key: Arc::new("main".to_string()),
        region: Arc::new("dot".to_string()),
        region_id: id,
        uv: [part(0, 1); 4],
    };
    let known = AtlasRegion { name: Arc::new("dot".to_string()), id: 3, uv: [part(1, 4); 4] };
    let mut rows = vec![
        DrawnSprite { world, sprite: sprite(UNINITIALIZED_REGION), tint: None },
        DrawnSprite {
            world,
            sprite: sprite(9),
            tint: Some(Vec4 { x: part(1, 2), y: part(0, 1), z: part(0, 1), w: part(1, 1) }),
        },
    ];
    let made = collect_sprite_instances(&mut rows, &vec![Some(known.clone()), Some(known)]);
    assert_eq!(rows[0].sprite.region_id, 3);
    assert_eq!(rows[1].sprite.region_id, 9);
    assert_eq!(made[0].uv_rect, [part(1, 4); 4]);
    assert_eq!(made[1].uv_rect, [part(0, 1); 4]);
    assert_eq!(made[0].tint, [part(1, 1); 4]);
    assert_eq!(made[1].tint[0], part(1, 2));
    assert_eq!(made[0].world_half_extent.x, part(1, 1));
    assert_eq!(made[0].world_half_extent.y, part(2, 1));
    let (atlas, data) = made.into_iter().next().unwrap().into_gpu();
    assert_eq!(*atlas, "main");
    assert_eq!(data.axis_x, [part(2, 1), part(0, 1), part(0, 1), part(0, 1)]);
    assert_eq!(data.translation, [part(5, 1), part(6, 1), part(0, 1), part(1, 1)]);
}

#[test]
fn meshes_without_a_surface_are_plain() {
    let surface = MeshSurface {
        material: Some("red".to_string()),
        lighting: MeshLighting { cast_shadows: true, ..MeshLighting::default() },
    };
    let rows = vec![
        DrawnMesh { key: "cube".to_string(), model: 7, surface: Some(surface) },
        DrawnMesh { key: "ball".to_string(), model: 8, surface: None },
    ];
    let made = collect_mesh_instances::<Fixed, i32>(&rows);
    assert_eq!(made[0].key, "cube");
    assert_eq!(made[0].material.as_deref(), Some("red"));
    assert!(made[0].lighting.cast_shadows);
    assert_eq!(made[1].model, 8);
    assert_eq!(made[1].material, None);
    assert_eq!(made[1].lighting.roughness, part(1, 2));
}

#[test]
fn boxes_lie_around_their_middles() {
    let (low, high) = entity_bounds(v2(4, 4), Some(v2(1, 2)));
    assert_eq!((low.x, low.y, high.x, high.y), (part(3, 1), part(2, 1), part(5, 1), part(6, 1)));
    let (low, _) = entity_bounds(v2(4, 4), None);
    assert_eq!(low.x, part(15, 4));
    let rects = collider_rects(&vec![(v2(4, 4), v2(1, 1))]);
    assert_eq!(rects[0].1.y, part(5, 1));
}

#[test]
fn only_the_first_that_spins_is_changed() {
    let mut rows: Vec<EntityRow<Fixed>> =
        (0..3).map(|i| bare_row(Entity::from_bits(i), i.to_string(), at(0, 0))).collect();
    set_root_spin(&mut rows, part(9, 1));
    assert!(rows.iter().all(|row| row.spin.is_none()));
    rows[1].spin = Some(part(1, 1));
    rows[2].spin = Some(part(2, 1));
    set_root_spin(&mut rows, part(5, 1));
    adjust_root_spin(&mut rows, part(1, 2));
    assert_eq!(rows[1].spin, Some(part(11, 2)));
    assert_eq!(rows[2].spin, Some(part(2, 1)));

    assert_eq!(first_emitter(&rows), None);
    let settings = EmitterSnapshot {
        rate: part(1, 1),
        spread: part(1, 1),
        speed: part(1, 1),
        lifetime: part(1, 1),
        start_color: Vec4 { x: part(1, 1), y: part(1, 1), z: part(1, 1), w: part(1, 1) },
        end_color: Vec4 { x: part(1, 1), y: part(1, 1), z: part(1, 1), w: part(0, 1) },
        start_size: part(1, 8),
        end_size: part(1, 16),
    };
    rows[2].emitter = Some(make_emitter(&settings, &look()));
    assert_eq!(first_emitter(&rows), Some(Entity::from_bits(2)));
    let emitter = rows[2].emitter.as_mut().unwrap();
    emitter.set_emitter_rate(part(0, 1).minus(part(1, 1)));
    assert_eq!(emitter.rate, part(0, 1));
    emitter.set_emitter_speed(part(3, 1));
    emitter.set_emitter_lifetime(part(0, 1));
    assert_eq!(emitter.speed, part(3, 1));
    assert!(part(0, 1).lt(emitter.lifetime));
}

#[test]
fn groups_change_their_speed() {
    let mut time: AnimationTime<Fixed> = AnimationTime::new();
    set_animation_group_scale(&mut time, &mut Vec::new(), "npc", part(2, 1));
    assert_eq!(time.group_scale(Some("npc")), part(2, 1));
    set_animation_group_scale(&mut time, &mut Vec::new(), "npc", part(1, 1));
    assert_eq!(time.group_scale(Some("npc")), part(1, 1));
    assert!(!time.has_group_scales());
}

#[test]
fn surfaces_are_kept_within_what_can_be_lit() {
    let mut surface: MeshSurface<Fixed> =
        MeshSurface { material: None, lighting: MeshLighting::default() };
    surface.set_mesh_material(Some("blue".to_string()));
    surface.set_mesh_shadow_flags(true, false);
    surface.set_mesh_material_params(v3(2, 0, 1), part(3, 1), part(0, 1), Some(v3(4, 4, 4)));
    assert_eq!(surface.material.as_deref(), Some("blue"));
    assert!(surface.lighting.cast_shadows && !surface.lighting.receive_shadows);
    assert_eq!(surface.lighting.base_color.x, part(1, 1));
    assert_eq!(surface.lighting.metallic, part(1, 1));
    assert_eq!(surface.lighting.roughness, part(4, 100));
    assert_eq!(surface.lighting.emissive.unwrap().x, part(4, 1));
}

fn shown(mesh: Option<Transform3D<Fixed>>) -> EntityInfo<Fixed, Fixed, Fixed> {
    let mut row = bare_row(Entity::from_bits(1), "e".to_string(), at(3, 4));
    row.transform3d = mesh;
    entity_info(&row, v2(3, 4), None, None, None)
}

#[test]
fn the_preview_looks_at_what_is_selected() {
    let mut view: PreviewView<Fixed> = PreviewView::new::<SmallAngles>();
    let target = view.orbit.target;
    let none: Option<EntityInfo<Fixed, Fixed, Fixed>> = None;
    assert_eq!(view.compute_focus_point(&none).x, target.x);
    let flat = shown(None);
    assert_eq!(
        view.focus_selection_with_info::<SmallAngles, Fixed, Fixed>(&flat),
        "Centered 2D camera on selection."
    );
    assert_eq!(view.orbit.target.x, target.x);
    assert_eq!(view.compute_focus_point(&Some(flat)).x, part(3, 1));
    let solid = shown(Some(Transform3D::at(v3(7, 8, 9))));
    assert_eq!(
        view.focus_selection_with_info::<SmallAngles, Fixed, Fixed>(&solid),
        "Framed selection in 3D viewport."
    );
    assert_eq!(view.orbit.target.z, part(9, 1));
    assert_eq!(
        view.snap_frustum_to_selection::<SmallAngles, Fixed, Fixed>(&none, v3(1, 1, 1)),
        "Frustum focus updated."
    );
    assert_eq!(view.orbit.target.z, part(1, 1));
}

#[test]
fn keys_change_the_mode_and_the_lock() {
    let mut view: PreviewView<Fixed> = PreviewView::new::<SmallAngles>();
    let mut input: Input<Fixed> = Input::new();
    assert_eq!(view.handle_mesh_control_input::<SmallAngles>(&mut input, None), None);
    let press = |key: &str| InputEvent::Key {
        key: Key::Character(key.to_string()),
        pressed: true,
    };
    input.push(press("m"));
    input.push(InputEvent::Wheel { delta: part(2, 1) });
    input.push(InputEvent::MouseMove { dx: part(3, 1), dy: part(4, 1) });
    let kept = input.events.len();
    let said = view.handle_mesh_control_input::<SmallAngles>(&mut input, None);
    assert_eq!(said, Some(view.mode.status_message()));
    assert_eq!(view.mode, MeshControlMode::Disabled.next());
    assert_eq!(input.events.len(), kept);
    assert_eq!(input.wheel, part(0, 1));
    assert_eq!(input.mouse_delta, (part(0, 1), part(0, 1)));
    input.push(InputEvent::Wheel { delta: part(2, 1) });
    input.push(press("l"));
    let said = view.handle_mesh_control_input::<SmallAngles>(&mut input, Some(v3(1, 2, 3)));
    assert_eq!(said, Some("Frustum lock enabled (wheel adjusts focus distance)."));
    assert!(view.frustum_lock);
    assert_eq!(view.frustum_focus.y, part(2, 1));
    assert_eq!(input.wheel, part(2, 1));
    input.push(press("l"));
    let said = view.handle_mesh_control_input::<SmallAngles>(&mut input, None);
    assert_eq!(said, Some("Frustum lock disabled."));
}

#[test]
fn flights_that_roll_too_far_do_not_happen() {
    let mut view: PreviewView<Fixed> = PreviewView::new::<SmallAngles>();
    let mut input: Input<Fixed> = Input::new();
    assert!(view.set_mesh_control_mode::<SmallAngles>(MeshControlMode::Freefly, &mut input));
    view.freefly.roll = part(1000, 1);
    let moved = view.try_update_mesh_camera::<SmallAngles>(&mut input, None, part(1, 60), 10);
    assert_eq!(moved, None);
    assert_eq!(view.freefly.roll, part(1000, 1));
    let moved = view.try_update_mesh_camera::<SmallAngles>(&mut input, None, part(1, 60), 1000);
    assert_eq!(moved, Some(false));
    assert!(view.freefly.roll.magnitude().le(part(22, 7)));
}

#[test]
fn rays_need_a_direction_and_boxes_a_size() {
    assert!(picking_direction(v3(0, 0, 0)).is_none());
    assert_eq!(picking_direction(v3(0, 0, 2)).unwrap().z, part(1, 1));
    assert_eq!(picking_scale(v3(0, 1, 1)).unwrap().x, part(1, 10_000));
    assert_eq!(picking_scale(v3(1, 2, 3)).unwrap().y, part(2, 1));
}

#[test]
fn skins_know_their_skeletons() {
    let mut skin = SkinMesh::new(4);
    assert_eq!(skin.joint_count, 4);
    skin.set_skeleton(Entity::from_bits(9));
    skin.set_mesh_key(Arc::new("slime".to_string()));
    assert_eq!(skin.skeleton_entity, Some(Entity::from_bits(9)));
    skin.clear_skeleton();
    skin.clear_mesh_key();
    assert_eq!(skin.skeleton_entity, None);
    assert!(skin.mesh_key.is_none());
}

#[test]
fn counts_are_kept_until_they_are_reset() {
    let mut recorder: AnimationRecorder<Fixed> = AnimationRecorder::new();
    let before = transform_clip_stats_snapshot(&recorder).looped_resume_clips;
    record_transform_looped_resume(&mut recorder, 3);
    assert_eq!(transform_clip_stats_snapshot(&recorder).looped_resume_clips, before + 3);
    reset_transform_clip_stats(&mut recorder);
    assert_eq!(transform_clip_stats_snapshot(&recorder).looped_resume_clips, 0);
}
