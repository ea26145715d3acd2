use kestrel_engine::anim_stats::{AnimationRecorder, SpriteAnimPerfSample};
use kestrel_engine::animation_time::{AnimationDelta, AnimationTime};
use kestrel_engine::clip::{AnimationClip, ClipInstance, TransformTrackPlayer};
use kestrel_engine::clip_drive::{sys_drive_transform_clips, ClipActor, ClipPath, ClipTransform};
use kestrel_engine::clip_track::{ClipInterpolation, ClipKeyframe, ClipSegment, ClipTrack};
use kestrel_engine::entity::Entity;
use kestrel_engine::gpu_baseline::{GpuPassTiming, GpuTimingAccumulator};
use kestrel_engine::input::{InputAction, InputBindings, InputKeyBinding};
use kestrel_engine::motion::WorldBounds;
use kestrel_engine::scalar::{Fixed, Scalar};
use kestrel_engine::skeleton::{
    JointCurve, JointTrack, SkeletalClip, SkeletonAsset, SkeletonInstance, SkeletonJoint,
};
use kestrel_engine::small_list::SmallList;
use kestrel_engine::spatial::{aabb_overlap, QuadtreeEntry, SpatialQuadtree};
use kestrel_engine::sprite::{
    Sprite, SpriteAnimation, SpriteAnimationFrame, SpriteAnimationLoopMode, SpriteFrameHotData,
    SpriteFrameState,
};
use kestrel_engine::sprite_soa::SpriteAnimatorSoa;
use kestrel_engine::sprite_systems::{
    sys_cleanup_sprite_animator_soa, sys_flag_fast_sprite_animators, SpriteActor,
};
use kestrel_engine::transform::{
    propagate_scene_transforms, SceneNode, TransformPropagationScratch,
};
use kestrel_engine::vectors::{Vec2, Vec4};
use std::cell::Cell;
use std::sync::Arc;

fn part(a: usize, b: usize) -> Fixed {
    Fixed::from_count(a).over(Fixed::from_count(b))
}

fn flat(x: i64, y: i64) -> Vec2<Fixed> {
    Vec2 { x: Fixed(x * 65536), y: Fixed(y * 65536) }
}

fn text(value: &str) -> Arc<String> {
    Arc::new(value.to_string())
}

#[test]
fn a_key_listed_twice_gives_its_action_twice() {
    let config = vec![
        ("mesh_toggle".to_string(), vec!["k".to_string(), " K ".to_string()]),
        ("freefly_ascend".to_string(), vec!["k".to_string()]),
        ("freefly_roll_left".to_string(), vec!["z".to_string()]),
    ];
    let (bindings, warnings) = InputBindings::from_config(&config, "input.json");
    assert!(warnings.is_empty());
    assert_eq!(
        bindings.actions_for_key(&InputKeyBinding::character("k")),
        vec![InputAction::MeshToggle, InputAction::MeshToggle, InputAction::FreeflyAscend]
    );
    assert_eq!(
        bindings.actions_for_key(&InputKeyBinding::character("z")),
        vec![InputAction::FreeflyRollLeft]
    );
    assert!(bindings.actions_for_key(&InputKeyBinding::character("9")).is_empty());
}

#[test]
fn every_kind_of_white_space_is_trimmed() {
    let spaces = "\u{9}\u{a}\u{b}\u{c}\u{d} \u{85}\u{a0}\u{1680}\u{2000}\u{200a}\u{2028}\u{2029}\
                  \u{202f}\u{205f}\u{3000}";
    let raw = format!("{}k{}", spaces, spaces);
    match InputKeyBinding::from_config_value(&raw) {
        Some(InputKeyBinding::Character(text)) => assert_eq!(text, "k"),
        _ => panic!("white space around a key counts for nothing"),
    }
    assert!(InputKeyBinding::from_config_value("k\u{200b}").is_none());
}

fn track<V: Copy>(
    interpolation: ClipInterpolation,
    values: [V; 3],
    slopes: [V; 2],
) -> Option<ClipTrack<Fixed, V>> {
    let half = part(1, 2);
    Some(ClipTrack {
        interpolation,
        keyframes: (0..3)
            .map(|i| ClipKeyframe { time: part(i, 2), value: values[i] })
            .collect(),
        duration: part(1, 1),
        duration_inv: part(1, 1),
        segment_offsets: vec![part(0, 1), half],
        segments: slopes
            .iter()
            .map(|slope| ClipSegment { slope: *slope, span: half, inv_span: part(2, 1) })
            .collect(),
    })
}

type Clip = AnimationClip<Fixed, Vec2<Fixed>, Vec4<Fixed>>;

fn swinging_clip(looped: bool) -> Arc<Clip> {
    Arc::new(AnimationClip {
        version: 1,
        looped,
        duration: part(1, 1),
        duration_inv: part(1, 1),
        translation: track(
            ClipInterpolation::Linear,
            [flat(0, 0), flat(2, 4), flat(0, 8)],
            [flat(4, 8), flat(-4, 8)],
        ),
        rotation: track(
            ClipInterpolation::Step,
            [part(1, 1), part(2, 1), part(3, 1)],
            [part(2, 1), part(2, 1)],
        ),
        scale: None,
        tint: None,
    })
}

fn shown(place: Option<Vec2<Fixed>>) -> Option<(i64, i64)> {
    place.map(|p| (p.x.0, p.y.0))
}

#[test]
fn a_cached_sample_is_the_value_at_the_time() {
    for looped in [false, true] {
        let mut instance = ClipInstance::new("swing".to_string(), swinging_clip(looped));
        instance.advance_time(part(1, 32));
        let steps = if looped { 40 } else { 15 };
        for _ in 0..steps {
            instance.advance_time(part(1, 16));
            let cached = instance.sample_cached();
            let read = instance.sample_at(instance.time);
            assert_eq!(shown(cached.translation), shown(read.translation));
            assert_eq!(cached.rotation, read.rotation);
        }
        instance.set_time(part(3, 4));
        let cached = instance.sample_cached();
        assert_eq!(shown(cached.translation), Some((65536, 6 * 65536)));
        assert_eq!(cached.rotation, Some(part(2, 1)));
    }
}

#[test]
fn channels_that_were_held_back_catch_up() {
    let mut instance = ClipInstance::new("swing".to_string(), swinging_clip(true));
    let only_rotation = TransformTrackPlayer {
        apply_translation: false,
        apply_rotation: true,
        apply_scale: false,
    };
    instance.advance_time_masked(part(3, 8), Some(only_rotation), None);
    instance.advance_time_masked(part(3, 8), Some(only_rotation), None);
    assert_eq!(instance.time, part(3, 4));
    let cached = instance.sample_cached();
    assert_eq!(shown(cached.translation), Some((65536, 6 * 65536)));
    assert_eq!(cached.rotation, Some(part(2, 1)));
}

fn clip_actor(looped: bool) -> ClipActor<Fixed, Vec2<Fixed>, Vec4<Fixed>> {
    ClipActor {
        instance: ClipInstance::new("swing".to_string(), swinging_clip(looped)),
        transform_player: Some(TransformTrackPlayer::default()),
        property_player: None,
        transform: Some(ClipTransform {
            translation: flat(0, 0),
            rotation: Fixed(0),
            scale: flat(1, 1),
        }),
        tint: None,
    }
}

#[test]
fn the_times_of_clips_are_added_up() {
    let ticks = Cell::new(0u64);
    let clock = || {
        ticks.set(ticks.get() + 5);
        ticks.get()
    };
    let mut stopped = clip_actor(true);
    stopped.instance.set_playing(false);
    let mut bare = clip_actor(true);
    bare.transform = None;
    let mut clips = vec![clip_actor(true), stopped, bare];
    let mut recorder = AnimationRecorder::new();
    sys_drive_transform_clips(
        AnimationDelta::Single(part(1, 8)),
        &AnimationTime::new(),
        &mut clips,
        &mut recorder,
        clock,
    );
    assert_eq!(recorder.clips.advance_time_ns, 5);
    assert_eq!(recorder.clips.sample_time_ns, 5);
    assert_eq!(recorder.clips.apply_time_ns, 5);
    assert_eq!(recorder.clips.skipped_clips, 1);
    let placed = clips[0].transform.unwrap();
    assert_eq!(shown(Some(placed.translation)), Some((32768, 65536)));
    assert_eq!(clips[2].instance.time, part(1, 8));

    sys_drive_transform_clips(
        AnimationDelta::Single(part(1, 2)),
        &AnimationTime::new(),
        &mut clips,
        &mut recorder,
        clock,
    );
    assert_eq!(recorder.clips.advance_time_ns, 15);
    assert_eq!(recorder.clips.sample_time_ns, 10);

    sys_drive_transform_clips(
        AnimationDelta::Idle,
        &AnimationTime::new(),
        &mut clips,
        &mut recorder,
        clock,
    );
    assert_eq!(recorder.clips.advance_time_ns, 15);
}

#[test]
fn a_clock_that_goes_back_measures_nothing() {
    let ticks = Cell::new(1000u64);
    let clock = || {
        ticks.set(ticks.get() - 1);
        ticks.get()
    };
    let mut actor = clip_actor(true);
    let (path, spans) = actor.play(part(1, 8), false, &AnimationTime::new(), clock);
    assert_eq!(path, ClipPath::Forward { fast: true, moved: true });
    assert_eq!((spans.advance_ns, spans.sample_ns, spans.apply_ns), (0, 0, 0));
    let mut back = clip_actor(true);
    back.instance.set_time(part(1, 2));
    let (path, spans) =
        back.play(part(0, 1).minus(part(1, 4)), false, &AnimationTime::new(), || 7);
    assert_eq!(path, ClipPath::Backward);
    assert_eq!((spans.advance_ns, spans.sample_ns, spans.apply_ns), (0, 0, 0));
    assert_eq!(back.instance.time, part(1, 4));
}

fn even_animation() -> SpriteAnimation<Fixed> {
    let frames: Vec<SpriteAnimationFrame<Fixed>> = (0..3)
        .map(|i| SpriteAnimationFrame {
            name: text("frame"),
            region: text("frame"),
            region_id: i,
            duration: part(1, 1),
            uv: [Fixed(0); 4],
            events: Arc::new(Vec::new()),
        })
        .collect();
    let hot = frames
        .iter()
        .map(|f| SpriteFrameHotData { region_id: f.region_id, uv: f.uv })
        .collect();
    SpriteAnimation::new(
        text("timeline"),
        Arc::new(frames),
        Arc::new(hot),
        Arc::new(vec![part(1, 1); 3]),
        Arc::new((0..3).map(|i| part(i, 1)).collect()),
        part(3, 1),
        SpriteAnimationLoopMode::Loop,
    )
}

#[test]
fn the_times_of_groups_are_added_up() {
    let ticks = Cell::new(0u64);
    let clock = || {
        ticks.set(ticks.get() + 3);
        ticks.get()
    };
    let animation = even_animation();
    let mut runtime = SpriteAnimatorSoa::new(true, true);
    for i in 0..10 {
        runtime.upsert(Entity::from_bits(i), &animation);
    }
    let mut updates = Vec::new();
    let mut recorder = AnimationRecorder::new();
    recorder.perf = Some(SpriteAnimPerfSample::new());
    let laps = runtime.drive_fast_single_soa(
        part(1, 1),
        false,
        &AnimationTime::new(),
        &mut updates,
        &mut recorder,
        clock,
    );
    assert_eq!((laps.chunk_ns, laps.scalar_ns), (3, 6));
    let sample = recorder.perf.unwrap();
    assert_eq!(sample.simd_lanes_8, 8);
    assert_eq!(sample.simd_tail_scalar, 2);
    assert_eq!(sample.simd_chunk_time_ns, 3);
    assert_eq!(sample.simd_scalar_time_ns, 6);
    assert!(runtime.hot.iter().all(|hot| hot.frame_index == 1));

    let laps = runtime.drive_fast_fixed_soa(
        part(1, 1),
        2,
        false,
        &AnimationTime::new(),
        &mut updates,
        &mut recorder,
        clock,
    );
    assert_eq!((laps.chunk_ns, laps.scalar_ns), (6, 12));
    let sample = recorder.perf.unwrap();
    assert_eq!(sample.simd_chunk_time_ns, 9);
    assert_eq!(sample.simd_scalar_time_ns, 18);
    assert!(runtime.hot.iter().all(|hot| hot.frame_index == 0));
}

#[test]
fn poses_of_a_looped_clip_repeat() {
    let joint = |parent| SkeletonJoint {
        parent,
        rest_translation: Fixed(1),
        rest_rotation: Fixed(0),
        rest_scale: Fixed(65536),
        rest_local: Fixed(1),
        rest_world: Fixed(1),
        inverse_bind: Fixed(7),
    };
    let skeleton = Arc::new(SkeletonAsset { joints: vec![joint(None), joint(Some(0))], roots: vec![0] });
    let key = |time, value| ClipKeyframe { time, value };
    let clip: SkeletalClip<Fixed, Fixed, Fixed> = SkeletalClip {
        name: text("sway"),
        looped: true,
        duration: part(2, 1),
        channels: vec![JointCurve {
            joint_index: 1,
            translation: Some(JointTrack {
                interpolation: ClipInterpolation::Linear,
                keyframes: vec![
                    key(part(0, 1), part(0, 1)),
                    key(part(1, 1), part(4, 1)),
                    key(part(2, 1), part(0, 1)),
                ],
            }),
            rotation: None,
            scale: None,
        }],
    };
    let mut instance = SkeletonInstance::new(text("skeleton"), skeleton);
    instance.evaluate_skeleton_pose(&clip, part(3, 4));
    let first = (instance.local_poses.clone(), instance.model_poses.clone(), instance.palette.clone());
    assert_eq!(first.0[1], part(3, 1));
    for rounds in 1..4 {
        instance.evaluate_skeleton_pose(&clip, part(3, 4).plus(Fixed::from_count(2 * rounds)));
        assert_eq!(first.0, instance.local_poses);
        assert_eq!(first.1, instance.model_poses);
        assert_eq!(first.2, instance.palette);
    }
}

fn timing(label: &str, duration: Fixed) -> GpuPassTiming<Fixed> {
    GpuPassTiming { label: label.to_string(), duration_ms: duration }
}

#[test]
fn a_frame_is_added_to_the_passes_it_timed() {
    let mut gathered = GpuTimingAccumulator::new();
    gathered.record_frame(&vec![timing("mesh", part(3, 1)), timing("sprite", part(1, 1))]);
    gathered.record_frame(&vec![timing("mesh", part(1, 1)), timing("mesh", part(2, 1))]);
    gathered.record_frame(&Vec::new());
    let said = gathered.snapshot(String::new(), String::new(), String::new());
    assert_eq!(said.frame_count, 2);
    assert_eq!(said.passes.len(), 2);
    let (mesh, sprite) = (&said.passes[0], &said.passes[1]);
    assert_eq!(mesh.label, "mesh");
    assert_eq!(mesh.sample_count, 3);
    assert_eq!(mesh.latest_ms, part(2, 1));
    assert_eq!(mesh.max_ms, part(3, 1));
    assert_eq!(mesh.average_ms, part(2, 1));
    assert_eq!(sprite.label, "sprite");
    assert_eq!(sprite.sample_count, 1);
    assert_eq!(sprite.latest_ms, part(1, 1));
}

#[test]
fn a_query_meets_every_box_that_it_overlaps() {
    let bounds =
        WorldBounds { min: flat(-16, -16), max: flat(16, 16), thickness: part(1, 1) };
    let mut boxes = Vec::new();
    for i in 0..60i64 {
        let half = part(1 + (i as usize % 5), 2);
        boxes.push(QuadtreeEntry {
            entity: Entity::from_bits(100 + i as u64),
            center: flat((i * 7) % 27 - 13, (i * 11) % 25 - 12),
            half: Vec2 { x: half, y: half },
        });
    }
    let mut tree = SpatialQuadtree::new(5, 2);
    tree.rebuild(&bounds, &boxes);
    assert!(tree.node_count() > 20);
    let mut hits = SmallList::new();
    for x in -14..14 {
        for y in [-13, -5, 0, 4, 11] {
            let half = Vec2 { x: part(3, 2), y: part(1, 2) };
            tree.query(flat(x, y), half, &mut hits);
            let met = hits.to_vec();
            for (i, bits) in met.iter().enumerate() {
                assert!(!met[..i].contains(bits));
                assert!(boxes.iter().any(|b| b.entity.to_bits() == *bits));
            }
            for b in &boxes {
                if aabb_overlap(flat(x, y), half, b.center, b.half) {
                    assert!(met.contains(&b.entity.to_bits()));
                }
            }
        }
    }
    tree.clear();
    tree.query(flat(0, 0), flat(9, 9), &mut hits);
    assert!(hits.to_vec().is_empty());
}

fn node(entity: u64, has_parent: bool, children: Vec<u64>) -> SceneNode<Fixed, Fixed, Fixed> {
    SceneNode {
        entity: Entity::from_bits(entity),
        has_parent,
        children: children.into_iter().map(Entity::from_bits).collect(),
        plane: Some(Fixed(entity as i64)),
        space: None,
        world: Fixed(0),
    }
}

#[test]
fn a_forest_is_placed_in_whole() {
    let mut rows = vec![
        node(4, true, vec![]),
        node(2, true, vec![4, 5]),
        node(1, false, vec![2, 3]),
        node(5, true, vec![6]),
        node(3, true, vec![]),
        node(6, true, vec![]),
        node(9, false, vec![]),
    ];
    let stats = propagate_scene_transforms(&mut rows, true, &mut TransformPropagationScratch::new());
    assert_eq!(stats.processed_entities, 7);
    assert_eq!(stats.root_entities, 2);
    let worlds: Vec<i64> = rows.iter().map(|r| r.world.0).collect();
    assert_eq!(worlds, vec![1 + 2 + 4, 1 + 2, 1, 1 + 2 + 5, 1 + 3, 1 + 2 + 5 + 6, 9]);

    let mut circle = vec![node(1, false, vec![]), node(2, true, vec![3]), node(3, true, vec![2])];
    let stats = propagate_scene_transforms(&mut circle, true, &mut TransformPropagationScratch::new());
    assert_eq!(stats.processed_entities, 1);
    assert_eq!(circle[2].world, Fixed(3));
}

fn even_actor(entity: u64, fast: bool) -> SpriteActor<Fixed> {
    let sprite =
        Sprite { atlas_key: text("main"), region: text("idle"), region_id: 7, uv: [Fixed(0); 4] };
    let state = SpriteFrameState::from_sprite(&sprite);
    let mut animation = even_animation();
    animation.fast_loop = fast;
    SpriteActor { entity: Entity::from_bits(entity), animation, state, sprite, fast: false }
}

#[test]
fn marked_animators_are_in_the_store() {
    let mut actors = vec![even_actor(1, true), even_actor(2, false), even_actor(3, true)];
    let mut store = SpriteAnimatorSoa::new(true, true);
    sys_flag_fast_sprite_animators(&mut actors, &vec![0, 1, 2, 0], &mut store);
    let marks: Vec<bool> = actors.iter().map(|actor| actor.fast).collect();
    assert_eq!(marks, [true, false, true]);
    assert_eq!(store.len(), 2);
    assert!(store.fixed_point && store.grouped);
    for actor in &actors {
        assert_eq!(store.contains(actor.entity), actor.fast);
    }

    actors[0].animation.fast_loop = false;
    actors[1].animation.fast_loop = true;
    sys_flag_fast_sprite_animators(&mut actors, &vec![0, 0, 1], &mut store);
    assert!(!store.contains(Entity::from_bits(1)));
    assert!(store.contains(Entity::from_bits(2)));
    assert!(store.contains(Entity::from_bits(3)));

    actors.pop();
    sys_cleanup_sprite_animator_soa(&mut store, &actors);
    assert_eq!(store.len(), 1);
    assert!(store.contains(Entity::from_bits(2)));
    assert!(store.fixed_point && store.grouped);
}

#[test]
fn a_step_onto_the_end_of_a_loop_shows_the_end_once() {
    let mut instance = ClipInstance::new("swing".to_string(), swinging_clip(true));
    for _ in 0..4 {
        instance.advance_time(part(1, 4));
    }
    assert_eq!(instance.time, Fixed(0));
    assert_eq!(shown(instance.sample_cached().translation), Some((0, 8 * 65536)));
    assert_eq!(shown(instance.sample_at(instance.time).translation), Some((0, 0)));
    instance.advance_time(part(1, 4));
    let read = instance.sample_at(instance.time);
    assert_eq!(shown(instance.sample_cached().translation), shown(read.translation));
}

fn short_track(first: usize, looped: bool) -> Arc<Clip> {
    let slope = part(4, 1);
    let span = part(3 - first, 4);
    Arc::new(AnimationClip {
        version: 1,
        looped,
        duration: part(1, 1),
        duration_inv: part(1, 1),
        translation: None,
        rotation: Some(ClipTrack {
            interpolation: ClipInterpolation::Linear,
            keyframes: vec![
                ClipKeyframe { time: part(first, 4), value: part(0, 1) },
                ClipKeyframe { time: part(3, 4), value: slope.times(span) },
            ],
            duration: part(3, 4),
            duration_inv: part(4, 3),
            segment_offsets: vec![part(first, 4)],
            segments: vec![ClipSegment { slope, span, inv_span: part(1, 1).over(span) }],
        }),
        scale: None,
        tint: None,
    })
}

fn apart(a: Option<Fixed>, b: Option<Fixed>) -> i64 {
    (a.unwrap().0 - b.unwrap().0).abs()
}

#[test]
fn a_track_that_is_shorter_than_its_clip_goes_its_own_rounds() {
    let mut once = ClipInstance::new("short".to_string(), short_track(0, false));
    for _ in 0..10 {
        once.advance_time(part(1, 8));
        let read = once.sample_at(once.time);
        assert!(apart(once.sample_cached().rotation, read.rotation) <= 4);
    }
    assert_eq!(once.time, part(1, 1));
    assert_eq!(once.sample_cached().rotation, Some(part(3, 1)));

    let mut looped = ClipInstance::new("short".to_string(), short_track(0, true));
    for step in 1..=10 {
        looped.advance_time(part(1, 8));
        let read = looped.sample_at(looped.time);
        if step < 8 {
            assert!(apart(looped.sample_cached().rotation, read.rotation) <= 4);
        }
    }
    assert_eq!(looped.time, part(1, 4));
    assert_eq!(looped.sample_cached().rotation, Some(part(2, 1)));
    assert!(apart(looped.sample_at(looped.time).rotation, Some(part(1, 1))) <= 4);
    let time = looped.time;
    looped.set_time(time);
    assert_eq!(looped.sample_cached().rotation, Some(part(1, 1)));
}

#[test]
fn a_track_that_starts_late_sets_off_at_once() {
    let mut instance = ClipInstance::new("late".to_string(), short_track(1, false));
    instance.advance_time(part(1, 8));
    assert_eq!(instance.sample_at(instance.time).rotation, Some(part(0, 1)));
    assert_eq!(instance.sample_cached().rotation, Some(part(1, 2)));
}

#[test]
fn the_last_unit_of_an_odd_side_is_missed() {
    let raw = |x: i64, y: i64| Vec2 { x: Fixed(x), y: Fixed(y) };
    let bounds = WorldBounds { min: raw(0, 0), max: raw(3, 2), thickness: part(1, 1) };
    let entity = Entity::from_bits(5);
    let boxes = vec![QuadtreeEntry { entity, center: raw(2, 1), half: raw(1, 1) }];
    let mut tree = SpatialQuadtree::new(4, 2);
    tree.rebuild(&bounds, &boxes);
    let mut hits = SmallList::new();
    assert!(aabb_overlap(raw(4, 1), raw(2, 1), boxes[0].center, boxes[0].half));
    tree.query(raw(4, 1), raw(2, 1), &mut hits);
    assert!(hits.to_vec().is_empty());
    tree.query(raw(4, 1), raw(3, 1), &mut hits);
    assert_eq!(hits.to_vec(), vec![5]);
}
