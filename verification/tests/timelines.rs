use kestrel_engine::anim_stats::AnimationRecorder;
use kestrel_engine::animation_time::AnimationTime;
use kestrel_engine::clip::{AnimationClip, ClipInstance, ClipSample, TransformTrackPlayer};
use kestrel_engine::clip_drive::ClipTransform;
use kestrel_engine::clip_edit::{
    apply_clip_sample_immediate, reset_transform_clip, set_transform_clip, set_transform_clip_speed,
    set_transform_clip_time,
};
use kestrel_engine::clip_track::{ClipInterpolation, ClipKeyframe, ClipSegment, ClipTrack};
use kestrel_engine::entity::Entity;
use kestrel_engine::scalar::{Fixed, Scalar};
use kestrel_engine::sprite::{
    Sprite, SpriteAnimation, SpriteAnimationFrame, SpriteAnimationLoopMode, SpriteFrameHotData,
    SpriteFrameState,
};
use kestrel_engine::sprite_loop::{jump, LoopClock};
use kestrel_engine::sprite_soa::SpriteAnimatorSoa;
use kestrel_engine::sprite_systems::SpriteActor;
use kestrel_engine::sprite_timeline::{
    carry_frame, mark_group_dirty, refresh_sprite_animations_for_atlas, reset_sprite_animation,
    seek_sprite_animation_frame, set_sprite_animation_looped, set_sprite_animation_speed,
    set_sprite_animation_start_offset, set_sprite_timeline, AtlasTimeline,
};
use kestrel_engine::text_map::TextMap;
use std::sync::Arc;

fn text(value: &str) -> Arc<String> {
    Arc::new(value.to_string())
}

fn part(a: usize, b: usize) -> Fixed {
    Fixed::from_count(a).over(Fixed::from_count(b))
}

fn second() -> Fixed {
    Fixed::from_count(1)
}

fn frame(name: &str, region_id: u16) -> SpriteAnimationFrame<Fixed> {
    SpriteAnimationFrame {
        name: text(name),
        region: text(name),
        region_id,
        duration: second(),
        uv: [part(region_id as usize, 8); 4],
        events: Arc::new(Vec::new()),
    }
}

fn timeline(names: &[(&str, u16)]) -> AtlasTimeline<Fixed> {
    let frames: Vec<_> = names.iter().map(|(name, id)| frame(name, *id)).collect();
    let hot =
        frames.iter().map(|f| SpriteFrameHotData { region_id: f.region_id, uv: f.uv }).collect();
    AtlasTimeline {
        name: text("walk"),
        durations: Arc::new(vec![second(); names.len()]),
        offsets: Arc::new((0..names.len()).map(Fixed::from_count).collect()),
        total_duration: Fixed::from_count(names.len()),
        loop_mode: SpriteAnimationLoopMode::Loop,
        frames: Arc::new(frames),
        hot_data: Arc::new(hot),
    }
}

fn animation(names: &[(&str, u16)]) -> SpriteAnimation<Fixed> {
    let t = timeline(names);
    SpriteAnimation::new(
        t.name,
        t.frames,
        t.hot_data,
        t.durations,
        t.offsets,
        t.total_duration,
        t.loop_mode,
    )
}

fn sprite() -> Sprite<Fixed> {
    Sprite { atlas_key: text("main"), region: text("idle"), region_id: 7, uv: [part(0, 1); 4] }
}

#[test]
fn seeking_shows_the_frame() {
    let mut walking = animation(&[("a", 1), ("b", 2), ("c", 3)]);
    let mut shown = sprite();
    assert!(seek_sprite_animation_frame(&mut walking, &mut shown, 1));
    assert_eq!(walking.frame_index, 1);
    assert_eq!(*shown.region, "b");
    assert_eq!(shown.region_id, 2);
    assert_eq!(shown.uv, [part(2, 8); 4]);
    assert!(seek_sprite_animation_frame(&mut walking, &mut shown, 99));
    assert_eq!(walking.frame_index, 2);
    assert_eq!(*shown.region, "c");
    assert!(reset_sprite_animation(&mut walking, &mut shown));
    assert_eq!(walking.frame_index, 0);
    assert_eq!(*shown.region, "a");

    let mut empty = animation(&[]);
    let mut kept = sprite();
    assert!(!seek_sprite_animation_frame(&mut empty, &mut kept, 0));
    assert!(!reset_sprite_animation(&mut empty, &mut kept));
    assert_eq!(*kept.region, "idle");
}

#[test]
fn frames_keep_their_place_when_an_atlas_changes() {
    let before = timeline(&[("a", 1), ("b", 2), ("c", 3)]).frames;
    assert_eq!(carry_frame(&before, 1, &before), 1);
    let turned = timeline(&[("c", 3), ("a", 1), ("b", 2)]).frames;
    assert_eq!(carry_frame(&before, 1, &turned), 2);
    let short = timeline(&[("x", 9)]).frames;
    assert!(carry_frame(&before, 2, &short) < 1);
}

#[test]
fn an_atlas_refreshes_its_animations() {
    let mut playing = animation(&[("a", 1), ("b", 2)]);
    let mut shown = sprite();
    seek_sprite_animation_frame(&mut playing, &mut shown, 1);
    let mut other_sprite = sprite();
    other_sprite.atlas_key = text("other");
    let state = |s: &Sprite<Fixed>| SpriteFrameState::from_sprite(s);
    let mut actors = vec![
        SpriteActor {
            entity: Entity::from_bits(1),
            state: state(&shown),
            animation: playing,
            sprite: shown,
            fast: false,
        },
        SpriteActor {
            entity: Entity::from_bits(2),
            state: state(&other_sprite),
            animation: animation(&[("a", 1)]),
            sprite: other_sprite,
            fast: false,
        },
    ];
    let mut timelines = TextMap::new();
    timelines.insert("walk".to_string(), timeline(&[("z", 8), ("a", 4), ("b", 5)]));
    assert_eq!(refresh_sprite_animations_for_atlas(&mut actors, "main", &timelines), 1);
    assert_eq!(actors[0].animation.frames.len(), 3);
    assert_eq!(actors[0].animation.frame_index, 2);
    assert_eq!(actors[1].animation.frames.len(), 1);
    assert_eq!(refresh_sprite_animations_for_atlas(&mut actors, "nowhere", &timelines), 0);
}

#[test]
fn animations_can_be_set_up() {
    let mut recorder = AnimationRecorder::new();
    let mut shown = sprite();
    let made = set_sprite_timeline(
        &mut shown,
        &timeline(&[("a", 1), ("b", 2), ("c", 3)]),
        None,
        Entity::from_bits(4),
        part(1, 2),
        &mut recorder,
    );
    let mut walking = made.unwrap();
    assert_eq!(*shown.region, "a");
    set_sprite_animation_start_offset(
        &mut walking,
        &mut shown,
        part(3, 2),
        Entity::from_bits(4),
        part(1, 2),
        &mut recorder,
    );
    assert_eq!(walking.frame_index, 1);
    assert_eq!(walking.elapsed_in_frame, part(1, 2));
    assert_eq!(*shown.region, "b");
    set_sprite_animation_looped(&mut walking, false);
    assert!(!walking.looped);
    set_sprite_animation_speed(&mut walking, part(2, 1));
    assert_eq!(walking.speed, part(2, 1));
    assert!(walking.playback_rate_dirty);

    let none = set_sprite_timeline(
        &mut shown,
        &timeline(&[]),
        Some(walking),
        Entity::from_bits(4),
        part(1, 2),
        &mut recorder,
    );
    assert!(none.is_none());
}

#[test]
fn groups_are_marked_together() {
    let made = |bits: u64, group: Option<&str>| {
        let mut a = animation(&[("a", 1)]);
        a.group = group.map(str::to_string);
        a.playback_rate_dirty = false;
        SpriteActor {
            entity: Entity::from_bits(bits),
            animation: a,
            state: SpriteFrameState::from_sprite(&sprite()),
            sprite: sprite(),
            fast: false,
        }
    };
    let mut actors = vec![made(1, Some("npc")), made(2, Some("hero")), made(3, None)];
    mark_group_dirty(&mut actors, "npc");
    let dirty: Vec<bool> = actors.iter().map(|a| a.animation.playback_rate_dirty).collect();
    assert_eq!(dirty, [true, false, false]);
}

#[test]
fn walking_and_dividing_agree() {
    for fixed_point in [false, true] {
        for steps in [1usize, 2, 3, 7] {
            let walking = animation(&[("a", 1), ("b", 2), ("c", 3)]);
            let entity = Entity::from_bits(5);
            let mut runtime = SpriteAnimatorSoa::new(fixed_point, false);
            runtime.upsert(entity, &walking);
            let mut updates = Vec::new();
            let mut recorder = AnimationRecorder::new();
            let delta = Fixed::from_count(steps).plus(part(1, 4));
            runtime.drive_fast_single_soa(
                delta,
                false,
                &AnimationTime::new(),
                &mut updates,
                &mut recorder,
                || 0,
            );
            let slot = runtime.slot_index(entity).unwrap();
            assert_eq!(runtime.hot[slot].frame_index as usize, steps % 3);
        }
    }
}

type Clip = AnimationClip<Fixed, Fixed, Fixed>;

fn rising_clip() -> Arc<Clip> {
    Arc::new(AnimationClip {
        version: 1,
        looped: false,
        duration: second(),
        duration_inv: second(),
        translation: Some(ClipTrack {
            interpolation: ClipInterpolation::Linear,
            keyframes: vec![
                ClipKeyframe { time: part(0, 1), value: part(0, 1) },
                ClipKeyframe { time: part(1, 1), value: part(8, 1) },
            ],
            duration: second(),
            duration_inv: second(),
            segment_offsets: vec![part(0, 1)],
            segments: vec![ClipSegment {
                slope: part(8, 1),
                span: second(),
                inv_span: second(),
            }],
        }),
        rotation: None,
        scale: None,
        tint: None,
    })
}

#[test]
fn clips_can_be_set_moved_and_reset() {
    let (mut instance, sample) = set_transform_clip(None, "rise".to_string(), rising_clip());
    assert_eq!(sample.translation, Some(part(0, 1)));
    assert_eq!(sample.rotation, None);
    let sample = set_transform_clip_time(&mut instance, part(1, 4));
    assert_eq!(sample.translation, Some(part(2, 1)));
    assert_eq!(instance.translation.last, Some(part(2, 1)));
    let sample = reset_transform_clip(&mut instance);
    assert_eq!(sample.translation, Some(part(0, 1)));
    set_transform_clip_speed(&mut instance, part(3, 1));
    assert_eq!(instance.speed, part(3, 1));

    let (again, sample) = set_transform_clip(Some(instance), "other".to_string(), rising_clip());
    assert_eq!(again.clip_key, "other");
    assert_eq!(sample.translation, Some(part(0, 1)));
}

#[test]
fn reading_a_clip_twice_gives_the_same() {
    let mut instance = ClipInstance::new("rise".to_string(), rising_clip());
    instance.set_time(part(3, 4));
    assert_eq!(instance.sample().translation, Some(part(6, 1)));
    assert_eq!(instance.sample().translation, Some(part(6, 1)));
    instance.set_time(part(9, 1));
    assert_eq!(instance.sample().translation, Some(part(8, 1)));
    assert!(!instance.playing);
}

#[test]
fn players_hold_samples_back() {
    let sample: ClipSample<Fixed, Fixed, Fixed> = ClipSample {
        translation: Some(part(5, 1)),
        rotation: Some(part(1, 2)),
        scale: None,
        tint: Some(part(1, 4)),
    };
    let mut transform = Some(ClipTransform {
        translation: part(0, 1),
        rotation: part(0, 1),
        scale: part(1, 1),
    });
    let mut tint = None;
    let player = TransformTrackPlayer {
        apply_translation: true,
        apply_rotation: false,
        apply_scale: true,
    };
    apply_clip_sample_immediate(&mut transform, &mut tint, Some(player), None, &sample);
    let written = transform.unwrap();
    assert_eq!(written.translation, part(5, 1));
    assert_eq!(written.rotation, part(0, 1));
    assert_eq!(written.scale, part(1, 1));
}

#[test]
fn whole_rounds_lead_back() {
    let durations = vec![part(1, 4), part(1, 2), part(1, 4)];
    let offsets = vec![part(0, 1), part(1, 4), part(3, 4)];
    let clock = LoopClock {
        frame_index: 1,
        elapsed: part(1, 8),
        duration: part(1, 2),
        offset: part(1, 4),
    };
    for rounds in [1usize, 3, 100] {
        let r = jump(clock, &durations, &offsets, second(), Fixed::from_count(rounds));
        assert_eq!(r.clock.frame_index, 1);
        assert_eq!(r.clock.elapsed, part(1, 8));
        assert!(r.changed && r.wrapped);
    }
    let back = jump(clock, &durations, &offsets, second(), part(0, 1).minus(part(1, 2)));
    assert_eq!(back.clock.frame_index, 2);
    assert_eq!(back.clock.elapsed, part(1, 8));
}
