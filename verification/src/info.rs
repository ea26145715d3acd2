//! What an editor shows of an entity.
use vstd::prelude::*;
use crate::clip::{ClipInstance, PropertyTrackPlayer, TransformTrackPlayer};
use crate::components::{MeshLighting, Transform3D};
use crate::scalar::{Scalar, TrackValue};
use crate::scene::{copied_text, text_of, EntityRow};
use crate::sprite::SpriteAnimation;
use crate::vectors::{Vec2, Vec4};

verus! {

pub struct TransformClipInfo<S, P, C> {
    pub clip_key: String,
    pub playing: bool,
    pub looped: bool,
    pub speed: S,
    pub time: S,
    pub duration: S,
    pub group: Option<String>,
    pub has_translation: bool,
    pub has_rotation: bool,
    pub has_scale: bool,
    pub has_tint: bool,
    pub sample_translation: Option<P>,
    pub sample_rotation: Option<S>,
    pub sample_scale: Option<P>,
    pub sample_tint: Option<C>,
}

pub fn transform_clip_info<S: Scalar + TrackValue<S>, P: TrackValue<S>, C: TrackValue<S>>(
    instance: &ClipInstance<S, P, C>,
) -> (r: TransformClipInfo<S, P, C>)
    ensures
        ({
            let sample = instance.value_at(instance.time);
            &&& r.clip_key@ == instance.clip_key@
            &&& r.playing == instance.playing
            &&& r.looped == instance.looped
            &&& r.speed == instance.speed
            &&& r.time == instance.time
            &&& r.duration == instance.duration_of()
            &&& text_of(r.group) == text_of(instance.group)
            &&& r.has_translation == (instance.clip.translation is Some)
            &&& r.has_rotation == (instance.clip.rotation is Some)
            &&& r.has_scale == (instance.clip.scale is Some)
            &&& r.has_tint == (instance.clip.tint is Some)
            &&& r.sample_translation == sample.translation
            &&& r.sample_rotation == sample.rotation
            &&& r.sample_scale == sample.scale
            &&& r.sample_tint == sample.tint
        }),
{
    let sample = instance.sample();
    TransformClipInfo {
        clip_key: instance.clip_key.as_str().to_owned(),
        playing: instance.playing,
        looped: instance.looped,
        speed: instance.speed,
        time: instance.time,
        duration: instance.duration(),
        group: copied_text(&instance.group),
        has_translation: instance.clip.translation.is_some(),
        has_rotation: instance.clip.rotation.is_some(),
        has_scale: instance.clip.scale.is_some(),
        has_tint: instance.clip.tint.is_some(),
        sample_translation: sample.translation,
        sample_rotation: sample.rotation,
        sample_scale: sample.scale,
        sample_tint: sample.tint,
    }
}

pub struct SpriteAnimationInfo<S> {
    pub timeline: String,
    pub playing: bool,
    pub looped: bool,
    pub loop_mode: String,
    pub speed: S,
    pub frame_index: usize,
    pub frame_count: usize,
    pub frame_elapsed: S,
    pub frame_duration: S,
    pub frame_region: Option<String>,
    pub frame_region_id: Option<u16>,
    pub frame_uv: Option<[S; 4]>,
    pub frame_events: Vec<String>,
    pub start_offset: S,
    pub random_start: bool,
    pub group: Option<String>,
}

/// What is shown of the frame an animation stands on.
pub open spec fn frame_shown<S: Scalar>(a: SpriteAnimation<S>, r: SpriteAnimationInfo<S>) -> bool {
    if a.frame_index < a.frames@.len() {
        let frame = a.frames@[a.frame_index as int];
        &&& r.frame_duration == frame.duration
        &&& text_of(r.frame_region) == Some(frame.region@)
        &&& r.frame_region_id == Some(frame.region_id)
        &&& r.frame_uv == Some(frame.uv)
        &&& r.frame_events@.len() == frame.events@.len()
        &&& forall|i: int|
            0 <= i < frame.events@.len() ==> (#[trigger] r.frame_events@[i])@ == frame.events@[i]@
    } else {
        &&& r.frame_duration == S::zero_spec()
        &&& r.frame_region is None
        &&& r.frame_region_id is None
        &&& r.frame_uv is None
        &&& r.frame_events@.len() == 0
    }
}

pub open spec fn animation_shown<S: Scalar>(a: SpriteAnimation<S>, r: SpriteAnimationInfo<S>) -> bool {
    &&& r.timeline@ == a.timeline@
    &&& r.playing == a.playing
    &&& r.looped == a.looped
    &&& r.loop_mode@ == a.mode.name()
    &&& r.speed == a.speed
    &&& r.frame_index == a.frame_index
    &&& r.frame_count == a.frames@.len()
    &&& r.frame_elapsed == a.elapsed_in_frame
    &&& r.start_offset == a.start_offset
    &&& r.random_start == a.random_start
    &&& text_of(r.group) == text_of(a.group)
    &&& frame_shown(a, r)
}

pub fn sprite_animation_info<S: Scalar>(a: &SpriteAnimation<S>) -> (r: SpriteAnimationInfo<S>)
    ensures
        animation_shown(*a, r),
{
    let mut frame_duration = S::zero();
    let mut frame_region: Option<String> = None;
    let mut frame_region_id: Option<u16> = None;
    let mut frame_uv: Option<[S; 4]> = None;
    let mut frame_events: Vec<String> = Vec::new();
    if a.frame_index < a.frames.len() {
        let frame = &a.frames[a.frame_index];
        frame_duration = frame.duration;
        frame_region = Some(frame.region.as_str().to_owned());
        frame_region_id = Some(frame.region_id);
        frame_uv = Some(frame.uv);
        let mut i: usize = 0;
        while i < frame.events.len()
            invariant
                i <= frame.events@.len(),
                frame_events@.len() == i,
                forall|j: int| 0 <= j < i ==> (#[trigger] frame_events@[j])@ == frame.events@[j]@,
            decreases frame.events@.len() - i,
        {
            frame_events.push(frame.events[i].as_str().to_owned());
            i = i + 1;
        }
    }
    SpriteAnimationInfo {
        timeline: a.timeline.as_str().to_owned(),
        playing: a.playing,
        looped: a.looped,
        loop_mode: a.mode.as_str().to_owned(),
        speed: a.speed,
        frame_index: a.frame_index,
        frame_count: a.frame_count(),
        frame_elapsed: a.elapsed_in_frame,
        frame_duration,
        frame_region,
        frame_region_id,
        frame_uv,
        frame_events,
        start_offset: a.start_offset,
        random_start: a.random_start,
        group: copied_text(&a.group),
    }
}

pub struct SpriteInfo<S> {
    pub atlas: String,
    pub region: String,
    pub animation: Option<SpriteAnimationInfo<S>>,
}

pub struct MeshInfo<S> {
    pub key: String,
    pub material: Option<String>,
    pub lighting: MeshLighting<S>,
}

pub struct EntityInfo<S, P, C> {
    pub scene_id: String,
    pub translation: Vec2<S>,
    pub rotation: S,
    pub scale: Vec2<S>,
    pub velocity: Option<Vec2<S>>,
    pub transform_clip: Option<TransformClipInfo<S, P, C>>,
    pub transform_tracks: Option<TransformTrackPlayer>,
    pub property_tracks: Option<PropertyTrackPlayer>,
    pub sprite: Option<SpriteInfo<S>>,
    pub mesh: Option<MeshInfo<S>>,
    pub mesh_transform: Option<Transform3D<S>>,
    pub tint: Option<Vec4<S>>,
}

/// Shows an entity; `translation` is its place in the world, and the clip and its players are
/// handed through.
pub fn entity_info<S: Scalar, P, C>(
    row: &EntityRow<S>,
    translation: Vec2<S>,
    transform_clip: Option<TransformClipInfo<S, P, C>>,
    transform_tracks: Option<TransformTrackPlayer>,
    property_tracks: Option<PropertyTrackPlayer>,
) -> (r: EntityInfo<S, P, C>)
    ensures
        r.scene_id@ == row.scene_id@,
        r.translation == translation,
        r.rotation == row.transform.rotation,
        r.scale == row.transform.scale,
        r.velocity == row.velocity,
        r.transform_clip == transform_clip,
        r.transform_tracks == transform_tracks,
        r.property_tracks == property_tracks,
        match row.sprite {
            Some(sprite) => {
                &&& r.sprite is Some
                &&& r.sprite->0.atlas@ == sprite.atlas_key@
                &&& r.sprite->0.region@ == sprite.region@
                &&& match row.animation {
                    Some(a) => r.sprite->0.animation is Some && animation_shown(
                        a,
                        r.sprite->0.animation->0,
                    ),
                    None => r.sprite->0.animation is None,
                }
            },
            None => r.sprite is None,
        },
        match row.mesh {
            Some(key) => {
                &&& r.mesh is Some
                &&& r.mesh->0.key@ == key@
                &&& match row.surface {
                    Some(s) => text_of(r.mesh->0.material) == text_of(s.material)
                        && r.mesh->0.lighting == s.lighting,
                    None => r.mesh->0.material is None && r.mesh->0.lighting == MeshLighting::<
                        S,
                    >::plain(),
                }
            },
            None => r.mesh is None,
        },
        r.mesh_transform == row.transform3d,
        r.tint == row.tint,
{
    let sprite = match &row.sprite {
        Some(sprite) => Some(
            SpriteInfo {
                atlas: sprite.atlas_key.as_str().to_owned(),
                region: sprite.region.as_str().to_owned(),
                animation: match &row.animation {
                    Some(a) => Some(sprite_animation_info(a)),
                    None => None,
                },
            },
        ),
        None => None,
    };
    let mesh = match &row.mesh {
        Some(key) => {
            let (material, lighting) = match &row.surface {
                Some(s) => (copied_text(&s.material), s.lighting),
                None => (None, MeshLighting::default()),
            };
            Some(MeshInfo { key: key.as_str().to_owned(), material, lighting })
        },
        None => None,
    };
    EntityInfo {
        scene_id: row.scene_id.as_str().to_owned(),
        translation,
        rotation: row.transform.rotation,
        scale: row.transform.scale,
        velocity: row.velocity,
        transform_clip,
        transform_tracks,
        property_tracks,
        sprite,
        mesh,
        mesh_transform: row.transform3d,
        tint: row.tint,
    }
}

} // verus!
