//! Scenes: entities as they are written down, and what becomes of them in the world.
use std::sync::Arc;
use vstd::prelude::*;
use crate::anim_stats::AnimationRecorder;
use crate::components::{
    EmitterSnapshot, MeshLighting, MeshSurface, OrbitController, ParticleEmitter, Transform,
    Transform3D,
};
use crate::entity::Entity;
use crate::events::GameEvent;
use crate::scalar::Scalar;
use crate::sprite::{Sprite, SpriteAnimation, SpriteAnimationLoopMode};
use crate::sprite_timeline::{
    set_sprite_animation_looped, set_sprite_animation_random_start, set_sprite_animation_speed,
    set_sprite_animation_start_offset, set_sprite_timeline, AtlasTimeline, Stage,
};
use crate::text::{join3, to_decimal};
use crate::text_map::same_text;
use crate::vectors::{Vec2, Vec3, Vec4};

verus! {

pub struct SpriteAnimationData<S> {
    pub timeline: String,
    pub speed: S,
    pub looped: bool,
    pub playing: bool,
    pub loop_mode: Option<String>,
    pub start_offset: S,
    pub random_start: bool,
    pub group: Option<String>,
}

pub struct SpriteData<S> {
    pub atlas: String,
    pub region: String,
    pub animation: Option<SpriteAnimationData<S>>,
}

pub struct MeshData<S> {
    pub key: String,
    pub material: Option<String>,
    pub lighting: MeshLighting<S>,
}

/// An entity of a scene.
pub struct SceneEntity<S> {
    pub id: String,
    pub name: Option<String>,
    pub transform: Transform<S>,
    pub sprite: Option<SpriteData<S>>,
    pub transform3d: Option<Transform3D<S>>,
    pub mesh: Option<MeshData<S>>,
    pub tint: Option<Vec4<S>>,
    pub velocity: Option<Vec2<S>>,
    pub mass: Option<S>,
    /// Half the extent of the box it collides with.
    pub collider: Option<Vec2<S>>,
    pub particle_emitter: Option<EmitterSnapshot<S>>,
    pub orbit: Option<OrbitController<S>>,
    pub spin: Option<S>,
    pub parent_id: Option<String>,
    pub parent: Option<usize>,
}

/// A region of an atlas as it is known to be.
#[derive(Clone)]
pub struct AtlasRegion<S> {
    pub name: Arc<String>,
    pub id: u16,
    pub uv: [S; 4],
}

/// What particles of a scene's emitters look like.
pub struct EmitterLook {
    pub atlas: Arc<String>,
    pub region: Arc<String>,
}

/// A body that physics has to hold for an entity.
#[derive(Clone, Copy)]
pub struct BodyPlan<S> {
    pub translation: Vec2<S>,
    pub half: Vec2<S>,
    pub mass: S,
    pub velocity: Vec2<S>,
}

/// What an entity of the world is made of.
pub struct EntityRow<S> {
    pub entity: Entity,
    pub scene_id: String,
    pub transform: Transform<S>,
    pub transform3d: Option<Transform3D<S>>,
    pub spin: Option<S>,
    pub tint: Option<Vec4<S>>,
    pub velocity: Option<Vec2<S>>,
    pub mass: Option<S>,
    pub half: Option<Vec2<S>>,
    pub force: Option<Vec2<S>>,
    pub emitter: Option<ParticleEmitter<S>>,
    pub orbit: Option<OrbitController<S>>,
    pub sprite: Option<Sprite<S>>,
    pub animation: Option<SpriteAnimation<S>>,
    pub mesh: Option<String>,
    pub surface: Option<MeshSurface<S>>,
    pub body: Option<BodyPlan<S>>,
}

/// Why a scene cannot be loaded.
pub enum SceneError {
    UnknownRegion { atlas: String, region: String },
    ParentOutOfBounds { index: usize },
}

impl SceneError {
    pub open spec fn text(self) -> Seq<char> {
        match self {
            SceneError::UnknownRegion { atlas, region } =>
                "Scene references unknown atlas region '"@ + atlas@ + ":"@ + region@ + "'"@,
            SceneError::ParentOutOfBounds { index } => "Scene entity parent index "@
                + crate::text::decimal(index as int) + " out of bounds"@,
        }
    }

    pub fn message(&self) -> (r: String)
        ensures
            r@ == self.text(),
    {
        match self {
            SceneError::UnknownRegion { atlas, region } => {
                let head = join3(
                    "Scene references unknown atlas region '",
                    atlas.as_str(),
                    ":",
                );
                join3(head.as_str(), region.as_str(), "'")
            },
            SceneError::ParentOutOfBounds { index } => join3(
                "Scene entity parent index ",
                to_decimal(*index as u64).as_str(),
                " out of bounds",
            ),
        }
    }
}

impl<S: Scalar> SceneEntity<S> {
    /// A collider gives the entity a body; its mass is one unless the scene says otherwise.
    pub open spec fn body_planned(self) -> Option<BodyPlan<S>> {
        match self.collider {
            Some(half) => Some(
                BodyPlan {
                    translation: self.transform.translation,
                    half,
                    mass: match self.mass {
                        Some(m) => m,
                        None => S::one_spec(),
                    },
                    velocity: match self.velocity {
                        Some(v) => v,
                        None => Vec2::zero_spec(),
                    },
                },
            ),
            None => None,
        }
    }

    pub fn plan_body(&self) -> (r: Option<BodyPlan<S>>)
        ensures
            r == self.body_planned(),
    {
        match self.collider {
            Some(half) => Some(
                BodyPlan {
                    translation: self.transform.translation,
                    half,
                    mass: match self.mass {
                        Some(m) => m,
                        None => S::one(),
                    },
                    velocity: match self.velocity {
                        Some(v) => v,
                        None => Vec2::zero(),
                    },
                },
            ),
            None => None,
        }
    }

    /// Where the entity lies in space: as the scene says, or, for a mesh, above its place in the
    /// plane.
    pub open spec fn placed_in_space(self) -> Option<Transform3D<S>> {
        if self.transform3d is Some {
            self.transform3d
        } else if self.mesh is Some {
            Some(
                Transform3D::placed(
                    Vec3 {
                        x: self.transform.translation.x,
                        y: self.transform.translation.y,
                        z: S::zero_spec(),
                    },
                ),
            )
        } else {
            None
        }
    }

    fn place_in_space(&self) -> (r: Option<Transform3D<S>>)
        ensures
            r == self.placed_in_space(),
    {
        if self.transform3d.is_some() {
            self.transform3d
        } else if self.mesh.is_some() {
            Some(
                Transform3D::at(
                    Vec3 {
                        x: self.transform.translation.x,
                        y: self.transform.translation.y,
                        z: S::zero(),
                    },
                ),
            )
        } else {
            None
        }
    }
}

/// The emitter that a scene describes, with nothing gathered yet.
pub open spec fn emitter_of<S: Scalar>(data: EmitterSnapshot<S>, look: EmitterLook) -> ParticleEmitter<S> {
    ParticleEmitter {
        rate: data.rate,
        spread: data.spread,
        speed: data.speed,
        lifetime: data.lifetime,
        accumulator: S::zero_spec(),
        start_color: data.start_color,
        end_color: data.end_color,
        start_size: data.start_size,
        end_size: data.end_size,
        atlas: look.atlas,
        region: look.region,
        source: None,
        trail: None,
    }
}

pub fn make_emitter<S: Scalar>(data: &EmitterSnapshot<S>, look: &EmitterLook) -> (r: ParticleEmitter<S>)
    ensures
        r == emitter_of(*data, *look),
{
    ParticleEmitter {
        rate: data.rate,
        spread: data.spread,
        speed: data.speed,
        lifetime: data.lifetime,
        accumulator: S::zero(),
        start_color: data.start_color,
        end_color: data.end_color,
        start_size: data.start_size,
        end_size: data.end_size,
        atlas: look.atlas.clone(),
        region: look.region.clone(),
        source: None,
        trail: None,
    }
}

/// The mode that a scene's animation asks for: by name, or by whether it loops.
#[verifier::opaque]
pub open spec fn mode_set<S: Scalar>(
    a: SpriteAnimation<S>,
    loop_mode: Option<Seq<char>>,
    looped: bool,
) -> SpriteAnimation<S> {
    let moded = |mode: SpriteAnimationLoopMode|
        (SpriteAnimation {
            mode,
            looped: mode.repeats(),
            forward: true,
            prev_forward: true,
            fast_loop: !a.has_events && mode is Loop,
            ..a
        }).start_events_refreshed();
    match loop_mode {
        Some(name) => moded(SpriteAnimationLoopMode::named(name)),
        None => if a.mode.repeats() == looped {
            SpriteAnimation { looped, ..a }
        } else {
            moded(crate::sprite_timeline::mode_for_looping(a.mode, looped))
        },
    }
}

pub open spec fn text_of(text: Option<String>) -> Option<Seq<char>> {
    match text {
        Some(t) => Some(t@),
        None => None,
    }
}

fn set_mode_from<S: Scalar>(animation: &mut SpriteAnimation<S>, loop_mode: &Option<String>, looped: bool)
    requires
        old(animation).wf(),
    ensures
        *final(animation) == mode_set(*old(animation), text_of(*loop_mode), looped),
        final(animation).wf(),
{
    reveal(mode_set);
    match loop_mode {
        Some(name) => {
            let mode = SpriteAnimationLoopMode::from_str(name.as_str());
            animation.set_mode(mode);
        },
        None => {
            set_sprite_animation_looped(animation, looped);
        },
    }
}

/// A sprite whose animation has the speed and starts where a scene says.
#[verifier::opaque]
pub open spec fn start_applied<S: Scalar>(
    stage: Stage<S>,
    data: SpriteAnimationData<S>,
    entity: Entity,
    random_fraction: S,
) -> Stage<S> {
    let sped = Stage {
        animation: if data.speed.finite_spec() {
            SpriteAnimation { speed: data.speed, playback_rate_dirty: true, ..stage.animation }
        } else {
            stage.animation
        },
        ..stage
    };
    let offset = Stage {
        animation: SpriteAnimation {
            start_offset: data.start_offset.larger_spec(S::zero_spec()),
            ..sped.animation
        },
        ..sped
    }.phased(entity, random_fraction);
    Stage {
        animation: SpriteAnimation { random_start: data.random_start, ..offset.animation },
        ..offset
    }.phased(entity, random_fraction)
}

/// An animation with the group and the mode a scene says, that plays if it says so.
#[verifier::opaque]
pub open spec fn play_applied<S: Scalar>(a: SpriteAnimation<S>, data: SpriteAnimationData<S>) -> SpriteAnimation<
    S,
> {
    let grouped = SpriteAnimation { group: data.group, playback_rate_dirty: true, ..a };
    let moded = mode_set(grouped, text_of(data.loop_mode), data.looped);
    SpriteAnimation { playing: data.playing && moded.frames@.len() > 0, ..moded }
}

/// A sprite that plays what a scene says, the way the scene says.
pub open spec fn settings_applied<S: Scalar>(
    stage: Stage<S>,
    data: SpriteAnimationData<S>,
    entity: Entity,
    random_fraction: S,
) -> Stage<S> {
    let started = start_applied(stage, data, entity, random_fraction);
    Stage { animation: play_applied(started.animation, data), ..started }
}

fn apply_start<S: Scalar>(
    sprite: &mut Sprite<S>,
    animation: &mut SpriteAnimation<S>,
    data: &SpriteAnimationData<S>,
    entity: Entity,
    random_fraction: S,
    recorder: &mut AnimationRecorder<S>,
)
    requires
        old(animation).wf(),
    ensures
        final(animation).wf(),
        final(sprite).atlas_key == old(sprite).atlas_key,
        (Stage { sprite: *final(sprite), animation: *final(animation), recorder: *final(recorder) })
            == start_applied(
            Stage { sprite: *old(sprite), animation: *old(animation), recorder: *old(recorder) },
            *data,
            entity,
            random_fraction,
        ),
{
    reveal(start_applied);
    set_sprite_animation_speed(animation, data.speed);
    set_sprite_animation_start_offset(
        animation,
        sprite,
        data.start_offset,
        entity,
        random_fraction,
        recorder,
    );
    set_sprite_animation_random_start(
        animation,
        sprite,
        data.random_start,
        entity,
        random_fraction,
        recorder,
    );
}

fn apply_play<S: Scalar>(animation: &mut SpriteAnimation<S>, data: SpriteAnimationData<S>)
    requires
        old(animation).wf(),
    ensures
        final(animation).wf(),
        *final(animation) == play_applied(*old(animation), data),
{
    reveal(play_applied);
    let SpriteAnimationData { group, loop_mode, looped, playing, .. } = data;
    animation.set_group(group);
    set_mode_from(animation, &loop_mode, looped);
    animation.set_playing(playing);
}

fn apply_settings<S: Scalar>(
    sprite: &mut Sprite<S>,
    animation: SpriteAnimation<S>,
    data: SpriteAnimationData<S>,
    entity: Entity,
    random_fraction: S,
    recorder: &mut AnimationRecorder<S>,
) -> (r: SpriteAnimation<S>)
    requires
        animation.wf(),
    ensures
        r.wf(),
        final(sprite).atlas_key == old(sprite).atlas_key,
        (Stage { sprite: *final(sprite), animation: r, recorder: *final(recorder) })
            == settings_applied(
            Stage { sprite: *old(sprite), animation, recorder: *old(recorder) },
            data,
            entity,
            random_fraction,
        ),
{
    let mut animation = animation;
    apply_start(sprite, &mut animation, &data, entity, random_fraction, recorder);
    apply_play(&mut animation, data);
    animation
}

/// The sprite and the animation of an entity of a scene. An animation whose timeline is not there,
/// or has no frames, is left out.
pub open spec fn sprite_spawned<S: Scalar>(
    data: SpriteData<S>,
    region: AtlasRegion<S>,
    timeline: Option<AtlasTimeline<S>>,
    recorder: AnimationRecorder<S>,
    entity: Entity,
    random_fraction: S,
    sprite: Sprite<S>,
    animation: Option<SpriteAnimation<S>>,
    recorder_after: AnimationRecorder<S>,
) -> bool {
    let bare = Sprite {
        atlas_key: sprite.atlas_key,
        region: region.name,
        region_id: region.id,
        uv: region.uv,
    };
    &&& sprite.atlas_key@ == data.atlas@
    &&& if data.animation is Some && timeline is Some && timeline->0.frames@.len() > 0 {
        animation is Some && (Stage {
            sprite,
            animation: animation->0,
            recorder: recorder_after,
        }) == settings_applied(
            crate::sprite_timeline::timeline_set(
                bare,
                timeline->0,
                None,
                recorder,
                entity,
                random_fraction,
            ),
            data.animation->0,
            entity,
            random_fraction,
        )
    } else {
        animation is None && sprite == bare && recorder_after == recorder
    }
}

fn spawn_sprite<S: Scalar>(
    data: SpriteData<S>,
    region: &AtlasRegion<S>,
    timeline: &Option<AtlasTimeline<S>>,
    entity: Entity,
    random_fraction: S,
    recorder: &mut AnimationRecorder<S>,
) -> (r: (Sprite<S>, Option<SpriteAnimation<S>>))
    requires
        timeline is Some ==> timeline->0.wf(),
    ensures
        sprite_spawned(
            data,
            *region,
            *timeline,
            *old(recorder),
            entity,
            random_fraction,
            r.0,
            r.1,
            *final(recorder),
        ),
{
    let SpriteData { atlas, region: _, animation: wanted } = data;
    let mut sprite = Sprite {
        atlas_key: Arc::new(atlas),
        region: region.name.clone(),
        region_id: region.id,
        uv: region.uv,
    };
    match (wanted, timeline) {
        (Some(settings), Some(definition)) => {
            match set_sprite_timeline(
                &mut sprite,
                definition,
                None,
                entity,
                random_fraction,
                recorder,
            ) {
                Some(animation) => {
                    let animation = apply_settings(
                        &mut sprite,
                        animation,
                        settings,
                        entity,
                        random_fraction,
                        recorder,
                    );
                    (sprite, Some(animation))
                },
                None => (sprite, None),
            }
        },
        _ => (sprite, None),
    }
}

/// What an entity of a scene becomes in the world; sprite and animation apart.
pub open spec fn row_spawned<S: Scalar>(
    data: SceneEntity<S>,
    look: EmitterLook,
    entity: Entity,
    r: EntityRow<S>,
) -> bool {
    &&& r.entity == entity
    &&& r.scene_id == data.id
    &&& r.transform == data.transform
    &&& r.transform3d == data.placed_in_space()
    &&& r.spin == data.spin
    &&& r.tint == data.tint
    &&& r.velocity == data.velocity
    &&& r.mass == data.mass
    &&& r.half == data.collider
    &&& r.force == (if data.collider is Some {
        Some(Vec2::<S>::zero_spec())
    } else {
        None
    })
    &&& r.emitter == (match data.particle_emitter {
        Some(e) => Some(emitter_of(e, look)),
        None => None,
    })
    &&& r.orbit == data.orbit
    &&& match data.mesh {
        Some(m) => r.mesh == Some(m.key) && r.surface == Some(
            MeshSurface { material: m.material, lighting: m.lighting },
        ),
        None => r.mesh is None && r.surface is None,
    }
    &&& r.body == data.body_planned()
}

/// What an entity of a scene becomes in the world, sprite and animation with it. `before` and
/// `after` are what was recorded.
pub open spec fn entity_spawned<S: Scalar>(
    data: SceneEntity<S>,
    look: EmitterLook,
    region: Option<AtlasRegion<S>>,
    timeline: Option<AtlasTimeline<S>>,
    entity: Entity,
    random_fraction: S,
    before: AnimationRecorder<S>,
    row: EntityRow<S>,
    after: AnimationRecorder<S>,
) -> bool {
    &&& row_spawned(data, look, entity, row)
    &&& match data.sprite {
        Some(sprite) => region is Some && row.sprite is Some && sprite_spawned(
            sprite,
            region->0,
            timeline,
            before,
            entity,
            random_fraction,
            row.sprite->0,
            row.animation,
            after,
        ),
        None => row.sprite is None && row.animation is None && after == before,
    }
}

/// Makes an entity of the world of an entity of a scene. `region` is what the atlas knows of the
/// sprite's region, `timeline` the timeline that its animation names.
pub fn spawn_scene_entity<S: Scalar>(
    data: SceneEntity<S>,
    look: &EmitterLook,
    region: &Option<AtlasRegion<S>>,
    timeline: &Option<AtlasTimeline<S>>,
    entity: Entity,
    random_fraction: S,
    recorder: &mut AnimationRecorder<S>,
) -> (r: Result<EntityRow<S>, SceneError>)
    requires
        timeline is Some ==> timeline->0.wf(),
    ensures
        match r {
            Ok(row) => entity_spawned(
                data,
                *look,
                *region,
                *timeline,
                entity,
                random_fraction,
                *old(recorder),
                row,
                *final(recorder),
            ),
            Err(e) => {
                &&& data.sprite is Some && region is None
                &&& e == (SceneError::UnknownRegion {
                    atlas: data.sprite->0.atlas,
                    region: data.sprite->0.region,
                })
                &&& *final(recorder) == *old(recorder)
            },
        },
{
    let body = data.plan_body();
    let transform3d = data.place_in_space();
    let SceneEntity {
        id,
        name: _,
        transform,
        sprite: sprite_data,
        transform3d: _,
        mesh,
        tint,
        velocity,
        mass,
        collider,
        particle_emitter,
        orbit,
        spin,
        parent_id: _,
        parent: _,
    } = data;
    let mut sprite: Option<Sprite<S>> = None;
    let mut animation: Option<SpriteAnimation<S>> = None;
    if let Some(wanted) = sprite_data {
        match region {
            None => {
                let SpriteData { atlas, region: name, animation: _ } = wanted;
                return Err(SceneError::UnknownRegion { atlas, region: name });
            },
            Some(known) => {
                let (made, plays) = spawn_sprite(
                    wanted,
                    known,
                    timeline,
                    entity,
                    random_fraction,
                    recorder,
                );
                sprite = Some(made);
                animation = plays;
            },
        }
    }
    let (mesh_key, surface) = match mesh {
        Some(m) => {
            let MeshData { key, material, lighting } = m;
            (Some(key), Some(MeshSurface { material, lighting }))
        },
        None => (None, None),
    };
    let emitter = match particle_emitter {
        Some(e) => Some(make_emitter(&e, look)),
        None => None,
    };
    let force = if collider.is_some() {
        Some(Vec2::zero())
    } else {
        None
    };
    Ok(
        EntityRow {
            entity,
            scene_id: id,
            transform,
            transform3d,
            spin,
            tint,
            velocity,
            mass,
            half: collider,
            force,
            emitter,
            orbit,
            sprite,
            animation,
            mesh: mesh_key,
            surface,
            body,
        },
    )
}

/// The event that a sprite has come into the world.
pub open spec fn spawn_event<S>(row: EntityRow<S>) -> Option<GameEvent<S>> {
    match row.sprite {
        Some(sprite) => Some(
            GameEvent::SpriteSpawned {
                entity: row.entity,
                atlas: sprite.atlas_key,
                region: sprite.region,
            },
        ),
        None => None,
    }
}

pub fn announce<S>(row: &EntityRow<S>) -> (r: Option<GameEvent<S>>)
    ensures
        r == spawn_event(*row),
{
    match &row.sprite {
        Some(sprite) => Some(
            GameEvent::SpriteSpawned {
                entity: row.entity,
                atlas: sprite.atlas_key.clone(),
                region: sprite.region.clone(),
            },
        ),
        None => None,
    }
}

/// How an animation is written down.
pub open spec fn animation_described<S: Scalar>(a: SpriteAnimation<S>, d: SpriteAnimationData<S>) -> bool {
    &&& d.timeline@ == a.timeline@
    &&& d.speed == a.speed
    &&& d.looped == a.looped
    &&& d.playing == a.playing
    &&& text_of(d.loop_mode) == Some(a.mode.name())
    &&& d.start_offset == a.start_offset
    &&& d.random_start == a.random_start
    &&& text_of(d.group) == a.group_name()
}

fn describe_animation<S: Scalar>(a: &SpriteAnimation<S>) -> (r: SpriteAnimationData<S>)
    ensures
        animation_described(*a, r),
{
    SpriteAnimationData {
        timeline: a.timeline.as_str().to_owned(),
        speed: a.speed,
        looped: a.looped,
        playing: a.playing,
        loop_mode: Some(a.mode.as_str().to_owned()),
        start_offset: a.start_offset,
        random_start: a.random_start,
        group: match a.group() {
            Some(name) => Some(name.to_owned()),
            None => None,
        },
    }
}

/// How an entity of the world is written down; parent and identity apart.
pub open spec fn row_described<S: Scalar>(row: EntityRow<S>, d: SceneEntity<S>) -> bool {
    &&& d.name is None
    &&& d.transform == row.transform
    &&& d.transform3d == row.transform3d
    &&& match row.sprite {
        Some(sprite) => {
            &&& d.sprite is Some
            &&& d.sprite->0.atlas@ == sprite.atlas_key@
            &&& d.sprite->0.region@ == sprite.region@
            &&& match row.animation {
                Some(a) => d.sprite->0.animation is Some && animation_described(
                    a,
                    d.sprite->0.animation->0,
                ),
                None => d.sprite->0.animation is None,
            }
        },
        None => d.sprite is None,
    }
    &&& match row.mesh {
        Some(key) => {
            &&& d.mesh is Some
            &&& d.mesh->0.key@ == key@
            &&& match row.surface {
                Some(s) => text_of(d.mesh->0.material) == text_of(s.material)
                    && d.mesh->0.lighting == s.lighting,
                None => d.mesh->0.material is None && d.mesh->0.lighting == MeshLighting::<
                    S,
                >::plain(),
            }
        },
        None => d.mesh is None,
    }
    &&& d.tint == row.tint
    &&& d.velocity == row.velocity
    &&& d.mass == row.mass
    &&& d.collider == row.half
    &&& d.particle_emitter == (match row.emitter {
        Some(e) => Some(e.shown()),
        None => None,
    })
    &&& d.orbit == row.orbit
    &&& d.spin == row.spin
}

pub(crate) fn copied_text(text: &Option<String>) -> (r: Option<String>)
    ensures
        text_of(r) == text_of(*text),
{
    match text {
        Some(t) => Some(t.as_str().to_owned()),
        None => None,
    }
}

/// Writes an entity of the world down.
pub fn describe_entity<S: Scalar>(
    row: &EntityRow<S>,
    parent: Option<usize>,
    parent_id: Option<String>,
) -> (r: SceneEntity<S>)
    ensures
        row_described(*row, r),
        r.id@ == row.scene_id@,
        r.parent == parent,
        r.parent_id == parent_id,
{
    let sprite = match &row.sprite {
        Some(sprite) => Some(
            SpriteData {
                atlas: sprite.atlas_key.as_str().to_owned(),
                region: sprite.region.as_str().to_owned(),
                animation: match &row.animation {
                    Some(a) => Some(describe_animation(a)),
                    None => None,
                },
            },
        ),
        None => None,
    };
    let mesh = match &row.mesh {
        Some(key) => {
            let (material, lighting) = match &row.surface {
                Some(s) => (copied_text(&s.material), s.lighting),
                None => (None, MeshLighting::default()),
            };
            Some(MeshData { key: key.as_str().to_owned(), material, lighting })
        },
        None => None,
    };
    let particle_emitter = match &row.emitter {
        Some(e) => Some(e.emitter_snapshot()),
        None => None,
    };
    SceneEntity {
        id: row.scene_id.as_str().to_owned(),
        name: None,
        transform: row.transform,
        sprite,
        transform3d: row.transform3d,
        mesh,
        tint: row.tint,
        velocity: row.velocity,
        mass: row.mass,
        collider: row.half,
        particle_emitter,
        orbit: row.orbit,
        spin: row.spin,
        parent_id,
        parent,
    }
}

/// Two scene entities that say the same of everything but sprite, place in space, name and parent.
pub open spec fn same_plain_parts<S: Scalar>(a: SceneEntity<S>, b: SceneEntity<S>) -> bool {
    &&& a.id@ == b.id@
    &&& a.transform == b.transform
    &&& a.tint == b.tint
    &&& a.velocity == b.velocity
    &&& a.mass == b.mass
    &&& a.collider == b.collider
    &&& a.particle_emitter == b.particle_emitter
    &&& a.orbit == b.orbit
    &&& a.spin == b.spin
    &&& match a.mesh {
        Some(m) => b.mesh is Some && m.key@ == b.mesh->0.key@ && text_of(m.material) == text_of(
            b.mesh->0.material,
        ) && m.lighting == b.mesh->0.lighting,
        None => b.mesh is None,
    }
}

/// Writing down an entity that came from a scene gives back what the scene said of it; and of its
/// place in space too, unless a mesh had none.
pub proof fn law_scene_entity_round_trip<S: Scalar>(
    data: SceneEntity<S>,
    look: EmitterLook,
    entity: Entity,
    row: EntityRow<S>,
    written: SceneEntity<S>,
)
    requires
        row_spawned(data, look, entity, row),
        row_described(row, written),
        written.id@ == row.scene_id@,
    ensures
        same_plain_parts(data, written),
        data.transform3d is Some || data.mesh is None ==> written.transform3d == data.transform3d,
{
}

/// The mode that an animation is written down with is the mode it has when it is read again.
pub proof fn law_written_mode_is_read_back<S: Scalar>(
    a: SpriteAnimation<S>,
    d: SpriteAnimationData<S>,
    b: SpriteAnimation<S>,
)
    requires
        animation_described(a, d),
    ensures
        mode_set(b, text_of(d.loop_mode), d.looped).mode == a.mode,
{
    reveal(mode_set);
    crate::sprite::law_loop_mode_round_trip(a.mode);
}

/// The place of the last entity of that identity among the first `n`, or -1.
pub open spec fn place_of_id<S>(entities: Seq<SceneEntity<S>>, id: Seq<char>, n: int) -> int
    decreases n,
{
    if n <= 0 {
        -1
    } else if entities[n - 1].id@ == id {
        n - 1
    } else {
        place_of_id(entities, id, n - 1)
    }
}

fn find_id<S>(entities: &Vec<SceneEntity<S>>, id: &str) -> (r: Option<usize>)
    ensures
        match r {
            Some(i) => i == place_of_id(entities@, id@, entities@.len() as int) && i
                < entities@.len(),
            None => place_of_id(entities@, id@, entities@.len() as int) == -1,
        },
{
    let mut n: usize = entities.len();
    while n > 0
        invariant
            n <= entities@.len(),
            place_of_id(entities@, id@, entities@.len() as int) == place_of_id(
                entities@,
                id@,
                n as int,
            ),
        decreases n,
    {
        if same_text(entities[n - 1].id.as_str(), id) {
            return Some(n - 1);
        }
        n = n - 1;
    }
    None
}

/// The place of an entity's parent: by identity where that is known, else by index, else none. An
/// index that is not there is kept, so that it can be told from none.
pub open spec fn parent_place<S>(entities: Seq<SceneEntity<S>>, i: int) -> Option<usize> {
    let by_id = match entities[i].parent_id {
        Some(id) => place_of_id(entities, id@, entities.len() as int),
        None => -1,
    };
    if by_id >= 0 {
        Some(by_id as usize)
    } else {
        entities[i].parent
    }
}

fn find_parent<S>(entities: &Vec<SceneEntity<S>>, i: usize) -> (r: Option<usize>)
    requires
        i < entities@.len(),
    ensures
        r == parent_place(entities@, i as int),
{
    if let Some(id) = &entities[i].parent_id {
        if let Some(place) = find_id(entities, id.as_str()) {
            return Some(place);
        }
    }
    entities[i].parent
}

pub open spec fn parent_missing<S>(entities: Seq<SceneEntity<S>>, i: int) -> bool {
    parent_place(entities, i) is Some && parent_place(entities, i)->0 >= entities.len()
}

/// The place of every entity's parent, for a scene that is loaded: a parent that is not there is
/// an error.
pub fn resolve_parents<S>(entities: &Vec<SceneEntity<S>>) -> (r: Result<
    Vec<Option<usize>>,
    SceneError,
>)
    ensures
        match r {
            Ok(parents) => {
                &&& parents@.len() == entities@.len()
                &&& forall|i: int|
                    0 <= i < entities@.len() ==> #[trigger] parents@[i] == parent_place(
                        entities@,
                        i,
                    ) && !parent_missing(entities@, i)
            },
            Err(e) => exists|i: int|
                0 <= i < entities@.len() && #[trigger] parent_missing(entities@, i) && e == (
                SceneError::ParentOutOfBounds { index: parent_place(entities@, i)->0 })
                    && forall|j: int| 0 <= j < i ==> !#[trigger] parent_missing(entities@, j),
        },
{
    let mut parents: Vec<Option<usize>> = Vec::new();
    let mut i: usize = 0;
    while i < entities.len()
        invariant
            i <= entities@.len(),
            parents@.len() == i,
            forall|j: int|
                0 <= j < i ==> #[trigger] parents@[j] == parent_place(entities@, j)
                    && !parent_missing(entities@, j),
            forall|j: int| 0 <= j < i ==> !#[trigger] parent_missing(entities@, j),
        decreases entities@.len() - i,
    {
        let parent = find_parent(entities, i);
        if let Some(index) = parent {
            if index >= entities.len() {
                assert(parent_missing(entities@, i as int));
                return Err(SceneError::ParentOutOfBounds { index });
            }
        }
        assert(!parent_missing(entities@, i as int));
        parents.push(parent);
        i = i + 1;
    }
    Ok(parents)
}

/// The place of every entity's parent, for a prefab: a parent that is not there is none.
pub fn resolve_prefab_parents<S>(entities: &Vec<SceneEntity<S>>) -> (parents: Vec<Option<usize>>)
    ensures
        parents@.len() == entities@.len(),
        forall|i: int|
            0 <= i < entities@.len() ==> #[trigger] parents@[i] == (if parent_missing(
                entities@,
                i,
            ) {
                None
            } else {
                parent_place(entities@, i)
            }),
{
    let mut parents: Vec<Option<usize>> = Vec::new();
    let mut i: usize = 0;
    while i < entities.len()
        invariant
            i <= entities@.len(),
            parents@.len() == i,
            forall|j: int|
                0 <= j < i ==> #[trigger] parents@[j] == (if parent_missing(entities@, j) {
                    None
                } else {
                    parent_place(entities@, j)
                }),
        decreases entities@.len() - i,
    {
        let parent = match find_parent(entities, i) {
            Some(index) => if index < entities.len() {
                Some(index)
            } else {
                None
            },
            None => None,
        };
        parents.push(parent);
        i = i + 1;
    }
    parents
}

} // verus!
