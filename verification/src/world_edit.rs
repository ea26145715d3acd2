//! Entities that are made by hand, and changes to what an entity is made of.
use rand::Rng;
use std::sync::Arc;
use vstd::prelude::*;
use crate::components::{
    EmitterSnapshot, MeshLighting, MeshSurface, OrbitController, Transform, Transform3D,
};
use crate::entity::Entity;
use crate::motion::{
    box_area, follow_scale, follow_translation, rescale, rescaled_half,
};
use crate::scalar::{ratio, ratio_spec, Scalar};
use crate::scene::{
    emitter_of, make_emitter, AtlasRegion, BodyPlan, EmitterLook, EntityRow,
};
use crate::sprite::{Sprite, UNINITIALIZED_REGION};
use crate::text::join3;
use crate::text_map::same_text;
use crate::vectors::{Vec2, Vec3, Vec4};

verus! {

/// An entity that has nothing but a place.
pub open spec fn is_bare<S>(
    row: EntityRow<S>,
    entity: Entity,
    scene_id: String,
    transform: Transform<S>,
) -> bool {
    &&& row.entity == entity
    &&& row.scene_id == scene_id
    &&& row.transform == transform
    &&& row.transform3d is None && row.spin is None && row.tint is None && row.velocity is None
    &&& row.mass is None && row.half is None && row.force is None && row.emitter is None
    &&& row.orbit is None && row.sprite is None && row.animation is None && row.mesh is None
    &&& row.surface is None && row.body is None
}

pub fn bare_row<S>(entity: Entity, scene_id: String, transform: Transform<S>) -> (r: EntityRow<S>)
    ensures
        is_bare(r, entity, scene_id, transform),
{
    EntityRow {
        entity,
        scene_id,
        transform,
        transform3d: None,
        spin: None,
        tint: None,
        velocity: None,
        mass: None,
        half: None,
        force: None,
        emitter: None,
        orbit: None,
        sprite: None,
        animation: None,
        mesh: None,
        surface: None,
        body: None,
    }
}

/// At a place, not turned, as large in both directions.
pub open spec fn square_at<S: Scalar>(translation: Vec2<S>, side: S) -> Transform<S> {
    Transform { translation, rotation: S::zero_spec(), scale: Vec2 { x: side, y: side } }
}

fn place_square<S: Scalar>(translation: Vec2<S>, side: S) -> (r: Transform<S>)
    ensures
        r == square_at(translation, side),
{
    Transform { translation, rotation: S::zero(), scale: Vec2 { x: side, y: side } }
}

/// A sprite of which nothing is known yet but its names.
pub open spec fn sprite_named<S: Scalar>(s: Sprite<S>, atlas: Seq<char>, region: Seq<char>) -> bool {
    &&& s.atlas_key@ == atlas
    &&& s.region@ == region
    &&& s.region_id == UNINITIALIZED_REGION
    &&& s.uv@ == seq![S::zero_spec(), S::zero_spec(), S::zero_spec(), S::zero_spec()]
}

fn name_sprite<S: Scalar>(atlas: &str, region: &str) -> (r: Sprite<S>)
    ensures
        sprite_named(r, atlas@, region@),
{
    Sprite::uninitialized(Arc::new(atlas.to_owned()), Arc::new(region.to_owned()))
}

/// Whether an entity moves as a body: with its extent, its mass and its velocity.
pub open spec fn is_body<S: Scalar>(
    row: EntityRow<S>,
    translation: Vec2<S>,
    half: Vec2<S>,
    mass: S,
    velocity: Vec2<S>,
) -> bool {
    &&& row.half == Some(half)
    &&& row.velocity == Some(velocity)
    &&& row.force == Some(Vec2::<S>::zero_spec())
    &&& row.mass == Some(mass)
    &&& row.body == Some(BodyPlan { translation, half, mass, velocity })
}

/// An entity that is a sprite and a body, and nothing else.
pub open spec fn is_sprite_body<S: Scalar>(
    row: EntityRow<S>,
    entity: Entity,
    scene_id: String,
    translation: Vec2<S>,
    side: S,
    mass: S,
    velocity: Vec2<S>,
) -> bool {
    let half = side.times_spec(ratio_spec(1, 2));
    &&& row.entity == entity
    &&& row.scene_id == scene_id
    &&& row.transform == square_at(translation, side)
    &&& is_body(row, translation, Vec2 { x: half, y: half }, mass, velocity)
    &&& row.transform3d is None && row.spin is None && row.tint is None && row.emitter is None
    &&& row.orbit is None && row.animation is None && row.mesh is None && row.surface is None
}

fn sprite_body<S: Scalar>(
    entity: Entity,
    scene_id: String,
    sprite: Sprite<S>,
    translation: Vec2<S>,
    side: S,
    mass: S,
    velocity: Vec2<S>,
) -> (r: EntityRow<S>)
    ensures
        is_sprite_body(r, entity, scene_id, translation, side, mass, velocity),
        r.sprite == Some(sprite),
{
    let k = side.times(ratio(1, 2));
    let half = Vec2 { x: k, y: k };
    let mut row = bare_row(entity, scene_id, place_square(translation, side));
    row.sprite = Some(sprite);
    row.half = Some(half);
    row.velocity = Some(velocity);
    row.force = Some(Vec2::zero());
    row.mass = Some(mass);
    row.body = Some(BodyPlan { translation, half, mass, velocity });
    row
}

/// The regions that a burst chooses from.
pub open spec fn burst_region(choice: int) -> Seq<char> {
    if choice == 0 {
        "checker"@
    } else if choice == 1 {
        "redorb"@
    } else if choice == 2 {
        "bluebox"@
    } else {
        "green"@
    }
}

/// One sprite of a burst. `choice` is the number of its region, `heading` a random velocity that is
/// slowed down.
pub fn spawn_burst_sprite<S: Scalar>(
    entity: Entity,
    scene_id: String,
    choice: usize,
    position: Vec2<S>,
    heading: Vec2<S>,
    side: S,
) -> (r: EntityRow<S>)
    requires
        choice < 4,
    ensures
        is_sprite_body(
            r,
            entity,
            scene_id,
            position,
            side,
            ratio_spec(4, 5),
            heading.scaled_spec(ratio_spec(3, 5)),
        ),
        r.sprite is Some && sprite_named(r.sprite->0, "main"@, burst_region(choice as int)),
{
    let region = if choice == 0 {
        "checker"
    } else if choice == 1 {
        "redorb"
    } else if choice == 2 {
        "bluebox"
    } else {
        "green"
    };
    sprite_body(
        entity,
        scene_id,
        name_sprite("main", region),
        position,
        side,
        ratio(4, 5),
        heading.scaled(ratio(3, 5)),
    )
}

/// `rand::Rng::gen_range` over the whole numbers below `n`, asked of the generator of the thread:
/// any of them can come out, and none other.
#[verifier::external_body]
fn random_below(n: usize) -> (r: usize)
    requires
        n > 0,
    ensures
        r < n,
{
    rand::thread_rng().gen_range(0..n)
}

/// One sprite of a burst with a region that is left to chance.
pub fn spawn_burst_of_chance<S: Scalar>(
    entity: Entity,
    scene_id: String,
    position: Vec2<S>,
    heading: Vec2<S>,
    side: S,
) -> (r: EntityRow<S>)
    ensures
        is_sprite_body(
            r,
            entity,
            scene_id,
            position,
            side,
            ratio_spec(4, 5),
            heading.scaled_spec(ratio_spec(3, 5)),
        ),
        exists|choice: int|
            0 <= choice < 4 && r.sprite is Some && sprite_named(
                r.sprite->0,
                "main"@,
                #[trigger] burst_region(choice),
            ),
{
    let choice: usize = random_below(4);
    let row = spawn_burst_sprite(entity, scene_id, choice, position, heading, side);
    assert(sprite_named(row.sprite->0, "main"@, burst_region(choice as int)));
    row
}

/// Why a script cannot have its sprite.
pub enum ScriptError {
    ScaleNotPositive,
    UnknownRegion { atlas: String, region: String },
}

impl ScriptError {
    pub open spec fn text(self) -> Seq<char> {
        match self {
            ScriptError::ScaleNotPositive => "Scale must be positive"@,
            ScriptError::UnknownRegion { atlas, region } => "Region '"@ + region@
                + "' not found in atlas '"@ + (atlas@ + "'"@ + ""@),
        }
    }

    pub fn message(&self) -> (r: String)
        ensures
            r@ == self.text(),
    {
        match self {
            ScriptError::ScaleNotPositive => "Scale must be positive".to_owned(),
            ScriptError::UnknownRegion { atlas, region } => {
                let end = join3(atlas.as_str(), "'", "");
                let start = join3("Region '", region.as_str(), "' not found in atlas '");
                let r = join3(start.as_str(), end.as_str(), "");
                proof {
                    reveal_strlit("");
                    assert(r@ =~= self.text());
                }
                r
            },
        }
    }
}

/// A sprite for a script. `known` is what the atlas knows of the region.
pub fn spawn_scripted_sprite<S: Scalar>(
    entity: Entity,
    scene_id: String,
    atlas: &str,
    region: &str,
    known: &Option<AtlasRegion<S>>,
    position: Vec2<S>,
    scale: S,
    velocity: Vec2<S>,
) -> (r: Result<EntityRow<S>, ScriptError>)
    ensures
        match r {
            Ok(row) => {
                &&& !scale.le_spec(S::zero_spec()) && known is Some
                &&& is_sprite_body(
                    row,
                    entity,
                    scene_id,
                    position,
                    scale,
                    S::one_spec(),
                    velocity,
                )
                &&& row.sprite is Some
                &&& row.sprite->0.atlas_key@ == atlas@
                &&& row.sprite->0.region == known->0.name
                &&& row.sprite->0.region_id == known->0.id
                &&& row.sprite->0.uv == known->0.uv
            },
            Err(ScriptError::ScaleNotPositive) => scale.le_spec(S::zero_spec()),
            Err(ScriptError::UnknownRegion { atlas: a, region: g }) => {
                &&& !scale.le_spec(S::zero_spec()) && known is None
                &&& a@ == atlas@ && g@ == region@
            },
        },
{
    if scale.le(S::zero()) {
        return Err(ScriptError::ScaleNotPositive);
    }
    match known {
        None => Err(
            ScriptError::UnknownRegion { atlas: atlas.to_owned(), region: region.to_owned() },
        ),
        Some(known) => {
            let sprite = Sprite {
                atlas_key: Arc::new(atlas.to_owned()),
                region: known.name.clone(),
                region_id: known.id,
                uv: known.uv,
            };
            Ok(sprite_body(entity, scene_id, sprite, position, scale, S::one(), velocity))
        },
    }
}

/// A mesh in space, with a plain surface.
pub fn spawn_mesh_entity<S: Scalar>(
    entity: Entity,
    scene_id: String,
    mesh_key: &str,
    translation: Vec3<S>,
    scale: Vec3<S>,
) -> (r: EntityRow<S>)
    ensures
        ({
            let plain = EntityRow { transform3d: None, mesh: None, surface: None, ..r };
            is_bare(plain, entity, scene_id, Transform::<S>::rest())
        }),
        r.transform3d == Some(Transform3D { scale, ..Transform3D::placed(translation) }),
        r.mesh is Some && r.mesh->0@ == mesh_key@,
        r.surface is Some && r.surface->0.material is None && r.surface->0.lighting
            == MeshLighting::<S>::plain(),
{
    let mut placed = Transform3D::at(translation);
    placed.scale = scale;
    let mut row = bare_row(entity, scene_id, Transform::default());
    row.transform3d = Some(placed);
    row.mesh = Some(mesh_key.to_owned());
    row.surface = Some(MeshSurface { material: None, lighting: MeshLighting::default() });
    row
}

/// An emitter at a place, as large as its particles are at first.
pub fn spawn_particle_emitter<S: Scalar>(
    entity: Entity,
    scene_id: String,
    position: Vec2<S>,
    settings: &EmitterSnapshot<S>,
    look: &EmitterLook,
) -> (r: EntityRow<S>)
    ensures
        is_bare(
            EntityRow { emitter: None, ..r },
            entity,
            scene_id,
            square_at(position, settings.start_size),
        ),
        r.emitter == Some(emitter_of(*settings, *look)),
{
    let mut row = bare_row(entity, scene_id, place_square(position, settings.start_size));
    row.emitter = Some(make_emitter(settings, look));
    row
}

/// The names that the entities of the demo scene get.
pub struct DemoName {
    pub entity: Entity,
    pub scene_id: String,
}

pub open spec fn demo_region(i: int) -> Seq<char> {
    if i == 0 {
        "checker"@
    } else if i == 1 {
        "redorb"@
    } else {
        "bluebox"@
    }
}

pub open spec fn demo_translation<S: Scalar>(i: int) -> Vec2<S> {
    let far = ratio_spec::<S>(9, 10);
    if i == 0 {
        Vec2 { x: far.negated_spec(), y: S::zero_spec() }
    } else if i == 1 {
        Vec2 { x: far, y: S::zero_spec() }
    } else {
        Vec2 { x: S::zero_spec(), y: far }
    }
}

pub open spec fn demo_side<S: Scalar>(i: int) -> S {
    if i == 0 {
        ratio_spec(7, 10)
    } else if i == 1 {
        ratio_spec(6, 10)
    } else {
        ratio_spec(5, 10)
    }
}

pub open spec fn demo_half<S: Scalar>(i: int) -> S {
    if i == 0 {
        ratio_spec(35, 100)
    } else if i == 1 {
        ratio_spec(30, 100)
    } else {
        ratio_spec(25, 100)
    }
}

pub open spec fn demo_speed<S: Scalar>(i: int) -> S {
    if i == 0 {
        ratio_spec(9, 10)
    } else if i == 1 {
        ratio_spec(95, 100)
    } else {
        ratio_spec(105, 100)
    }
}

/// The `i`-th of the three bodies that circle in the demo scene.
pub open spec fn is_demo_body<S: Scalar>(row: EntityRow<S>, name: DemoName, i: int) -> bool {
    let at = demo_translation::<S>(i);
    let half = demo_half::<S>(i);
    let velocity = (Vec2 { x: at.y.negated_spec(), y: at.x }).scaled_spec(demo_speed(i));
    &&& row.entity == name.entity
    &&& row.scene_id == name.scene_id
    &&& row.transform == square_at(at, demo_side(i))
    &&& is_body(row, at, Vec2 { x: half, y: half }, S::one_spec(), velocity)
    &&& row.orbit == Some(
        OrbitController { center: Vec2::<S>::zero_spec(), angular_speed: demo_speed(i) },
    )
    &&& row.sprite is Some && sprite_named(row.sprite->0, "main"@, demo_region(i))
    &&& row.transform3d is None && row.spin is None && row.tint is None && row.emitter is None
    &&& row.animation is None && row.mesh is None && row.surface is None
}

fn demo_body<S: Scalar>(name: DemoName, i: usize) -> (r: EntityRow<S>)
    requires
        i < 3,
    ensures
        is_demo_body(r, name, i as int),
{
    let far: S = ratio(9, 10);
    let (region, at, side, k, speed) = if i == 0 {
        (
            "checker",
            Vec2 { x: far.negated(), y: S::zero() },
            ratio::<S>(7, 10),
            ratio::<S>(35, 100),
            ratio::<S>(9, 10),
        )
    } else if i == 1 {
        (
            "redorb",
            Vec2 { x: far, y: S::zero() },
            ratio::<S>(6, 10),
            ratio::<S>(30, 100),
            ratio::<S>(95, 100),
        )
    } else {
        (
            "bluebox",
            Vec2 { x: S::zero(), y: far },
            ratio::<S>(5, 10),
            ratio::<S>(25, 100),
            ratio::<S>(105, 100),
        )
    };
    let half = Vec2 { x: k, y: k };
    let velocity = Vec2 { x: at.y.negated(), y: at.x }.scaled(speed);
    let mut row = bare_row(name.entity, name.scene_id, place_square(at, side));
    row.sprite = Some(name_sprite("main", region));
    row.half = Some(half);
    row.velocity = Some(velocity);
    row.force = Some(Vec2::zero());
    row.mass = Some(S::one());
    row.body = Some(BodyPlan { translation: at, half, mass: S::one(), velocity });
    row.orbit = Some(OrbitController { center: Vec2::zero(), angular_speed: speed });
    row
}

/// What turns in the middle of the demo scene.
pub open spec fn is_demo_root<S: Scalar>(row: EntityRow<S>, name: DemoName) -> bool {
    &&& row.entity == name.entity
    &&& row.scene_id == name.scene_id
    &&& row.transform == square_at(Vec2::<S>::zero_spec(), ratio_spec(4, 5))
    &&& row.spin == Some(ratio_spec::<S>(6, 5))
    &&& row.tint == Some(
        Vec4 {
            x: S::one_spec(),
            y: S::one_spec(),
            z: S::one_spec(),
            w: ratio_spec::<S>(1, 5),
        },
    )
    &&& row.sprite is Some && sprite_named(row.sprite->0, "main"@, "checker"@)
    &&& row.transform3d is None && row.velocity is None && row.mass is None && row.half is None
    &&& row.force is None && row.emitter is None && row.orbit is None && row.animation is None
    &&& row.mesh is None && row.surface is None && row.body is None
}

/// The emitter of the demo scene; `spread` is a sixth of a turn.
pub open spec fn demo_emitter<S: Scalar>(spread: S) -> EmitterSnapshot<S> {
    EmitterSnapshot {
        rate: S::from_count_spec(35),
        spread,
        speed: ratio_spec(8, 10),
        lifetime: ratio_spec(12, 10),
        start_color: Vec4 {
            x: S::one_spec(),
            y: ratio_spec(8, 10),
            z: ratio_spec(2, 10),
            w: ratio_spec(8, 10),
        },
        end_color: Vec4 {
            x: S::one_spec(),
            y: ratio_spec(2, 10),
            z: ratio_spec(2, 10),
            w: S::zero_spec(),
        },
        start_size: ratio_spec(18, 100),
        end_size: ratio_spec(5, 100),
    }
}

/// The demo scene: what turns in the middle, three bodies that circle it, and an emitter, which
/// comes last.
pub fn spawn_demo_scene<S: Scalar>(
    root: DemoName,
    first: DemoName,
    second: DemoName,
    third: DemoName,
    emitter: DemoName,
    spread: S,
    look: &EmitterLook,
) -> (r: Vec<EntityRow<S>>)
    ensures
        r@.len() == 5,
        is_demo_root(r@[0], root),
        is_demo_body(r@[1], first, 0),
        is_demo_body(r@[2], second, 1),
        is_demo_body(r@[3], third, 2),
        is_bare(
            EntityRow { emitter: None, ..r@[4] },
            emitter.entity,
            emitter.scene_id,
            square_at(Vec2::<S>::zero_spec(), ratio_spec(18, 100)),
        ),
        r@[4].emitter == Some(emitter_of(demo_emitter(spread), *look)),
{
    let one = S::one();
    let mut middle = bare_row(root.entity, root.scene_id, place_square(Vec2::zero(), ratio(4, 5)));
    middle.spin = Some(ratio(6, 5));
    middle.sprite = Some(name_sprite("main", "checker"));
    middle.tint = Some(Vec4 { x: one, y: one, z: one, w: ratio(1, 5) });
    let settings = EmitterSnapshot {
        rate: S::from_count(35),
        spread,
        speed: ratio(8, 10),
        lifetime: ratio(12, 10),
        start_color: Vec4 { x: one, y: ratio(8, 10), z: ratio(2, 10), w: ratio(8, 10) },
        end_color: Vec4 { x: one, y: ratio(2, 10), z: ratio(2, 10), w: S::zero() },
        start_size: ratio(18, 100),
        end_size: ratio(5, 100),
    };
    let source = spawn_particle_emitter(
        emitter.entity,
        emitter.scene_id,
        Vec2::zero(),
        &settings,
        look,
    );
    let mut rows: Vec<EntityRow<S>> = Vec::new();
    rows.push(middle);
    rows.push(demo_body(first, 0));
    rows.push(demo_body(second, 1));
    rows.push(demo_body(third, 2));
    rows.push(source);
    rows
}

impl<S: Scalar> EntityRow<S> {
    /// Moves an entity and its body.
    pub fn set_translation(&mut self, translation: Vec2<S>)
        ensures
            *final(self) == (EntityRow {
                transform: Transform { translation, ..old(self).transform },
                body: match old(self).body {
                    Some(b) => Some(BodyPlan { translation, ..b }),
                    None => None,
                },
                ..*old(self)
            }),
    {
        self.transform.translation = translation;
        if let Some(b) = self.body {
            self.body = Some(
                BodyPlan { translation, half: b.half, mass: b.mass, velocity: b.velocity },
            );
        }
    }

    pub fn set_rotation(&mut self, rotation: S)
        ensures
            *final(self) == (EntityRow {
                transform: Transform { rotation, ..old(self).transform },
                ..*old(self)
            }),
    {
        self.transform.rotation = rotation;
    }

    /// The mass that a new scale gives, where there is one.
    pub open spec fn mass_scaled(self, scale: Vec2<S>) -> Option<S> {
        let now = rescaled_half(scale);
        let before = box_area(
            match self.half {
                Some(h) => h,
                None => now,
            },
        );
        if self.mass is Some && S::zero_spec().lt_spec(before) {
            Some(
                self.mass->0.times_spec(box_area(now).over_spec(before)).larger_spec(
                    ratio_spec(1, 100),
                ),
            )
        } else {
            self.mass
        }
    }

    /// An entity with a new scale: its extent follows, and its mass in proportion to its area.
    pub open spec fn scaled(self, scale: Vec2<S>) -> Self {
        let now = rescaled_half(scale);
        EntityRow {
            transform: Transform { scale, ..self.transform },
            half: match self.half {
                Some(_) => Some(now),
                None => None,
            },
            mass: self.mass_scaled(scale),
            body: match self.body {
                Some(b) => Some(
                    BodyPlan {
                        half: now,
                        mass: match self.mass_scaled(scale) {
                            Some(m) => m,
                            None => b.mass,
                        },
                        ..b
                    },
                ),
                None => None,
            },
            ..self
        }
    }

    /// Scales an entity; refused where the scale is zero in one direction.
    pub fn set_scale(&mut self, scale: Vec2<S>) -> (r: bool)
        ensures
            r == !(scale.x.magnitude_spec().lt_spec(S::machine_epsilon_spec())
                || scale.y.magnitude_spec().lt_spec(S::machine_epsilon_spec())),
            *final(self) == (if r {
                old(self).scaled(scale)
            } else {
                *old(self)
            }),
    {
        let made = match rescale(scale, self.half, self.mass) {
            Some(made) => made,
            None => return false,
        };
        self.transform.scale = scale;
        if self.half.is_some() {
            self.half = Some(made.half);
        }
        if made.mass.is_some() {
            self.mass = made.mass;
        }
        if let Some(b) = self.body {
            let mass = match self.mass {
                Some(m) => m,
                None => b.mass,
            };
            self.body = Some(
                BodyPlan {
                    translation: b.translation,
                    half: made.half,
                    mass,
                    velocity: b.velocity,
                },
            );
        }
        true
    }

    /// An entity with another velocity, if it or its body has one.
    pub open spec fn sped(self, velocity: Vec2<S>) -> Self {
        EntityRow {
            velocity: match self.velocity {
                Some(_) => Some(velocity),
                None => None,
            },
            body: match self.body {
                Some(b) => Some(BodyPlan { velocity, ..b }),
                None => None,
            },
            ..self
        }
    }

    /// Sets the velocity of what has one; whether it or a body has.
    pub fn set_velocity(&mut self, velocity: Vec2<S>) -> (r: bool)
        ensures
            *final(self) == old(self).sped(velocity),
            r == (old(self).velocity is Some || old(self).body is Some),
            *final(self) == (EntityRow {
                velocity: match old(self).velocity {
                    Some(_) => Some(velocity),
                    None => None,
                },
                body: match old(self).body {
                    Some(b) => Some(BodyPlan { velocity, ..b }),
                    None => None,
                },
                ..*old(self)
            }),
    {
        let mut updated = false;
        if self.velocity.is_some() {
            self.velocity = Some(velocity);
            updated = true;
        }
        if let Some(b) = self.body {
            self.body = Some(
                BodyPlan { translation: b.translation, half: b.half, mass: b.mass, velocity },
            );
            updated = true;
        }
        updated
    }

    /// Gives an entity a tint or takes it away; whether anything was to be done.
    pub fn set_tint(&mut self, color: Option<Vec4<S>>) -> (r: bool)
        ensures
            *final(self) == (EntityRow { tint: color, ..*old(self) }),
            r == (color is Some || old(self).tint is Some),
    {
        let had = self.tint.is_some();
        self.tint = color;
        color.is_some() || had
    }

    /// Shows the tint that its tracks are to move: white where there is none yet.
    pub fn prepare_tint_track(&mut self, apply_tint: bool)
        ensures
            *final(self) == (EntityRow {
                tint: if apply_tint && old(self).tint is None {
                    Some(
                        Vec4 {
                            x: S::one_spec(),
                            y: S::one_spec(),
                            z: S::one_spec(),
                            w: S::one_spec(),
                        },
                    )
                } else {
                    old(self).tint
                },
                ..*old(self)
            }),
    {
        if apply_tint && self.tint.is_none() {
            let one = S::one();
            self.tint = Some(Vec4 { x: one, y: one, z: one, w: one });
        }
    }

    /// A mesh at another place.
    pub open spec fn mesh_moved(self, translation: Vec3<S>) -> Self {
        match self.transform3d {
            Some(t) => EntityRow {
                transform3d: Some(Transform3D { translation, ..t }),
                transform: Transform {
                    translation: Vec2 { x: translation.x, y: translation.y },
                    ..self.transform
                },
                ..self
            },
            None => self,
        }
    }

    /// Moves a mesh in space, and its place in the plane with it.
    pub fn set_mesh_translation(&mut self, translation: Vec3<S>) -> (r: bool)
        ensures
            *final(self) == old(self).mesh_moved(translation),
            r == old(self).transform3d is Some,
            *final(self) == (match old(self).transform3d {
                Some(t) => EntityRow {
                    transform3d: Some(Transform3D { translation, ..t }),
                    transform: Transform {
                        translation: Vec2 { x: translation.x, y: translation.y },
                        ..old(self).transform
                    },
                    ..*old(self)
                },
                None => *old(self),
            }),
    {
        match self.transform3d {
            Some(t) => {
                self.transform3d = Some(
                    Transform3D { translation, rotation: t.rotation, scale: t.scale },
                );
                follow_translation(&mut self.transform, translation);
                true
            },
            None => false,
        }
    }

    /// Turns a mesh in space.
    pub fn set_mesh_rotation(&mut self, rotation: Vec4<S>) -> (r: bool)
        ensures
            r == old(self).transform3d is Some,
            *final(self) == (match old(self).transform3d {
                Some(t) => EntityRow {
                    transform3d: Some(Transform3D { rotation, ..t }),
                    ..*old(self)
                },
                None => *old(self),
            }),
    {
        match self.transform3d {
            Some(t) => {
                self.transform3d = Some(
                    Transform3D { translation: t.translation, rotation, scale: t.scale },
                );
                true
            },
            None => false,
        }
    }

    /// A mesh of another size.
    pub open spec fn mesh_scaled(self, scale: Vec3<S>) -> Self {
        match self.transform3d {
            Some(t) => EntityRow {
                transform3d: Some(Transform3D { scale, ..t }),
                transform: Transform {
                    scale: Vec2 { x: scale.x, y: scale.y },
                    ..self.transform
                },
                ..self
            },
            None => self,
        }
    }

    /// Scales a mesh in space, and its extent in the plane with it.
    pub fn set_mesh_scale(&mut self, scale: Vec3<S>) -> (r: bool)
        ensures
            *final(self) == old(self).mesh_scaled(scale),
            r == old(self).transform3d is Some,
            *final(self) == (match old(self).transform3d {
                Some(t) => EntityRow {
                    transform3d: Some(Transform3D { scale, ..t }),
                    transform: Transform {
                        scale: Vec2 { x: scale.x, y: scale.y },
                        ..old(self).transform
                    },
                    ..*old(self)
                },
                None => *old(self),
            }),
    {
        match self.transform3d {
            Some(t) => {
                self.transform3d = Some(
                    Transform3D { translation: t.translation, rotation: t.rotation, scale },
                );
                follow_scale(&mut self.transform, scale);
                true
            },
            None => false,
        }
    }

    /// Shows another region of the same atlas, without animation; refused where there is no sprite
    /// or the atlas does not know the region.
    pub fn set_sprite_region(&mut self, known: &Option<AtlasRegion<S>>) -> (r: bool)
        ensures
            r == (old(self).sprite is Some && known is Some),
            *final(self) == (if r {
                EntityRow {
                    sprite: Some(
                        Sprite {
                            region: known->0.name,
                            region_id: known->0.id,
                            uv: known->0.uv,
                            ..old(self).sprite->0
                        },
                    ),
                    animation: None,
                    ..*old(self)
                }
            } else {
                *old(self)
            }),
    {
        match (&mut self.sprite, known) {
            (Some(sprite), Some(known)) => {
                sprite.region = known.name.clone();
                sprite.region_id = known.id;
                sprite.uv = known.uv;
                self.animation = None;
                true
            },
            _ => false,
        }
    }

    /// Shows another atlas, without animation: the region of the same name if the atlas has it
    /// (`same`), else its first one (`first`). Refused where there is no sprite or no such region.
    pub fn set_sprite_atlas(
        &mut self,
        atlas_key: &str,
        same: &Option<AtlasRegion<S>>,
        first: &Option<AtlasRegion<S>>,
    ) -> (r: bool)
        ensures
            r == (old(self).sprite is Some && (same is Some || first is Some)),
            if r {
                let known = if same is Some {
                    same->0
                } else {
                    first->0
                };
                &&& final(self).sprite is Some
                &&& final(self).sprite->0.atlas_key@ == atlas_key@
                &&& final(self).sprite->0.region == known.name
                &&& final(self).sprite->0.region_id == known.id
                &&& final(self).sprite->0.uv == known.uv
                &&& *final(self) == (EntityRow {
                    sprite: final(self).sprite,
                    animation: None,
                    ..*old(self)
                })
            } else {
                *final(self) == *old(self)
            },
    {
        if self.sprite.is_none() {
            return false;
        }
        let known = match same {
            Some(known) => known,
            None => match first {
                Some(known) => known,
                None => return false,
            },
        };
        self.sprite = Some(
            Sprite {
                atlas_key: Arc::new(atlas_key.to_owned()),
                region: known.name.clone(),
                region_id: known.id,
                uv: known.uv,
            },
        );
        self.animation = None;
        true
    }
}

/// What a sprite shows when it is drawn: where it is new, what the atlas knows of its region.
pub fn sprite_uv<S: Scalar>(sprite: &mut Sprite<S>, known: &Option<AtlasRegion<S>>) -> (r: [S; 4])
    ensures
        r == final(sprite).uv,
        *final(sprite) == (if old(sprite).region_id == UNINITIALIZED_REGION && known is Some {
            Sprite {
                region: known->0.name,
                region_id: known->0.id,
                uv: known->0.uv,
                ..*old(sprite)
            }
        } else {
            *old(sprite)
        }),
{
    if !sprite.is_initialized() {
        if let Some(known) = known {
            sprite.region = known.name.clone();
            sprite.region_id = known.id;
            sprite.uv = known.uv;
        }
    }
    sprite.uv
}

/// The first entity with an id of a scene, at `from` or later.
pub open spec fn place_of_id<S>(rows: Seq<EntityRow<S>>, id: Seq<char>, from: int) -> int
    decreases rows.len() - from,
{
    if from < 0 || from >= rows.len() {
        rows.len() as int
    } else if rows[from].scene_id@ == id {
        from
    } else {
        place_of_id(rows, id, from + 1)
    }
}

pub fn find_entity_by_scene_id<S>(rows: &Vec<EntityRow<S>>, id: &str) -> (r: Option<Entity>)
    ensures
        ({
            let i = place_of_id(rows@, id@, 0);
            r == (if i < rows@.len() {
                Some(rows@[i].entity)
            } else {
                None
            })
        }),
{
    let mut i: usize = 0;
    while i < rows.len()
        invariant
            i <= rows@.len(),
            place_of_id(rows@, id@, 0) == place_of_id(rows@, id@, i as int),
        decreases rows@.len() - i,
    {
        if same_text(rows[i].scene_id.as_str(), id) {
            return Some(rows[i].entity);
        }
        i = i + 1;
    }
    None
}

/// The axes of a sprite that is drawn, and where it is.
#[derive(Clone, Copy)]
pub struct SpriteInstanceTransform<S> {
    pub axis_x: Vec3<S>,
    pub axis_y: Vec3<S>,
    pub translation: Vec3<S>,
}

impl<S: Scalar> SpriteInstanceTransform<S> {
    /// Half the box around the sprite in the plane.
    pub open spec fn half_box(self) -> Vec2<S> {
        let half = ratio_spec::<S>(1, 2);
        Vec2 {
            x: self.axis_x.x.times_spec(half).magnitude_spec().plus_spec(
                self.axis_y.x.times_spec(half).magnitude_spec(),
            ),
            y: self.axis_x.y.times_spec(half).magnitude_spec().plus_spec(
                self.axis_y.y.times_spec(half).magnitude_spec(),
            ),
        }
    }

    pub fn half_extent_2d(&self) -> (r: Vec2<S>)
        ensures
            r == self.half_box(),
    {
        let half: S = ratio(1, 2);
        Vec2 {
            x: self.axis_x.x.times(half).magnitude().plus(self.axis_y.x.times(half).magnitude()),
            y: self.axis_x.y.times(half).magnitude().plus(self.axis_y.y.times(half).magnitude()),
        }
    }
}

} // verus!
