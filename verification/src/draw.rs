//! What is drawn: matrices of the plane, sprites and meshes as the renderer takes them.
use std::sync::Arc;
use vstd::prelude::*;
use crate::animation_time::AnimationTime;
use crate::components::{MeshLighting, MeshSurface, Transform};
use crate::entity::Entity;
use crate::ibl::Curves;
use crate::motion::{corners_around, extent_or_default, half_or_default};
use crate::scalar::Scalar;
use crate::scene::{copied_text, text_of, AtlasRegion, EntityRow};
use crate::sprite::{Sprite, UNINITIALIZED_REGION};
use crate::sprite_systems::SpriteActor;
use crate::sprite_timeline::{group_marked, mark_group_dirty};
use crate::vectors::{Vec2, Vec3, Vec4};
use crate::world_edit::{sprite_uv, SpriteInstanceTransform};

verus! {

/// The matrix of a transform, column by column: scaled, turned by an angle with this sine and
/// cosine, and moved.
pub open spec fn plane_matrix<S: Scalar>(t: Transform<S>, sin: S, cos: S) -> Seq<S> {
    let zero = S::zero_spec();
    let one = S::one_spec();
    seq![
        cos.times_spec(t.scale.x),
        sin.times_spec(t.scale.x),
        zero,
        zero,
        sin.negated_spec().times_spec(t.scale.y),
        cos.times_spec(t.scale.y),
        zero,
        zero,
        zero,
        zero,
        one,
        zero,
        t.translation.x,
        t.translation.y,
        zero,
        one,
    ]
}

impl<S: Scalar> Transform<S> {
    pub fn to_mat4<A: Curves<S>>(&self) -> (r: [S; 16])
        ensures
            r@ == plane_matrix(
                *self,
                A::sine_spec(self.rotation),
                A::cosine_spec(self.rotation),
            ),
    {
        let sin = A::sine(self.rotation);
        let cos = A::cosine(self.rotation);
        let zero = S::zero();
        let one = S::one();
        let r = [
            cos.times(self.scale.x),
            sin.times(self.scale.x),
            zero,
            zero,
            sin.negated().times(self.scale.y),
            cos.times(self.scale.y),
            zero,
            zero,
            zero,
            zero,
            one,
            zero,
            self.translation.x,
            self.translation.y,
            zero,
            one,
        ];
        assert(r@ =~= plane_matrix(
            *self,
            A::sine_spec(self.rotation),
            A::cosine_spec(self.rotation),
        ));
        r
    }
}

/// The axes and the place that a matrix gives.
pub open spec fn axes_of_matrix<S: Scalar>(model: Seq<S>) -> SpriteInstanceTransform<S> {
    SpriteInstanceTransform {
        axis_x: Vec3 { x: model[0], y: model[1], z: model[2] },
        axis_y: Vec3 { x: model[4], y: model[5], z: model[6] },
        translation: Vec3 { x: model[12], y: model[13], z: model[14] },
    }
}

impl<S: Scalar> SpriteInstanceTransform<S> {
    pub fn from_mat4(model: &[S; 16]) -> (r: Self)
        ensures
            r == axes_of_matrix(model@),
    {
        SpriteInstanceTransform {
            axis_x: Vec3 { x: model[0], y: model[1], z: model[2] },
            axis_y: Vec3 { x: model[4], y: model[5], z: model[6] },
            translation: Vec3 { x: model[12], y: model[13], z: model[14] },
        }
    }
}

/// A sprite with where it is in the world.
pub struct DrawnSprite<S> {
    pub world: [S; 16],
    pub sprite: Sprite<S>,
    pub tint: Option<Vec4<S>>,
}

/// A sprite as it is drawn.
pub struct SpriteInstance<S> {
    pub atlas: Arc<String>,
    pub transform: SpriteInstanceTransform<S>,
    pub uv_rect: [S; 4],
    pub tint: [S; 4],
    pub world_half_extent: Vec2<S>,
}

/// What the renderer takes of a sprite.
pub struct InstanceData<S> {
    pub axis_x: [S; 4],
    pub axis_y: [S; 4],
    pub translation: [S; 4],
    pub uv_rect: [S; 4],
    pub tint: [S; 4],
}

fn extended<S: Scalar>(v: Vec3<S>, w: S) -> (r: [S; 4])
    ensures
        r@ == seq![v.x, v.y, v.z, w],
{
    let r = [v.x, v.y, v.z, w];
    assert(r@ =~= seq![v.x, v.y, v.z, w]);
    r
}

impl<S: Scalar> SpriteInstance<S> {
    pub fn into_gpu(self) -> (r: (Arc<String>, InstanceData<S>))
        ensures
            r.0 == self.atlas,
            r.1.axis_x@ == seq![
                self.transform.axis_x.x,
                self.transform.axis_x.y,
                self.transform.axis_x.z,
                S::zero_spec(),
            ],
            r.1.axis_y@ == seq![
                self.transform.axis_y.x,
                self.transform.axis_y.y,
                self.transform.axis_y.z,
                S::zero_spec(),
            ],
            r.1.translation@ == seq![
                self.transform.translation.x,
                self.transform.translation.y,
                self.transform.translation.z,
                S::one_spec(),
            ],
            r.1.uv_rect == self.uv_rect,
            r.1.tint == self.tint,
    {
        let data = InstanceData {
            axis_x: extended(self.transform.axis_x, S::zero()),
            axis_y: extended(self.transform.axis_y, S::zero()),
            translation: extended(self.transform.translation, S::one()),
            uv_rect: self.uv_rect,
            tint: self.tint,
        };
        (self.atlas, data)
    }
}

/// The sprite after its region was looked up, which is done once.
pub open spec fn looked_up<S: Scalar>(
    sprite: Sprite<S>,
    known: Option<AtlasRegion<S>>,
) -> Sprite<S> {
    if sprite.region_id == UNINITIALIZED_REGION && known is Some {
        Sprite { region: known->0.name, region_id: known->0.id, uv: known->0.uv, ..sprite }
    } else {
        sprite
    }
}

/// Whether a sprite is drawn as it is to be: where its matrix puts it, in white where it has no
/// tint.
pub open spec fn drawn_as<S: Scalar>(
    row: DrawnSprite<S>,
    known: Option<AtlasRegion<S>>,
    made: SpriteInstance<S>,
) -> bool {
    let one = S::one_spec();
    &&& made.atlas == row.sprite.atlas_key
    &&& made.transform == axes_of_matrix(row.world@)
    &&& made.uv_rect == looked_up(row.sprite, known).uv
    &&& made.tint@ == (match row.tint {
        Some(t) => seq![t.x, t.y, t.z, t.w],
        None => seq![one, one, one, one],
    })
    &&& made.world_half_extent == made.transform.half_box()
}

fn draw_sprite<S: Scalar>(row: &mut DrawnSprite<S>, known: &Option<AtlasRegion<S>>) -> (r:
    SpriteInstance<S>)
    ensures
        drawn_as(*old(row), *known, r),
        *final(row) == (DrawnSprite { sprite: looked_up(old(row).sprite, *known), ..*old(row) }),
{
    let one = S::one();
    let uv_rect = sprite_uv(&mut row.sprite, known);
    let transform = SpriteInstanceTransform::from_mat4(&row.world);
    let world_half_extent = transform.half_extent_2d();
    let tint = match row.tint {
        Some(t) => [t.x, t.y, t.z, t.w],
        None => [one, one, one, one],
    };
    proof {
        match old(row).tint {
            Some(t) => {
                assert(tint@ =~= seq![t.x, t.y, t.z, t.w]);
            },
            None => {
                assert(tint@ =~= seq![one, one, one, one]);
            },
        }
    }
    SpriteInstance {
        atlas: row.sprite.atlas_key.clone(),
        transform,
        uv_rect,
        tint,
        world_half_extent,
    }
}

/// All sprites as they are drawn; `known` is what the atlases know of their regions.
pub fn collect_sprite_instances<S: Scalar>(
    rows: &mut Vec<DrawnSprite<S>>,
    known: &Vec<Option<AtlasRegion<S>>>,
) -> (r: Vec<SpriteInstance<S>>)
    requires
        known@.len() == old(rows)@.len(),
    ensures
        r@.len() == old(rows)@.len(),
        final(rows)@.len() == old(rows)@.len(),
        forall|i: int|
            0 <= i < old(rows)@.len() ==> drawn_as(old(rows)@[i], known@[i], #[trigger] r@[i]),
        forall|i: int|
            0 <= i < old(rows)@.len() ==> #[trigger] final(rows)@[i] == (DrawnSprite {
                sprite: looked_up(old(rows)@[i].sprite, known@[i]),
                ..old(rows)@[i]
            }),
{
    let mut out: Vec<SpriteInstance<S>> = Vec::new();
    let mut i: usize = 0;
    while i < rows.len()
        invariant
            i <= rows@.len(),
            rows@.len() == old(rows)@.len(),
            known@.len() == rows@.len(),
            out@.len() == i,
            forall|k: int|
                0 <= k < i ==> drawn_as(old(rows)@[k], known@[k], #[trigger] out@[k]),
            forall|k: int|
                0 <= k < i ==> #[trigger] rows@[k] == (DrawnSprite {
                    sprite: looked_up(old(rows)@[k].sprite, known@[k]),
                    ..old(rows)@[k]
                }),
            forall|k: int| i <= k < rows@.len() ==> #[trigger] rows@[k] == old(rows)@[k],
        decreases rows@.len() - i,
    {
        let made = draw_sprite(&mut rows[i], &known[i]);
        out.push(made);
        i = i + 1;
    }
    out
}

/// A mesh with where it is in the world.
pub struct DrawnMesh<S, M> {
    pub key: String,
    pub model: M,
    pub surface: Option<MeshSurface<S>>,
}

/// A mesh as it is drawn.
pub struct MeshInstance<S, M> {
    pub key: String,
    pub model: M,
    pub material: Option<String>,
    pub lighting: MeshLighting<S>,
}

/// Whether a mesh is drawn as it is to be: a mesh without a surface is lit as a plain one.
pub open spec fn mesh_drawn_as<S: Scalar, M>(row: DrawnMesh<S, M>, made: MeshInstance<S, M>) -> bool {
    &&& made.key@ == row.key@
    &&& made.model == row.model
    &&& match row.surface {
        Some(s) => text_of(made.material) == text_of(s.material) && made.lighting == s.lighting,
        None => made.material is None && made.lighting == MeshLighting::<S>::plain(),
    }
}

pub fn collect_mesh_instances<S: Scalar, M: Copy>(rows: &Vec<DrawnMesh<S, M>>) -> (r: Vec<
    MeshInstance<S, M>,
>)
    ensures
        r@.len() == rows@.len(),
        forall|i: int| 0 <= i < rows@.len() ==> mesh_drawn_as(rows@[i], #[trigger] r@[i]),
{
    let mut out: Vec<MeshInstance<S, M>> = Vec::new();
    let mut i: usize = 0;
    while i < rows.len()
        invariant
            i <= rows@.len(),
            out@.len() == i,
            forall|k: int| 0 <= k < i ==> mesh_drawn_as(rows@[k], #[trigger] out@[k]),
        decreases rows@.len() - i,
    {
        let (material, lighting) = match &rows[i].surface {
            Some(s) => (copied_text(&s.material), s.lighting),
            None => (None, MeshLighting::default()),
        };
        out.push(
            MeshInstance {
                key: rows[i].key.as_str().to_owned(),
                model: rows[i].model,
                material,
                lighting,
            },
        );
        i = i + 1;
    }
    out
}

/// The corners of the box around an entity.
pub fn entity_bounds<S: Scalar>(center: Vec2<S>, half: Option<Vec2<S>>) -> (r: (Vec2<S>, Vec2<S>))
    ensures
        r == (
            center.minus_spec(half_or_default(half)),
            center.plus_spec(half_or_default(half)),
        ),
{
    corners_around(center, extent_or_default(half))
}

/// The corners of the boxes of all colliders, each given by its middle and half its size.
pub fn collider_rects<S: Scalar>(colliders: &Vec<(Vec2<S>, Vec2<S>)>) -> (r: Vec<
    (Vec2<S>, Vec2<S>),
>)
    ensures
        r@ == colliders@.map_values(
            |c: (Vec2<S>, Vec2<S>)| (c.0.minus_spec(c.1), c.0.plus_spec(c.1)),
        ),
{
    let mut out: Vec<(Vec2<S>, Vec2<S>)> = Vec::new();
    let mut i: usize = 0;
    while i < colliders.len()
        invariant
            i <= colliders@.len(),
            out@.len() == i,
            forall|k: int|
                0 <= k < i ==> #[trigger] out@[k] == (
                    colliders@[k].0.minus_spec(colliders@[k].1),
                    colliders@[k].0.plus_spec(colliders@[k].1),
                ),
        decreases colliders@.len() - i,
    {
        let (center, half) = colliders[i];
        out.push(corners_around(center, half));
        i = i + 1;
    }
    out
}

/// The first row that spins, at `from` or later.
pub open spec fn first_spinning<S>(rows: Seq<EntityRow<S>>, from: int) -> int
    decreases rows.len() - from,
{
    if from < 0 || from >= rows.len() {
        rows.len() as int
    } else if rows[from].spin is Some {
        from
    } else {
        first_spinning(rows, from + 1)
    }
}

fn find_spinning<S>(rows: &Vec<EntityRow<S>>) -> (r: usize)
    ensures
        r == first_spinning(rows@, 0),
        r <= rows@.len(),
        r < rows@.len() ==> rows@[r as int].spin is Some,
{
    let mut i: usize = 0;
    while i < rows.len()
        invariant
            i <= rows@.len(),
            first_spinning(rows@, 0) == first_spinning(rows@, i as int),
        decreases rows@.len() - i,
    {
        if rows[i].spin.is_some() {
            return i;
        }
        i = i + 1;
    }
    i
}

/// The rows after the first that spins got another speed.
pub open spec fn spun<S>(rows: Seq<EntityRow<S>>, speed: S) -> Seq<EntityRow<S>> {
    let i = first_spinning(rows, 0);
    if i < rows.len() {
        rows.update(i, EntityRow { spin: Some(speed), ..rows[i] })
    } else {
        rows
    }
}

/// The first entity that spins does so at another speed.
pub fn set_root_spin<S: Scalar>(rows: &mut Vec<EntityRow<S>>, speed: S)
    ensures
        final(rows)@ == spun(old(rows)@, speed),
{
    let i: usize = find_spinning(rows);
    if i < rows.len() {
        rows[i].spin = Some(speed);
    }
}

/// The first entity that spins does so faster.
pub fn adjust_root_spin<S: Scalar>(rows: &mut Vec<EntityRow<S>>, delta: S)
    ensures
        ({
            let i = first_spinning(old(rows)@, 0);
            final(rows)@ == (if i < old(rows)@.len() {
                spun(old(rows)@, old(rows)@[i].spin->0.plus_spec(delta))
            } else {
                old(rows)@
            })
        }),
{
    let i: usize = find_spinning(rows);
    if i < rows.len() {
        if let Some(speed) = rows[i].spin {
            rows[i].spin = Some(speed.plus(delta));
        }
    }
}

/// The first row with an emitter, at `from` or later.
pub open spec fn first_emitting<S>(rows: Seq<EntityRow<S>>, from: int) -> int
    decreases rows.len() - from,
{
    if from < 0 || from >= rows.len() {
        rows.len() as int
    } else if rows[from].emitter is Some {
        from
    } else {
        first_emitting(rows, from + 1)
    }
}

pub fn first_emitter<S>(rows: &Vec<EntityRow<S>>) -> (r: Option<Entity>)
    ensures
        ({
            let i = first_emitting(rows@, 0);
            r == (if i < rows@.len() {
                Some(rows@[i].entity)
            } else {
                None
            })
        }),
{
    let mut i: usize = 0;
    while i < rows.len()
        invariant
            i <= rows@.len(),
            first_emitting(rows@, 0) == first_emitting(rows@, i as int),
        decreases rows@.len() - i,
    {
        if rows[i].emitter.is_some() {
            return Some(rows[i].entity);
        }
        i = i + 1;
    }
    None
}

/// Changes the speed of a group of animations, all of which take it up the next time they are
/// driven.
pub fn set_animation_group_scale<S: Scalar>(
    time: &mut AnimationTime<S>,
    actors: &mut Vec<SpriteActor<S>>,
    group: &str,
    scale: S,
)
    requires
        old(time).wf(),
    ensures
        final(time).wf(),
        final(time).group_scales@ == (if AnimationTime::<S>::is_neutral(scale) {
            old(time).group_scales@.remove(group@)
        } else {
            old(time).group_scales@.insert(group@, scale)
        }),
        *final(time) == (AnimationTime { group_scales: final(time).group_scales, ..*old(time) }),
        final(actors)@.len() == old(actors)@.len(),
        forall|i: int|
            0 <= i < old(actors)@.len() ==> #[trigger] final(actors)@[i] == (SpriteActor {
                animation: group_marked(old(actors)@[i].animation, group@),
                ..old(actors)@[i]
            }),
{
    time.set_group_scale(group, scale);
    mark_group_dirty(actors, group);
}

} // verus!
