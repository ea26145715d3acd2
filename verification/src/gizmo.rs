//! Handles by which an entity is moved, turned and scaled in the viewport.
use vstd::prelude::*;
use crate::entity::Entity;
use crate::scalar::{clamped, clamped_spec, ratio, ratio_spec, Scalar};
use crate::vectors::{Vec2, Vec3};

verus! {

#[derive(Clone, Copy, Debug, PartialEq, Eq, Structural)]
pub enum GizmoMode {
    Translate,
    Scale,
    Rotate,
}

impl Default for GizmoMode {
    fn default() -> (r: Self)
        ensures
            r == GizmoMode::Translate,
    {
        GizmoMode::Translate
    }
}

/// What is being dragged; `Q` is the type of a rotation.
#[derive(Clone, Copy)]
pub enum GizmoInteraction<S, Q> {
    Translate {
        entity: Entity,
        offset: Vec2<S>,
        start_translation: Vec2<S>,
        start_pointer: Vec2<S>,
        axis_lock: Option<Axis2>,
    },
    Translate3D { entity: Entity, offset: Vec3<S>, plane_origin: Vec3<S>, plane_normal: Vec3<S> },
    Rotate { entity: Entity, start_rotation: S, start_angle: S },
    Rotate3D { entity: Entity, axis: Vec3<S>, start_rotation: Q, start_vector: Vec3<S> },
    Scale { entity: Entity, start_scale: Vec2<S>, handle: ScaleHandle<S> },
    Scale3D { entity: Entity, start_scale: Vec3<S>, start_distance: S, plane_normal: Vec3<S> },
}

#[derive(Clone, Copy, Debug, PartialEq, Eq, Structural)]
pub enum Axis2 {
    X,
    Y,
}

impl Axis2 {
    pub open spec fn label_of(self) -> Seq<char> {
        match self {
            Axis2::X => "X axis"@,
            Axis2::Y => "Y axis"@,
        }
    }

    pub fn label(self) -> (r: &'static str)
        ensures
            r@ == self.label_of(),
    {
        match self {
            Axis2::X => "X axis",
            Axis2::Y => "Y axis",
        }
    }

    pub open spec fn vector_of<S: Scalar>(self) -> Vec2<S> {
        match self {
            Axis2::X => Vec2 { x: S::one_spec(), y: S::zero_spec() },
            Axis2::Y => Vec2 { x: S::zero_spec(), y: S::one_spec() },
        }
    }

    pub fn vector<S: Scalar>(self) -> (r: Vec2<S>)
        ensures
            r == self.vector_of::<S>(),
    {
        match self {
            Axis2::X => Vec2 { x: S::one(), y: S::zero() },
            Axis2::Y => Vec2 { x: S::zero(), y: S::one() },
        }
    }
}

#[derive(Clone, Copy)]
pub enum ScaleHandle<S> {
    Uniform { start_distance: S },
    Axis { axis: Axis2, start_extent: S },
}

#[derive(Clone, Copy, Debug, PartialEq, Eq, Structural)]
pub enum ScaleHandleKind {
    Uniform,
    Axis(Axis2),
}

impl<S: Copy> ScaleHandle<S> {
    pub open spec fn kind_of(self) -> ScaleHandleKind {
        match self {
            ScaleHandle::Uniform { .. } => ScaleHandleKind::Uniform,
            ScaleHandle::Axis { axis, .. } => ScaleHandleKind::Axis(axis),
        }
    }

    pub fn kind(self) -> (r: ScaleHandleKind)
        ensures
            r == self.kind_of(),
    {
        match self {
            ScaleHandle::Uniform { .. } => ScaleHandleKind::Uniform,
            ScaleHandle::Axis { axis, .. } => ScaleHandleKind::Axis(axis),
        }
    }
}

/// A ratio held between a twentieth and twenty.
pub open spec fn held_ratio<S: Scalar>(x: S) -> S {
    clamped_spec(x, ratio_spec(1, 20), S::from_count_spec(20))
}

/// The ratio by which something is scaled, in steps of a tenth where it snaps.
pub open spec fn scale_ratio<S: Scalar>(x: S, snap: bool) -> S {
    let step = ratio_spec::<S>(1, 10);
    if snap {
        held_ratio(held_ratio(x).over_spec(step).rounded_spec().times_spec(step))
    } else {
        held_ratio(x)
    }
}

pub fn apply_scale_ratio<S: Scalar>(x: S, snap: bool) -> (r: S)
    ensures
        r == scale_ratio(x, snap),
{
    let lowest = ratio::<S>(1, 20);
    let highest = S::from_count(20);
    let held = clamped(x, lowest, highest);
    if snap {
        let step = ratio::<S>(1, 10);
        clamped(held.over(step).rounded().times(step), lowest, highest)
    } else {
        held
    }
}

/// Whether a point lies on the handle along an axis: `along` and `across` are its distances from
/// the center.
pub open spec fn on_axis_handle<S: Scalar>(along: S, across: S) -> bool {
    &&& S::from_count_spec(10).le_spec(along.magnitude_spec())
    &&& along.magnitude_spec().le_spec(S::from_count_spec(44))
    &&& across.magnitude_spec().le_spec(S::from_count_spec(4))
}

/// Which handle lies under the pointer, seen from the center.
pub open spec fn kind_under<S: Scalar>(rel: Vec2<S>, shift: bool) -> Option<ScaleHandleKind> {
    if on_axis_handle(rel.x, rel.y) {
        Some(
            if shift {
                ScaleHandleKind::Uniform
            } else {
                ScaleHandleKind::Axis(Axis2::X)
            },
        )
    } else if on_axis_handle(rel.y, rel.x) {
        Some(
            if shift {
                ScaleHandleKind::Uniform
            } else {
                ScaleHandleKind::Axis(Axis2::Y)
            },
        )
    } else if S::from_count_spec(20).le_spec(rel.length_spec()) && rel.length_spec().le_spec(
        S::from_count_spec(32),
    ) {
        Some(ScaleHandleKind::Uniform)
    } else {
        None
    }
}

/// The handle of a kind for a drag that starts at a distance from the center; a drag that starts at
/// the center has none.
pub open spec fn handle_at<S: Scalar>(kind: ScaleHandleKind, delta: Vec2<S>) -> Option<
    ScaleHandle<S>,
> {
    match kind {
        ScaleHandleKind::Uniform => if S::machine_epsilon_spec().lt_spec(delta.length_spec()) {
            Some(ScaleHandle::Uniform { start_distance: delta.length_spec() })
        } else {
            None
        },
        ScaleHandleKind::Axis(axis) => {
            let extent = delta.dot_spec(axis.vector_of::<S>()).magnitude_spec();
            if S::machine_epsilon_spec().lt_spec(extent) {
                Some(ScaleHandle::Axis { axis, start_extent: extent })
            } else {
                None
            }
        },
    }
}

pub open spec fn handle_under<S: Scalar>(delta: Vec2<S>, rel: Vec2<S>, shift: bool) -> Option<
    (ScaleHandleKind, ScaleHandle<S>),
> {
    match kind_under(rel, shift) {
        Some(kind) => match handle_at(kind, delta) {
            Some(handle) => Some((kind, handle)),
            None => None,
        },
        None => None,
    }
}

/// A handle that is found is of the kind that it is found as.
pub proof fn law_handle_has_its_kind<S: Scalar>(delta: Vec2<S>, rel: Vec2<S>, shift: bool)
    ensures
        match handle_under(delta, rel, shift) {
            Some((kind, handle)) => handle.kind_of() == kind,
            None => true,
        },
{
}

fn axis_handle<S: Scalar>(along: S, across: S) -> (r: bool)
    ensures
        r == on_axis_handle(along, across),
{
    S::from_count(10).le(along.magnitude()) && along.magnitude().le(S::from_count(44))
        && across.magnitude().le(S::from_count(4))
}

fn find_kind<S: Scalar>(rel: Vec2<S>, shift: bool) -> (r: Option<ScaleHandleKind>)
    ensures
        r == kind_under(rel, shift),
{
    if axis_handle(rel.x, rel.y) {
        if shift {
            Some(ScaleHandleKind::Uniform)
        } else {
            Some(ScaleHandleKind::Axis(Axis2::X))
        }
    } else if axis_handle(rel.y, rel.x) {
        if shift {
            Some(ScaleHandleKind::Uniform)
        } else {
            Some(ScaleHandleKind::Axis(Axis2::Y))
        }
    } else if S::from_count(20).le(rel.length()) && rel.length().le(S::from_count(32)) {
        Some(ScaleHandleKind::Uniform)
    } else {
        None
    }
}

/// The handle under the pointer, if there is one.
pub fn detect_scale_handle<S: Scalar>(
    pointer_world: Vec2<S>,
    pointer_viewport: Vec2<S>,
    center_world: Vec2<S>,
    center_viewport: Vec2<S>,
    shift: bool,
) -> (r: Option<(ScaleHandleKind, ScaleHandle<S>)>)
    ensures
        r == handle_under(
            pointer_world.minus_spec(center_world),
            pointer_viewport.minus_spec(center_viewport),
            shift,
        ),
{
    let kind = match find_kind(pointer_viewport.minus(center_viewport), shift) {
        Some(kind) => kind,
        None => return None,
    };
    let delta = pointer_world.minus(center_world);
    match kind {
        ScaleHandleKind::Uniform => {
            let start_distance = delta.length();
            if S::machine_epsilon().lt(start_distance) {
                Some((kind, ScaleHandle::Uniform { start_distance }))
            } else {
                None
            }
        },
        ScaleHandleKind::Axis(axis) => {
            let start_extent = delta.dot(axis.vector::<S>()).magnitude();
            if S::machine_epsilon().lt(start_extent) {
                Some((kind, ScaleHandle::Axis { axis, start_extent }))
            } else {
                None
            }
        },
    }
}

} // verus!
