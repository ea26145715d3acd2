//! What picking comes to: what is hit lies ahead, and what is picked is nearest.
use vstd::prelude::*;
use crate::picking::{aabb_hit, nearest, slab, sphere_hit, PickCandidate};
use crate::scalar::{Fixed, Scalar};
use crate::vectors::Vec3;

verus! {

/// What is picked is one of the candidates, at the distance at which the ray hits it, and none is
/// nearer; the first of several that are equally near counts. Nothing is picked only where nothing
/// is hit.
pub proof fn law_nearest_is_picked(
    candidates: Seq<PickCandidate<Fixed>>,
    origin: Vec3<Fixed>,
    dir: Vec3<Fixed>,
    n: int,
)
    requires
        0 <= n <= candidates.len(),
    ensures
        match nearest(candidates, origin, dir, n) {
            Some((entity, best)) => {
                &&& exists|i: int|
                    0 <= i < n && (#[trigger] candidates[i]).entity == entity
                        && candidates[i].distance(origin, dir) == Some(best) && forall|j: int|
                        0 <= j < i && (#[trigger] candidates[j]).distance(origin, dir) is Some
                            ==> best.0 < candidates[j].distance(origin, dir)->Some_0.0
                &&& forall|j: int|
                    0 <= j < n && (#[trigger] candidates[j]).distance(origin, dir) is Some ==> best.0
                        <= candidates[j].distance(origin, dir)->Some_0.0
            },
            None => forall|j: int|
                0 <= j < n ==> (#[trigger] candidates[j]).distance(origin, dir) is None,
        },
    decreases n,
{
    if n > 0 {
        law_nearest_is_picked(candidates, origin, dir, n - 1);
        let before = nearest(candidates, origin, dir, n - 1);
        let now = nearest(candidates, origin, dir, n);
        if now is Some {
            if before is Some && now == before {
                let (entity, best) = before->0;
                let i = choose|i: int|
                    0 <= i < n - 1 && (#[trigger] candidates[i]).entity == entity
                        && candidates[i].distance(origin, dir) == Some(best) && forall|j: int|
                        0 <= j < i && (#[trigger] candidates[j]).distance(origin, dir) is Some
                            ==> best.0 < candidates[j].distance(origin, dir)->Some_0.0;
                assert(0 <= i < n && candidates[i].entity == entity);
            } else {
                assert(candidates[n - 1].entity == now->Some_0.0);
            }
        }
    }
}

/// A ball is hit at no negative distance.
pub proof fn law_balls_are_hit_ahead(
    origin: Vec3<Fixed>,
    dir: Vec3<Fixed>,
    center: Vec3<Fixed>,
    radius: Fixed,
)
    ensures
        sphere_hit(origin, dir, center, radius) is Some ==> 0 <= sphere_hit(
            origin,
            dir,
            center,
            radius,
        )->Some_0.0,
{
}

/// A ray along an axis hits a ball straight ahead of it at the ball's near side: at the distance of
/// its middle less its radius. One that looks away from a ball that it is outside of misses it.
pub proof fn law_balls_ahead_are_hit_on_their_near_side(far: Fixed, radius: Fixed)
    requires
        0 < radius.0 < far.0 <= 0x1_0000_0000,
        radius.0 as int % 256 == 0,
    ensures
        ({
            let zero = Fixed(0);
            let origin = Vec3 { x: zero, y: zero, z: zero };
            let ahead = Vec3 { x: zero, y: zero, z: Fixed(65536) };
            let center = Vec3 { x: zero, y: zero, z: far };
            let behind = Vec3 { x: zero, y: zero, z: Fixed((-far.0) as i64) };
            &&& sphere_hit(origin, ahead, center, radius) is Some
            &&& sphere_hit(origin, ahead, center, radius)->Some_0.0 == far.0 - radius.0
            &&& sphere_hit(origin, ahead, behind, radius) is None
        }),
{
    let f = far.0 as int;
    let r = radius.0 as int;
    let a = r / 256;
    assert(r * r == a * a * 65536) by (nonlinear_arith)
        requires
            r == a * 256,
    ;
    assert(0 < a * a <= 0x1_0000_0000_0000) by (nonlinear_arith)
        requires
            0 < a <= 0x100_0000,
    ;
    assert(f * f <= 0x1_0000_0000 * 0x1_0000_0000) by (nonlinear_arith)
        requires
            0 <= f <= 0x1_0000_0000,
    ;
    assert(0 <= f * f) by (nonlinear_arith);
    assert((-f) * (-f) == f * f) by (nonlinear_arith);
    assert((-f) * 65536 / 65536 == -f);
    assert(f * 65536 / 65536 == f);
    assert(0int * 0 == 0);
    let d = a * a;
    assert(r * r / 65536 == d);
    assert(r * r <= d * 65536 < (r + 1) * (r + 1)) by (nonlinear_arith)
        requires
            r * r == d * 65536,
            0 < r,
    ;
    crate::scalar::lemma_floor_root_unique(d * 65536, r);
}

/// Whether a place on a diagonal line, so far from where the line starts, lies within a box.
pub open spec fn within_box(
    origin: Vec3<Fixed>,
    dir: Vec3<Fixed>,
    min: Vec3<Fixed>,
    max: Vec3<Fixed>,
    far: int,
) -> bool {
    &&& min.x.0 <= along(origin.x, dir.x, far) <= max.x.0
    &&& min.y.0 <= along(origin.y, dir.y, far) <= max.y.0
    &&& min.z.0 <= along(origin.z, dir.z, far) <= max.z.0
}

/// How far along an axis something is that goes up or down it.
pub open spec fn along(from: Fixed, dir: Fixed, far: int) -> int {
    if dir.0 < 0 {
        from.0 - far
    } else {
        from.0 + far
    }
}

pub open spec fn is_diagonal(dir: Vec3<Fixed>) -> bool {
    &&& dir.x.0 == 65536 || dir.x.0 == -65536
    &&& dir.y.0 == 65536 || dir.y.0 == -65536
    &&& dir.z.0 == 65536 || dir.z.0 == -65536
}

pub open spec fn is_near(v: Vec3<Fixed>) -> bool {
    &&& -0x1_0000_0000 <= v.x.0 <= 0x1_0000_0000
    &&& -0x1_0000_0000 <= v.y.0 <= 0x1_0000_0000
    &&& -0x1_0000_0000 <= v.z.0 <= 0x1_0000_0000
}

/// A diagonal ray hits a box at the first place ahead that lies within the box, and misses it only
/// where no place ahead does.
pub proof fn law_boxes_are_hit_where_they_begin(
    origin: Vec3<Fixed>,
    dir: Vec3<Fixed>,
    min: Vec3<Fixed>,
    max: Vec3<Fixed>,
)
    requires
        is_diagonal(dir),
        is_near(origin) && is_near(min) && is_near(max),
        min.x.0 <= max.x.0 && min.y.0 <= max.y.0 && min.z.0 <= max.z.0,
    ensures
        match aabb_hit(origin, dir, min, max) {
            Some((t, at)) => {
                &&& 0 <= t.0
                &&& at.x.0 == along(origin.x, dir.x, t.0 as int)
                &&& at.y.0 == along(origin.y, dir.y, t.0 as int)
                &&& at.z.0 == along(origin.z, dir.z, t.0 as int)
                &&& within_box(origin, dir, min, max, t.0 as int)
                &&& forall|far: int|
                    0 <= far < t.0 ==> !#[trigger] within_box(origin, dir, min, max, far)
            },
            None => forall|far: int| 0 <= far ==> !#[trigger] within_box(origin, dir, min, max, far),
        },
{
    let tiny: Fixed = crate::scalar::ratio_spec(1, 1_000_000);
    assert(Fixed::from_count_spec(1) == Fixed(65536));
    assert(Fixed::from_count_spec(1_000_000) == Fixed(65536000000));
    assert(65536int * 65536 / 65536000000 == 0);
    assert(tiny.0 == 0);
    let whole = Some((Fixed(0), Fixed(i64::MAX)));
    let x = slab(whole, origin.x, dir.x, min.x, max.x);
    let y = slab(x, origin.y, dir.y, min.y, max.y);
    lemma_slab(whole, origin.x, dir.x, min.x, max.x);
    lemma_slab(x, origin.y, dir.y, min.y, max.y);
    let z = slab(y, origin.z, dir.z, min.z, max.z);
    lemma_slab(y, origin.z, dir.z, min.z, max.z);
    if z is Some {
        let t = z->Some_0.0;
        assert(65536 * t.0 / 65536 == t.0);
        assert((-65536) * t.0 / 65536 == -t.0);
    }
}

proof fn lemma_slab(span: Option<(Fixed, Fixed)>, o: Fixed, d: Fixed, min: Fixed, max: Fixed)
    requires
        d.0 == 65536 || d.0 == -65536,
        -0x1_0000_0000 <= o.0 <= 0x1_0000_0000,
        -0x1_0000_0000 <= min.0 <= max.0 <= 0x1_0000_0000,
        crate::scalar::ratio_spec::<Fixed>(1, 1_000_000).0 == 0,
    ensures
        match slab(span, o, d, min, max) {
            Some((from, to)) => span is Some && from.0 <= to.0 && forall|far: int|
                from.0 <= far <= to.0 <==> span->Some_0.0.0 <= far <= span->Some_0.1.0 && min.0
                    <= #[trigger] along(o, d, far) <= max.0,
            None => forall|far: int|
                !(span is Some && span->Some_0.0.0 <= far <= span->Some_0.1.0 && min.0
                    <= #[trigger] along(o, d, far) <= max.0),
        },
        slab(span, o, d, min, max) is Some ==> span->Some_0.0.0 <= slab(
            span,
            o,
            d,
            min,
            max,
        )->Some_0.0.0 && slab(span, o, d, min, max)->Some_0.0.0 <= if span->Some_0.0.0 < 0x2_0000_0000 {
            0x2_0000_0000
        } else {
            span->Some_0.0.0 as int
        },
{
    assert(4294967296int / 65536 == 65536);
    assert(4294967296int / (-65536) == -65536);
    let inv = Fixed::one_spec().over_spec(d);
    assert(inv == d);
    let a = min.0 - o.0;
    let b = max.0 - o.0;
    assert(a * 65536 / 65536 == a);
    assert(b * 65536 / 65536 == b);
    assert(a * (-65536) / 65536 == -a);
    assert(b * (-65536) / 65536 == -b);
}

} // verus!
