//! What the maps of an environment come to: light is looked up where it comes from, light from
//! behind does not count, and the faces of a cube map lie where they should.
use vstd::prelude::*;
use crate::camera::SmallAngles;
use crate::ibl::{
    around, even_point, face_point, light_gathered, mean_light, reflected, spread_direction, Curves,
    LightSample,
};
use crate::light_maps::{
    color_towards, diffuse_samples, picture_at, place_in_picture, row_of,
    specular_samples, texel_direction, HdrImage, DIFFUSE_SAMPLE_COUNT,
    SPECULAR_SAMPLE_COUNT,
};
use crate::scalar::{Fixed, Scalar};
use crate::vectors::{Vec2, Vec3};

verus! {

/// Every sample that lights a surface has the colour that the picture shows in the direction from
/// which the sample comes, whether the surface is dull or mirrors.
pub proof fn law_light_has_the_colour_of_its_direction<S: Scalar, A: Curves<S>>(
    image: HdrImage<S>,
    dir: Vec3<S>,
    roughness: S,
    i: int,
)
    ensures
        diffuse_samples::<S, A>(image, dir).len() == DIFFUSE_SAMPLE_COUNT,
        specular_samples::<S, A>(image, dir, roughness).len() == SPECULAR_SAMPLE_COUNT,
        0 <= i < DIFFUSE_SAMPLE_COUNT ==> {
            let sample = diffuse_samples::<S, A>(image, dir)[i];
            sample.color == color_towards::<S, A>(image, sample.direction)
        },
        0 <= i < SPECULAR_SAMPLE_COUNT ==> {
            let sample = specular_samples::<S, A>(image, dir, roughness)[i];
            sample.color == color_towards::<S, A>(image, sample.direction)
        },
{
}

/// Whether a sample comes from the side of a normal.
pub open spec fn from_ahead<S: Scalar>(normal: Vec3<S>, sample: LightSample<S>) -> bool {
    S::zero_spec().lt_spec(
        normal.dot_spec(sample.direction).larger_spec(S::zero_spec()),
    )
}

/// Whether two lists of samples come from the same directions, and have the same colours wherever
/// they come from ahead.
pub open spec fn alike_ahead<S: Scalar>(
    normal: Vec3<S>,
    a: Seq<LightSample<S>>,
    b: Seq<LightSample<S>>,
) -> bool {
    &&& a.len() == b.len()
    &&& forall|i: int|
        0 <= i < a.len() ==> (#[trigger] a[i]).direction == b[i].direction && (from_ahead(
            normal,
            a[i],
        ) ==> a[i].color == b[i].color)
}

proof fn lemma_gathers_alike<S: Scalar>(
    normal: Vec3<S>,
    a: Seq<LightSample<S>>,
    b: Seq<LightSample<S>>,
    n: int,
)
    requires
        alike_ahead(normal, a, b),
        n <= a.len(),
    ensures
        light_gathered(normal, a, n) == light_gathered(normal, b, n),
    decreases n,
{
    if n > 0 {
        lemma_gathers_alike(normal, a, b, n - 1);
        assert(a[n - 1].direction == b[n - 1].direction);
    }
}

/// Light from behind a surface does not count: what shines there can be anything.
pub proof fn law_light_from_behind_does_not_count<S: Scalar>(
    normal: Vec3<S>,
    a: Seq<LightSample<S>>,
    b: Seq<LightSample<S>>,
)
    requires
        alike_ahead(normal, a, b),
    ensures
        mean_light(normal, a) == mean_light(normal, b),
{
    lemma_gathers_alike(normal, a, b, a.len() as int);
}

/// Whether the colours of samples that come from ahead are none of them brighter than `most`.
pub open spec fn none_brighter(
    normal: Vec3<Fixed>,
    samples: Seq<LightSample<Fixed>>,
    most: int,
) -> bool {
    forall|i: int|
        0 <= i < samples.len() && from_ahead(normal, #[trigger] samples[i]) ==> {
            &&& 0 <= samples[i].color.x.0 <= most
            &&& 0 <= samples[i].color.y.0 <= most
            &&& 0 <= samples[i].color.z.0 <= most
        }
}

proof fn lemma_gathered_within(
    normal: Vec3<Fixed>,
    samples: Seq<LightSample<Fixed>>,
    most: int,
    n: int,
)
    requires
        none_brighter(normal, samples, most),
        0 <= most <= 0x1_0000_0000,
        0 <= n <= samples.len() <= 0x400,
        forall|i: int|
            0 <= i < samples.len() ==> normal.dot_spec((#[trigger] samples[i]).direction).0
                <= 0x10_0000,
    ensures
        ({
            let (sum, weights) = light_gathered(normal, samples, n);
            &&& 0 <= weights.0 <= n * 0x10_0000
            &&& 0 <= sum.x.0 && sum.x.0 * 65536 <= most * weights.0
            &&& 0 <= sum.y.0 && sum.y.0 * 65536 <= most * weights.0
            &&& 0 <= sum.z.0 && sum.z.0 * 65536 <= most * weights.0
        }),
    decreases n,
{
    if n > 0 {
        lemma_gathered_within(normal, samples, most, n - 1);
        let (sum, weights) = light_gathered(normal, samples, n - 1);
        let sample = samples[n - 1];
        let w = normal.dot_spec(sample.direction);
        if 0 < w.0 {
            assert(from_ahead(normal, sample));
            let c = sample.color;
            lemma_share(c.x.0 as int, w.0 as int, most);
            lemma_share(c.y.0 as int, w.0 as int, most);
            lemma_share(c.z.0 as int, w.0 as int, most);
            assert(most * (weights.0 + w.0) == most * weights.0 + most * w.0) by (nonlinear_arith);
            assert(most * (weights.0 + w.0) <= 0x1_0000_0000 * 0x4000_0000) by (nonlinear_arith)
                requires
                    0 <= most <= 0x1_0000_0000,
                    0 <= weights.0 + w.0 <= 0x4000_0000,
            ;
        }
    }
}

proof fn lemma_share(c: int, w: int, most: int)
    requires
        0 <= c <= most,
        0 <= w <= 0x10_0000,
        most <= 0x1_0000_0000,
    ensures
        0 <= c * w / 65536,
        c * w / 65536 * 65536 <= most * w,
        c * w / 65536 <= 0x100_0000_0000,
{
    assert(0 <= c * w <= most * w) by (nonlinear_arith)
        requires
            0 <= c <= most,
            0 <= w,
    ;
    assert(most * w <= 0x1_0000_0000 * 0x10_0000) by (nonlinear_arith)
        requires
            0 <= most <= 0x1_0000_0000,
            0 <= w <= 0x10_0000,
    ;
}

/// A surface is lit no brighter than the brightest light that falls on it.
pub proof fn law_nothing_is_lit_brighter_than_its_light(
    normal: Vec3<Fixed>,
    samples: Seq<LightSample<Fixed>>,
    most: int,
)
    requires
        none_brighter(normal, samples, most),
        0 <= most <= 0x1_0000_0000,
        samples.len() <= 0x400,
        forall|i: int|
            0 <= i < samples.len() ==> normal.dot_spec((#[trigger] samples[i]).direction).0
                <= 0x10_0000,
    ensures
        ({
            let lit = mean_light(normal, samples);
            &&& 0 <= lit.x.0 <= most
            &&& 0 <= lit.y.0 <= most
            &&& 0 <= lit.z.0 <= most
        }),
{
    let n = samples.len() as int;
    lemma_gathered_within(normal, samples, most, n);
    let (sum, weights) = light_gathered(normal, samples, n);
    if 0 < weights.0 {
        lemma_mean(sum.x.0 as int, weights.0 as int, most);
        lemma_mean(sum.y.0 as int, weights.0 as int, most);
        lemma_mean(sum.z.0 as int, weights.0 as int, most);
    } else {
        assert(most * 0 == 0);
    }
}

proof fn lemma_mean(sum: int, weights: int, most: int)
    requires
        0 <= sum,
        0 < weights,
        sum * 65536 <= most * weights,
    ensures
        0 <= sum * 65536 / weights <= most,
{
    assert(0 <= sum * 65536 / weights <= most) by (nonlinear_arith)
        requires
            0 <= sum,
            0 < weights,
            sum * 65536 <= most * weights,
    ;
}

/// A picture shows higher directions higher up: of two directions of length one the steeper one
/// lies in no lower row. Angles are to get smaller as their cosines get larger.
pub proof fn law_higher_directions_lie_higher<A: Curves<Fixed>>(
    width: u32,
    height: u32,
    high: Vec3<Fixed>,
    low: Vec3<Fixed>,
)
    requires
        1 <= height,
        low.unit_spec().y.0 <= high.unit_spec().y.0,
        0 < A::half_circle_spec().0,
        forall|x: Fixed, y: Fixed|
            x.0 <= y.0 ==> (#[trigger] A::angle_of_cosine_spec(y)).0 <= (
            #[trigger] A::angle_of_cosine_spec(x)).0,
    ensures
        place_in_picture::<Fixed, A>(width, height, high).1.0 <= place_in_picture::<Fixed, A>(
            width,
            height,
            low,
        ).1.0,
        row_of(place_in_picture::<Fixed, A>(width, height, high).1, height) <= row_of(
            place_in_picture::<Fixed, A>(width, height, low).1,
            height,
        ),
{
    let one = Fixed::one_spec();
    let a = crate::scalar::clamped_spec(high.unit_spec().y, one.negated_spec(), one);
    let b = crate::scalar::clamped_spec(low.unit_spec().y, one.negated_spec(), one);
    assert(b.0 <= a.0);
    let ta = A::angle_of_cosine_spec(a);
    let tb = A::angle_of_cosine_spec(b);
    let half = A::half_circle_spec();
    assert(ta.0 <= tb.0);
    let va = ta.over_spec(half);
    let vb = tb.over_spec(half);
    assert(ta.0 * 65536 / half.0 as int <= tb.0 * 65536 / half.0 as int) by (nonlinear_arith)
        requires
            ta.0 <= tb.0,
            0 < half.0,
    ;
    let rows = Fixed::from_count_spec(height as usize).minus_spec(one);
    assert(rows.0 == (height - 1) * 65536);
    assert(va.0 * rows.0 <= vb.0 * rows.0) by (nonlinear_arith)
        requires
            va.0 <= vb.0,
            0 <= rows.0,
    ;
}

/// With angles that are small, where the cosine falls by as much as the angle grows, a direction
/// that is steeper lies no lower in a picture.
pub proof fn law_small_angles_lie_in_order(
    width: u32,
    height: u32,
    high: Vec3<Fixed>,
    low: Vec3<Fixed>,
)
    requires
        1 <= height,
        low.unit_spec().y.0 <= high.unit_spec().y.0,
    ensures
        row_of(place_in_picture::<Fixed, SmallAngles>(width, height, high).1, height) <= row_of(
            place_in_picture::<Fixed, SmallAngles>(width, height, low).1,
            height,
        ),
{
    assert(22 * 65536 * 65536 / (7 * 65536) > 0);
    law_higher_directions_lie_higher::<SmallAngles>(width, height, high, low);
}

/// A place on a pixel of a picture shows that pixel.
pub proof fn law_pictures_show_their_pixels(image: HdrImage<Fixed>, x: u32, y: u32)
    requires
        image.wf(),
        x < image.width,
        y < image.height,
        image.width <= 0x1000_0000 && image.height <= 0x1000_0000,
    ensures
        picture_at(image, Fixed((x * 65536) as i64), Fixed((y * 65536) as i64)) == image.pixel_spec(
            x,
            y,
        ),
{
    let px = Fixed((x * 65536) as i64);
    let py = Fixed((y * 65536) as i64);
    assert(px.floored_spec() == px);
    assert(py.floored_spec() == py);
    let w = Fixed::from_count_spec(image.width as usize);
    assert(w.0 == image.width * 65536);
    assert(px.rem_euclid_by_spec(w) == px) by {
        vstd::arithmetic::div_mod::lemma_small_mod(px.0 as nat, w.0 as nat);
    }
    assert(crate::light_maps::column_of(px, image.width) == x);
    assert(row_of(py, image.height) == y);
    let c = image.pixel_spec(x, y);
    lemma_lerp_at_start(c, image.pixel_spec(
        crate::light_maps::column_of(px.plus_spec(Fixed::one_spec()), image.width),
        y,
    ));
    let lower = row_of(py.plus_spec(Fixed::one_spec()), image.height);
    let right = crate::light_maps::column_of(px.plus_spec(Fixed::one_spec()), image.width);
    lemma_lerp_at_start(
        c,
        image.pixel_spec(x, lower).lerp_spec(image.pixel_spec(right, lower), Fixed(0)),
    );
}

proof fn lemma_lerp_at_start(a: Vec3<Fixed>, b: Vec3<Fixed>)
    ensures
        a.lerp_spec(b, Fixed(0)) == a,
{
    assert(a.x.0 * 65536 / 65536 == a.x.0);
    assert(a.y.0 * 65536 / 65536 == a.y.0);
    assert(a.z.0 * 65536 / 65536 == a.z.0);
    assert(b.x.0 * 0 == 0 && b.y.0 * 0 == 0 && b.z.0 * 0 == 0);
}

/// The middle of every face of a cube map lies along its axis: the faces come in pairs, first the
/// positive and then the negative end of the axes in turn. On the four sides the rows go down.
pub proof fn law_faces_lie_along_their_axes(a: Fixed, b: Fixed)
    requires
        -65536 <= a.0 <= 65536,
        -65536 <= b.0 <= 65536,
    ensures
        ({
            let p = |face: usize| face_point(face, a, b);
            &&& p(0).x.0 == 65536 && p(1).x.0 == -65536
            &&& p(2).y.0 == 65536 && p(3).y.0 == -65536
            &&& p(4).z.0 == 65536 && p(5).z.0 == -65536
            &&& p(0).y.0 == -b.0 && p(1).y.0 == -b.0 && p(4).y.0 == -b.0 && p(5).y.0 == -b.0
            &&& p(0).z.0 == -a.0 && p(1).z.0 == a.0 && p(4).x.0 == a.0 && p(5).x.0 == -a.0
            &&& p(2).x.0 == a.0 && p(2).z.0 == b.0 && p(3).x.0 == a.0 && p(3).z.0 == -b.0
        }),
{
}

/// Straight up around a normal is along the normal, and what is mirrored at an axis keeps its parts
/// across the axis and has the one along it turned round.
pub proof fn law_up_is_along_the_normal(normal: Vec3<Fixed>, v: Vec3<Fixed>)
    requires
        -0x1000_0000 <= v.x.0 <= 0x1000_0000,
        -0x1000_0000 <= v.y.0 <= 0x1000_0000,
        -0x1000_0000 <= v.z.0 <= 0x1000_0000,
    ensures
        around(normal, Vec3 { x: Fixed(0), y: Fixed(0), z: Fixed(65536) }) == normal,
        reflected(v, Vec3 { x: Fixed(0), y: Fixed(0), z: Fixed(65536) }) == (Vec3 {
            x: v.x,
            y: v.y,
            z: Fixed((-v.z.0) as i64),
        }),
        reflected(v, Vec3 { x: Fixed(0), y: Fixed(65536), z: Fixed(0) }) == (Vec3 {
            x: v.x,
            y: Fixed((-v.y.0) as i64),
            z: v.z,
        }),
        reflected(v, Vec3 { x: Fixed(65536), y: Fixed(0), z: Fixed(0) }) == (Vec3 {
            x: Fixed((-v.x.0) as i64),
            y: v.y,
            z: v.z,
        }),
{
    assert(normal.x.0 * 65536 / 65536 == normal.x.0);
    assert(normal.y.0 * 65536 / 65536 == normal.y.0);
    assert(normal.z.0 * 65536 / 65536 == normal.z.0);
    lemma_times_nothing();
    lemma_times_whole();
    lemma_twice(v.x);
    lemma_twice(v.y);
    lemma_twice(v.z);
    let z = Vec3 { x: Fixed(0), y: Fixed(0), z: Fixed(65536) };
    assert(v.dot_spec(z) == v.z);
    let y = Vec3 { x: Fixed(0), y: Fixed(65536), z: Fixed(0) };
    assert(v.dot_spec(y) == v.y);
    let x = Vec3 { x: Fixed(65536), y: Fixed(0), z: Fixed(0) };
    assert(v.dot_spec(x) == v.x);
}

proof fn lemma_twice(f: Fixed)
    requires
        -0x1000_0000 <= f.0 <= 0x1000_0000,
    ensures
        Fixed::from_count_spec(2).times_spec(f) == Fixed((2 * f.0) as i64),
{
    assert(Fixed::from_count_spec(2) == Fixed(131072));
    assert(131072 * f.0 / 65536 == 2 * f.0);
}

pub proof fn lemma_times_nothing()
    ensures
        forall|f: Fixed| (#[trigger] f.times_spec(Fixed(0))).0 == 0,
        forall|f: Fixed| (#[trigger] Fixed(0).times_spec(f)).0 == 0,
{
    assert forall|f: Fixed| (#[trigger] f.times_spec(Fixed(0))).0 == 0 by {
        assert(f.0 * 0 == 0);
    }
    assert forall|f: Fixed| (#[trigger] Fixed(0).times_spec(f)).0 == 0 by {
        assert(0 * f.0 == 0);
    }
}

pub proof fn lemma_times_whole()
    ensures
        forall|f: Fixed| #[trigger] f.times_spec(Fixed(65536)) == f,
        forall|f: Fixed| #[trigger] Fixed(65536).times_spec(f) == f,
{
    assert forall|f: Fixed| #[trigger] f.times_spec(Fixed(65536)) == f by {
        assert(f.0 * 65536 / 65536 == f.0);
    }
    assert forall|f: Fixed| #[trigger] Fixed(65536).times_spec(f) == f by {
        assert(65536 * f.0 / 65536 == f.0);
    }
}

/// Straight up, or straight down.
pub open spec fn upright(up: bool) -> Vec3<Fixed> {
    Vec3 {
        x: Fixed(0),
        y: if up {
            Fixed(65536)
        } else {
            Fixed((-65536) as i64)
        },
        z: Fixed(0),
    }
}

/// What falls on a dull surface that faces straight up comes from above the horizon, and on one that
/// faces straight down from below it.
pub proof fn law_light_comes_from_the_side_of_the_surface<A: Curves<Fixed>>(
    up: bool,
    xi: Vec2<Fixed>,
)
    requires
        0 <= xi.x.0 <= 65536,
    ensures
        up ==> 0 <= spread_direction::<Fixed, A>(upright(up), xi).y.0,
        !up ==> spread_direction::<Fixed, A>(upright(up), xi).y.0 <= 0,
        xi.x.0 == 0 ==> spread_direction::<Fixed, A>(upright(up), xi).y == upright(up).y,
{
    lemma_times_nothing();
    lemma_times_whole();
    let n = upright(up);
    let far = xi.x.root_spec();
    let theta = crate::ibl::circle_share::<Fixed, A>(xi.y);
    let v = Vec3 {
        x: far.times_spec(A::cosine_spec(theta)),
        y: far.times_spec(A::sine_spec(theta)),
        z: Fixed::one_spec().minus_spec(xi.x).root_spec(),
    };
    assert(0 <= v.z.0 <= i64::MAX) by {
        crate::scalar::lemma_root_fits(65536 - xi.x.0);
    }
    assert(xi.x.0 == 0 ==> v.z.0 == 65536) by {
        crate::scalar::lemma_floor_root_unique(4294967296, 65536);
    }
    let side = Vec3 { x: Fixed(0), y: Fixed(0), z: Fixed(65536) };
    let t = n.cross_spec(side);
    assert(t == (Vec3 { x: n.y, y: Fixed(0), z: Fixed(0) }));
    assert(n.y.0 * n.y.0 == 65536 * 65536);
    assert(t.dot_spec(t) == Fixed(65536));
    assert(t.length_spec() == Fixed(65536)) by {
        crate::scalar::lemma_floor_root_unique(4294967296, 65536);
    }
    assert(t.unit_spec() == t);
    let b = n.cross_spec(t);
    assert(b.y.0 == 0);
    assert(crate::scalar::ratio_spec::<Fixed>(999, 1000).0 > 0) by {
        assert(Fixed::from_count_spec(999) == Fixed(65470464));
        assert(Fixed::from_count_spec(1000) == Fixed(65536000));
        assert(65470464int * 65536 / 65536000 == 65470);
    }
    assert(n.y.0 == -65536 ==> n.y.times_spec(v.z).0 == -v.z.0) by {
        assert((-65536) * v.z.0 / 65536 == -v.z.0);
    }
}

/// Whether two pictures are of one size and agree in the rows down to one.
pub open spec fn agree_down_to(a: HdrImage<Fixed>, b: HdrImage<Fixed>, row: u32) -> bool {
    &&& a.width == b.width && a.height == b.height
    &&& forall|x: u32, y: u32|
        x < a.width && y < a.height && y <= row ==> #[trigger] a.pixel_spec(x, y) == b.pixel_spec(
            x,
            y,
        )
}

/// Whether angles get smaller as their cosines get larger.
pub open spec fn angles_fall<A: Curves<Fixed>>() -> bool {
    &&& 0 < A::half_circle_spec().0
    &&& forall|x: Fixed, y: Fixed|
        x.0 <= y.0 ==> (#[trigger] A::angle_of_cosine_spec(y)).0 <= (
        #[trigger] A::angle_of_cosine_spec(x)).0
}

/// The last row that the horizon of a picture shows anything of.
pub open spec fn horizon_row<A: Curves<Fixed>>(width: u32, height: u32) -> u32 {
    let level = Vec3 { x: Fixed(65536), y: Fixed(0), z: Fixed(0) };
    let y = place_in_picture::<Fixed, A>(width, height, level).1;
    row_of(y.floored_spec().plus_spec(Fixed::one_spec()), height)
}

proof fn lemma_floors_in_order(a: Fixed, b: Fixed, height: u32)
    requires
        a.0 <= b.0,
        1 <= height,
    ensures
        row_of(a.floored_spec(), height) <= row_of(
            a.floored_spec().plus_spec(Fixed::one_spec()),
            height,
        ),
        row_of(a.floored_spec().plus_spec(Fixed::one_spec()), height) <= row_of(
            b.floored_spec().plus_spec(Fixed::one_spec()),
            height,
        ),
{
    assert(a.0 as int / 65536 <= b.0 as int / 65536);
}

/// What a picture shows above the horizon does not depend on its lower rows.
pub proof fn law_lower_rows_are_not_seen_above_the_horizon<A: Curves<Fixed>>(
    a: HdrImage<Fixed>,
    b: HdrImage<Fixed>,
    dir: Vec3<Fixed>,
)
    requires
        a.wf(),
        agree_down_to(a, b, horizon_row::<A>(a.width, a.height)),
        angles_fall::<A>(),
        0 <= dir.y.0,
    ensures
        color_towards::<Fixed, A>(a, dir) == color_towards::<Fixed, A>(b, dir),
{
    let level = Vec3 { x: Fixed(65536), y: Fixed(0), z: Fixed(0) };
    lemma_times_nothing();
    let k = Fixed::one_spec().over_spec(dir.length_spec());
    assert(0 <= k.0) by {
        let l = dir.length_spec().0;
        let q = 4294967296int / l as int;
        assert(0 < l ==> 0 <= q) by (nonlinear_arith)
            requires
                q == 4294967296int / l as int,
        ;
        let d = dir.dot_spec(dir);
        if 0 < d.0 {
            crate::scalar::lemma_floor_root(d.0 * 65536);
            crate::scalar::lemma_root_fits(d.0 as int);
        }
    }
    assert(0 <= dir.y.0 * k.0) by (nonlinear_arith)
        requires
            0 <= dir.y.0,
            0 <= k.0,
    ;
    assert(0 <= dir.unit_spec().y.0);
    assert(level.unit_spec().y.0 == 0);
    law_higher_directions_lie_higher::<A>(a.width, a.height, dir, level);
    let (x, y) = place_in_picture::<Fixed, A>(a.width, a.height, dir);
    let h = place_in_picture::<Fixed, A>(a.width, a.height, level).1;
    lemma_floors_in_order(y, h, a.height);
    let x0 = x.floored_spec();
    let y0 = y.floored_spec();
    let left = crate::light_maps::column_of(x0, a.width);
    let right = crate::light_maps::column_of(x0.plus_spec(Fixed::one_spec()), a.width);
    let upper = row_of(y0, a.height);
    let lower = row_of(y0.plus_spec(Fixed::one_spec()), a.height);
    assert(a.pixel_spec(left, upper) == b.pixel_spec(left, upper));
    assert(a.pixel_spec(right, upper) == b.pixel_spec(right, upper));
    assert(a.pixel_spec(left, lower) == b.pixel_spec(left, lower));
    assert(a.pixel_spec(right, lower) == b.pixel_spec(right, lower));
}

/// The light on a dull surface that faces straight up does not depend on what the picture shows
/// below the horizon.
pub proof fn law_the_ground_does_not_light_what_faces_up<A: Curves<Fixed>>(
    a: HdrImage<Fixed>,
    b: HdrImage<Fixed>,
)
    requires
        a.wf(),
        agree_down_to(a, b, horizon_row::<A>(a.width, a.height)),
        angles_fall::<A>(),
    ensures
        mean_light(upright(true), diffuse_samples::<Fixed, A>(a, upright(true))) == mean_light(
            upright(true),
            diffuse_samples::<Fixed, A>(b, upright(true)),
        ),
{
    let n = upright(true);
    let from_a = diffuse_samples::<Fixed, A>(a, n);
    let from_b = diffuse_samples::<Fixed, A>(b, n);
    assert forall|i: int| 0 <= i < from_a.len() implies #[trigger] from_a[i] == from_b[i] by {
        let xi = even_point::<Fixed>(i as u32, DIFFUSE_SAMPLE_COUNT);
        assert(0 <= xi.x.0 <= 65536) by {
            let q = i * 4294967296int / 4194304int;
            assert(0 <= q <= 65536) by (nonlinear_arith)
                requires
                    q == i * 4294967296int / 4194304int,
                    0 <= i < 64,
            ;
        }
        law_light_comes_from_the_side_of_the_surface::<A>(true, xi);
        law_lower_rows_are_not_seen_above_the_horizon::<A>(
            a,
            b,
            spread_direction::<Fixed, A>(n, xi),
        );
    }
    assert(from_a =~= from_b);
}

/// The one texel of the upper face of the smallest cube map faces straight up.
pub proof fn law_smallest_upper_face_faces_up()
    ensures
        texel_direction::<Fixed>(2, 0, 0, 1) == upright(true),
        texel_direction::<Fixed>(3, 0, 0, 1) == upright(false),
{
    lemma_times_nothing();
    lemma_times_whole();
    assert(crate::scalar::ratio_spec::<Fixed>(1, 2) == Fixed(32768)) by {
        assert(65536 * 65536 / (2 * 65536) == 32768);
    }
    assert(crate::ibl::side_place::<Fixed>(0, 1) == Fixed(0)) by {
        assert(131072 * 32768 / 65536 == 65536);
        assert(65536 * 65536 / 65536 == 65536);
    }
    crate::scalar::lemma_floor_root_unique(4294967296, 65536);
    assert((-65536) * (-65536) / 65536 == 65536);
    assert((-65536) * 65536 / 65536 == -65536);
    let a = face_point::<Fixed>(2, Fixed(0), Fixed(0));
    let b = face_point::<Fixed>(3, Fixed(0), Fixed(0));
    assert(a.dot_spec(a) == Fixed(65536));
    assert(b.dot_spec(b) == Fixed(65536));
}

} // verus!
