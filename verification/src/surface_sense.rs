//! What lighting a surface comes to: mirrors mirror, rough surfaces throw less back, and sides are
//! covered evenly.
use vstd::prelude::*;
use crate::camera::SmallAngles;
use crate::ibl::{
    around, even_point, facet_cosine, facet_sine, reflected, roughness_of_level, schlick, side_place, smith,
};
use crate::light_maps::place_in_picture;
use crate::light_sense::{lemma_times_nothing, lemma_times_whole};
use crate::mesh_sense::modest3;
use crate::particle_motion::lemma_over_keeps_sign;
use crate::scalar::{Fixed, Scalar};
use crate::vectors::Vec3;

verus! {

/// A mirror turns round what goes along the way that it faces and leaves what goes along it; what is
/// mirrored twice is what it was.
pub proof fn law_mirrors_turn_round_what_comes(v: Vec3<Fixed>)
    requires
        modest3(v),
    ensures
        ({
            let n = Vec3 { x: Fixed(0), y: Fixed(0), z: Fixed(65536) };
            let r = reflected(v, n);
            &&& r.x == v.x && r.y == v.y && r.z.0 == -v.z.0
            &&& reflected(r, n) == v
        }),
        ({
            let n = Vec3 { x: Fixed(0), y: Fixed(65536), z: Fixed(0) };
            let r = reflected(v, n);
            r.x == v.x && r.z == v.z && r.y.0 == -v.y.0
        }),
        ({
            let n = Vec3 { x: Fixed(65536), y: Fixed(0), z: Fixed(0) };
            let r = reflected(v, n);
            r.y == v.y && r.z == v.z && r.x.0 == -v.x.0
        }),
{
    assert(Fixed::from_count_spec(2) == Fixed(131072));
    lemma_whole_times(v.x);
    lemma_whole_times(v.y);
    lemma_whole_times(v.z);
    lemma_whole_times(Fixed((-v.z.0) as i64));
}

proof fn lemma_whole_times(a: Fixed)
    requires
        -0x1000_0000_0000_0000 <= a.0 <= 0x1000_0000_0000_0000,
    ensures
        a.times_spec(Fixed(0)).0 == 0,
        Fixed(0).times_spec(a).0 == 0,
        a.times_spec(Fixed(65536)) == a,
        Fixed(131072).times_spec(a).0 == 2 * a.0,
        Fixed(0).times_spec(Fixed((2 * a.0) as i64)).0 == 0,
        Fixed(65536).times_spec(Fixed((2 * a.0) as i64)).0 == 2 * a.0,
{
    assert(a.0 * 0 == 0 && 0 * a.0 == 0 && 0 * (2 * a.0) == 0);
    assert(a.0 * 65536 / 65536 == a.0);
    assert(131072 * a.0 / 65536 == 2 * a.0);
    assert(65536 * (2 * a.0) / 65536 == 2 * a.0);
}

/// The parts of a side follow one another from -1 to 1.
pub proof fn law_sides_are_covered_in_order(i: u32, size: u32)
    requires
        i < size <= 65536,
    ensures
        -65536 <= side_place::<Fixed>(i, size).0 < 65536,
        i + 1 < size ==> side_place::<Fixed>(i, size).0 < side_place::<Fixed>((i + 1) as u32, size).0,
        (2 * i + 1 < size) ==> side_place::<Fixed>(i, size).0 < 0,
        (size <= 2 * i + 1) ==> 0 <= side_place::<Fixed>(i, size).0,
        ({
            let p = side_place::<Fixed>(i, size).0 + 65536;
            p * size <= 131072 * i + 65536 < (p + 1) * size
        }),
{
    lemma_side_place(i, size);
    let n = size as int;
    let p = side_place::<Fixed>(i, size).0 + 65536;
    assert(0 <= p < 131072) by (nonlinear_arith)
        requires
            p * n <= 131072 * i + 65536 < (p + 1) * n,
            0 <= i < n,
    ;
    assert(2 * i + 1 < n ==> p < 65536) by (nonlinear_arith)
        requires
            p * n <= 131072 * i + 65536,
            0 < n,
    ;
    assert(n <= 2 * i + 1 ==> 65536 <= p) by (nonlinear_arith)
        requires
            131072 * i + 65536 < (p + 1) * n,
            0 < n,
    ;
    if i + 1 < size {
        lemma_side_place((i + 1) as u32, size);
        let q = side_place::<Fixed>((i + 1) as u32, size).0 + 65536;
        assert(p < q) by (nonlinear_arith)
            requires
                p * n <= 131072 * i + 65536,
                131072 * (i + 1) + 65536 < (q + 1) * n,
                0 < n <= 65536,
        ;
    }
}

proof fn lemma_side_place(i: u32, size: u32)
    requires
        i < size <= 65536,
    ensures
        ({
            let p = side_place::<Fixed>(i, size).0 + 65536;
            p * size <= 131072 * i + 65536 < (p + 1) * size
        }),
{
    assert(Fixed::from_count_spec(1) == Fixed(65536));
    assert(Fixed::from_count_spec(2) == Fixed(131072));
    assert(65536int * 65536 / 131072 == 32768);
    assert(Fixed::from_count_spec(i as usize).0 == 65536 * i);
    assert(Fixed::from_count_spec(size as usize).0 == 65536 * size);
    let x = 65536 * i + 32768;
    assert(131072 * x / 65536 == 2 * x);
    let n = size as int;
    let t = 2 * x;
    let q = t * 65536 / (65536 * n);
    assert(q * n <= t < (q + 1) * n) by (nonlinear_arith)
        requires
            q == t * 65536 / (65536 * n),
            0 < n,
    ;
    assert(0 <= q <= t) by (nonlinear_arith)
        requires
            q * n <= t < (q + 1) * n,
            0 < n,
            0 <= t,
    ;
}

/// A surface seen straight on throws all light back whatever its roughness, and none where it is seen
/// from the side; a rougher one never throws back more.
pub proof fn law_rough_surfaces_throw_less_back(straight: Fixed, smooth: Fixed, rough: Fixed)
    requires
        0 <= straight.0 <= 65536,
        0 <= smooth.0 <= rough.0 <= 65536,
    ensures
        schlick(Fixed(65536), rough).0 == 65536,
        schlick(Fixed(0), rough).0 == 0,
        0 <= schlick(straight, rough).0,
        schlick(straight, rough).0 <= schlick(straight, smooth).0,
{
    lemma_schlick(Fixed(65536), rough);
    lemma_schlick(Fixed(0), rough);
    lemma_schlick(straight, rough);
    lemma_schlick(straight, smooth);
    let k1 = share_of(smooth);
    let k2 = share_of(rough);
    let a = (smooth.0 + 65536) as int;
    let b = (rough.0 + 65536) as int;
    assert(a * a <= b * b) by (nonlinear_arith)
        requires
            0 <= a <= b,
    ;
    assert(k1 <= k2);
    let s = straight.0 as int;
    let d1 = s * (65536 - k1) / 65536 + k1;
    let d2 = s * (65536 - k2) / 65536 + k2;
    let e = k2 - k1;
    let m2 = s * (65536 - k2);
    let m1 = s * (65536 - k1);
    assert(m1 == m2 + s * e) by (nonlinear_arith)
        requires
            m1 == s * (65536 - k1),
            m2 == s * (65536 - k2),
            e == k2 - k1,
    ;
    assert(0 <= s * e <= 65536 * e) by (nonlinear_arith)
        requires
            0 <= s <= 65536,
            0 <= e,
    ;
    assert(m1 / 65536 <= m2 / 65536 + e);
    assert(d1 <= d2);
    assert(0 < d1);
    let p = s * 65536;
    assert(p / d2 <= p / d1) by (nonlinear_arith)
        requires
            0 <= p,
            0 < d1 <= d2,
    ;
    assert(65536 * (65536 - k2) / 65536 == 65536 - k2);
    assert(0 * (65536 - k2) == 0);
    assert(65536int * 65536 / 65536 == 65536);
    if s == 0 {
        assert(0int / d2 == 0) by (nonlinear_arith)
            requires
                0 < d2,
        ;
    }
    let z = k2;
    assert(0int / z == 0) by (nonlinear_arith)
        requires
            0 < z,
    ;
}

/// How much a roughness takes away.
pub open spec fn share_of(roughness: Fixed) -> int {
    ((roughness.0 + 65536) * (roughness.0 + 65536) / 65536) * 8192 / 65536
}

proof fn lemma_schlick(straight: Fixed, roughness: Fixed)
    requires
        0 <= straight.0 <= 65536,
        0 <= roughness.0 <= 65536,
    ensures
        8192 <= share_of(roughness) <= 32768,
        ({
            let k = share_of(roughness);
            let s = straight.0 as int;
            schlick(straight, roughness).0 == s * 65536 / (s * (65536 - k) / 65536 + k)
        }),
        0 <= schlick(straight, roughness).0,
{
    assert(Fixed::from_count_spec(1) == Fixed(65536));
    assert(Fixed::from_count_spec(8) == Fixed(524288));
    assert(65536int * 65536 / 524288 == 8192);
    let r = (roughness.0 + 65536) as int;
    assert(4294967296 <= r * r <= 17179869184) by (nonlinear_arith)
        requires
            65536 <= r <= 131072,
    ;
    let k = share_of(roughness);
    assert(8192 <= k <= 32768);
    let s = straight.0 as int;
    let m = s * (65536 - k);
    assert(0 <= m <= 4294967296int) by (nonlinear_arith)
        requires
            m == s * (65536 - k),
            0 <= s <= 65536,
            0 <= k <= 32768,
    ;
    let d = m / 65536 + k;
    let p = s * 65536;
    assert(0 <= p / d <= p) by (nonlinear_arith)
        requires
            0 <= p,
            0 < d,
    ;
}

/// It makes no difference which way light goes.
pub proof fn law_light_goes_either_way(normal: Vec3<Fixed>, v: Vec3<Fixed>, l: Vec3<Fixed>, roughness: Fixed)
    ensures
        smith(normal, v, l, roughness) == smith(normal, l, v, roughness),
{
    let a = schlick(normal.dot_spec(v).larger_spec(Fixed(0)), roughness);
    let b = schlick(normal.dot_spec(l).larger_spec(Fixed(0)), roughness);
    assert(a.0 * b.0 == b.0 * a.0) by (nonlinear_arith);
}

/// A surface that is seen or lit from behind throws nothing back.
pub proof fn law_nothing_comes_from_behind(normal: Vec3<Fixed>, v: Vec3<Fixed>, l: Vec3<Fixed>, roughness: Fixed)
    requires
        0 <= roughness.0 <= 65536,
        normal.dot_spec(v).0 <= 0 || normal.dot_spec(l).0 <= 0,
    ensures
        smith(normal, v, l, roughness).0 == 0,
{
    law_rough_surfaces_throw_less_back(Fixed(0), roughness, roughness);
    let a = schlick(normal.dot_spec(v).larger_spec(Fixed(0)), roughness);
    let b = schlick(normal.dot_spec(l).larger_spec(Fixed(0)), roughness);
    assert(0 * b.0 == 0 && a.0 * 0 == 0);
}

/// A facet leans from none to fully as its number goes from none to one, whatever the roughness; and
/// its sine and cosine go together as on a circle.
pub proof fn law_facets_lean_as_on_a_circle(roughness: Fixed, c: Fixed)
    requires
        0 <= roughness.0 <= 65536,
        0 <= c.0 <= 65536,
    ensures
        facet_cosine(Fixed(0), roughness).0 == 65536,
        facet_cosine(Fixed(65536), roughness).0 == 0,
        facet_sine(c).0 * facet_sine(c).0 + c.0 * c.0 <= 4295032832int,
        4294967296int < (facet_sine(c).0 + 1) * (facet_sine(c).0 + 1) + c.0 * c.0,
{
    let one = Fixed(65536);
    assert(Fixed::one_spec() == one);
    let a = roughness.larger_spec(crate::scalar::ratio_spec(1, 1000));
    let lean = a.times_spec(a).minus_spec(one);
    assert(lean.0 * 0 == 0);
    assert(lean.times_spec(Fixed(0)).0 == 0);
    assert(65536int * 65536 / 65536 == 65536);
    assert(one.over_spec(one) == one);
    crate::scalar::lemma_floor_root_unique(4294967296int, 65536);
    assert(one.root_spec() == one);
    let whole = one.plus_spec(lean.times_spec(one));
    assert(Fixed(0).over_spec(whole).0 == 0) by {
        let w = whole.0 as int;
        if w != 0 {
            assert(0int / w == 0) by (nonlinear_arith)
                requires
                    w != 0,
            ;
        }
    }
    let m = c.0 * c.0;
    assert(0 <= m <= 4294967296int) by (nonlinear_arith)
        requires
            m == c.0 * c.0,
            0 <= c.0 <= 65536,
    ;
    let e = m / 65536;
    let d = 65536 - e;
    let s = facet_sine(c).0;
    assert(c.times_spec(c).0 == e);
    if 0 < d {
        crate::scalar::lemma_floor_root(d * 65536);
        crate::scalar::lemma_root_fits(d);
        assert(s == crate::scalar::floor_root(d * 65536));
    } else {
        assert(s == 0);
        assert(0int * 0 == 0 && 1int * 1 == 1);
    }
    assert(s * s <= d * 65536 < (s + 1) * (s + 1));
}

/// The first of a map's levels is smooth, the last is as rough as can be, and each is rougher than the
/// one before.
pub proof fn law_levels_get_rougher(level: u32, count: u32)
    requires
        1 < count <= 4096,
        level < count,
    ensures
        roughness_of_level::<Fixed>(0, count).0 == 0,
        roughness_of_level::<Fixed>((count - 1) as u32, count).0 == 65536,
        level + 1 < count ==> roughness_of_level::<Fixed>(level, count).0 < roughness_of_level::<Fixed>(
            (level + 1) as u32,
            count,
        ).0,
{
    lemma_level(0, count);
    lemma_level((count - 1) as u32, count);
    lemma_level(level, count);
    let n = count - 1;
    assert(0int / n == 0) by (nonlinear_arith)
        requires
            0 < n,
    ;
    assert(65536 * n / n == 65536) by (nonlinear_arith)
        requires
            0 < n,
    ;
    if level + 1 < count {
        lemma_level((level + 1) as u32, count);
        let p = 65536 * level;
        assert(p / n < (p + 65536) / n) by (nonlinear_arith)
            requires
                0 < n <= 65536,
        ;
    }
}

proof fn lemma_level(level: u32, count: u32)
    requires
        1 < count <= 4096,
        level < count,
    ensures
        roughness_of_level::<Fixed>(level, count).0 == 65536 * level / (count - 1),
{
    assert(Fixed::from_count_spec(level as usize).0 == 65536 * level);
    assert(Fixed::from_count_spec(count as usize).0 == 65536 * count);
    let n = count - 1;
    let a = 65536 * level;
    let q = a * 65536 / (65536 * n);
    assert(q == a / n) by (nonlinear_arith)
        requires
            q == a * 65536 / (65536 * n),
            0 < n,
            0 <= a,
    ;
    assert(0 <= a / n <= a) by (nonlinear_arith)
        requires
            0 < n,
            0 <= a,
    ;
}

/// Points that cover a square evenly go from one side to the other in even steps.
pub proof fn law_points_are_spread_evenly(i: u32, n: u32)
    requires
        i < n,
    ensures
        even_point::<Fixed>(i, n).x.0 * n <= 65536 * i < (even_point::<Fixed>(i, n).x.0 + 1) * n,
        0 <= even_point::<Fixed>(i, n).x.0 < 65536,
{
    assert(Fixed::from_count_spec(i as usize).0 == 65536 * i);
    assert(Fixed::from_count_spec(n as usize).0 == 65536 * n);
    let a = 65536 * i;
    let q = a * 65536 / (65536 * n);
    assert(q * n <= a < (q + 1) * n && 0 <= q < 65536) by (nonlinear_arith)
        requires
            q == a * 65536 / (65536 * n),
            0 <= a < 65536 * n,
            0 < n,
    ;
}

/// Around an upright normal the three parts of a direction lie along the first axis, against the third
/// and along the normal.
pub proof fn law_directions_lie_around_an_upright_normal(v: Vec3<Fixed>)
    requires
        modest3(v),
    ensures
        around(Vec3 { x: Fixed(0), y: Fixed(65536), z: Fixed(0) }, v) == (Vec3 {
            x: v.x,
            y: v.z,
            z: Fixed((-v.y.0) as i64),
        }),
{
    lemma_times_nothing();
    lemma_times_whole();
    let n = Vec3 { x: Fixed(0), y: Fixed(65536), z: Fixed(0) };
    let side = Vec3 { x: Fixed(0), y: Fixed(0), z: Fixed(65536) };
    assert(crate::scalar::ratio_spec::<Fixed>(999, 1000).0 > 0) by {
        assert(Fixed::from_count_spec(999) == Fixed(65470464));
        assert(Fixed::from_count_spec(1000) == Fixed(65536000));
        assert(65470464int * 65536 / 65536000 == 65470);
    }
    let t = n.cross_spec(side);
    assert(t == (Vec3 { x: Fixed(65536), y: Fixed(0), z: Fixed(0) }));
    assert(t.dot_spec(t) == Fixed(65536));
    assert(t.length_spec() == Fixed(65536)) by {
        crate::scalar::lemma_floor_root_unique(4294967296, 65536);
    }
    assert(t.unit_spec() == t);
    let b = n.cross_spec(t);
    assert(b == (Vec3 { x: Fixed(0), y: Fixed(0), z: Fixed(-65536i64) }));
    assert((-65536) * v.y.0 / 65536 == -v.y.0);
}

/// A direction between the first and the third axis lies right of the middle of a picture, no farther
/// than the angle between them takes it; one on the other side of the first axis lies left of it.
pub proof fn law_directions_go_round_the_picture(dir: Vec3<Fixed>, width: u32, height: u32)
    requires
        0 < dir.x.0,
        -dir.x.0 <= dir.z.0 <= dir.x.0,
        1 <= width <= 65536,
        0 < dir.unit_spec().x.0,
    ensures
        ({
            let across = place_in_picture::<Fixed, SmallAngles>(width, height, dir).0;
            &&& 0 <= dir.z.0 ==> 32768 * (width - 1) <= across.0 <= 43200 * (width - 1)
            &&& dir.z.0 <= 0 ==> across.0 <= 32768 * (width - 1)
        }),
{
    let d = dir.unit_spec();
    crate::mesh_sense::lemma_unit_keeps_sign3(dir);
    let len = dir.length_spec();
    let k = Fixed::one_spec().over_spec(len);
    assert(0 <= k.0) by {
        let n = dir.dot_spec(dir);
        if 0 < n.0 {
            crate::scalar::lemma_root_fits(n.0 as int);
        }
        if 0 < len.0 {
            lemma_over_keeps_sign(Fixed::one_spec(), len);
        }
    }
    assert(dir.z.0 * k.0 <= dir.x.0 * k.0) by (nonlinear_arith)
        requires
            dir.z.0 <= dir.x.0,
            0 <= k.0,
    ;
    assert(d.z.0 <= d.x.0);
    lemma_over_keeps_sign(d.z, d.x);
    let phi = d.z.over_spec(d.x);
    assert(Fixed::from_count_spec(22) == Fixed(1441792));
    assert(Fixed::from_count_spec(7) == Fixed(458752));
    assert(1441792int * 65536 / 458752 == 205970);
    assert(Fixed::from_count_spec(2) == Fixed(131072));
    assert(131072int * 205970 / 65536 == 411940);
    assert(411940int * 65536 / 65536 == 411940);
    let sum = phi.0 + 205970;
    assert(205970int * 65536 / 411940 == 32768);
    assert(271506int * 65536 / 411940 == 43194);
    assert(phi.0 <= 65536);
    let share = phi.plus_spec(Fixed(205970)).over_spec(Fixed(411940));
    assert(0 <= phi.0 ==> 32768 <= share.0 <= 43194);
    assert(phi.0 <= 0 ==> share.0 <= 32768);
    assert(Fixed::from_count_spec(width as usize).0 == 65536 * width);
    let w = 65536 * (width - 1);
    let m = width - 1;
    assert(share.0 * w == 65536 * (share.0 * m)) by (nonlinear_arith)
        requires
            w == 65536 * m,
    ;
    assert(share.0 * w / 65536 == share.0 * m);
    assert(0 <= phi.0 ==> 32768 * m <= share.0 * m <= 43194 * m) by (nonlinear_arith)
        requires
            0 <= phi.0 ==> 32768 <= share.0 <= 43194,
            0 <= m,
    ;
    assert(phi.0 <= 0 ==> share.0 * m <= 32768 * m) by (nonlinear_arith)
        requires
            phi.0 <= 0 ==> share.0 <= 32768,
            0 <= m,
    ;
}

} // verus!
