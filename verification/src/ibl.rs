//! Light that surroundings cast: how the directions of a cube map and of its samples lie, how
//! samples are weighed, and how the maps are laid out. Angles and powers are those of a `Curves`.
use vstd::prelude::*;
use crate::camera::SmallAngles;
use crate::scalar::{ratio, ratio_spec, Fixed, Scalar};
use crate::vectors::{Vec2, Vec3};

verus! {

/// Angles and powers of numbers.
///
/// As with `Scalar`, every method gives back the value of the spec function of the same name, and
/// nothing is claimed of how they relate.
pub trait Curves<S: Scalar>: Sized {
    spec fn half_circle_spec() -> S;

    spec fn sine_spec(angle: S) -> S;

    spec fn cosine_spec(angle: S) -> S;

    /// The angle whose cosine a number is.
    spec fn angle_of_cosine_spec(x: S) -> S;

    /// The angle of a point, from the first axis towards the second.
    spec fn bearing_spec(second: S, first: S) -> S;

    /// A number times itself, `n` factors in all.
    spec fn repeated_spec(x: S, n: u32) -> S;

    /// A number to the power of another.
    spec fn power_spec(x: S, y: S) -> S;

    fn half_circle() -> (r: S)
        ensures
            r == Self::half_circle_spec(),
    ;

    fn sine(angle: S) -> (r: S)
        ensures
            r == Self::sine_spec(angle),
    ;

    fn cosine(angle: S) -> (r: S)
        ensures
            r == Self::cosine_spec(angle),
    ;

    fn angle_of_cosine(x: S) -> (r: S)
        ensures
            r == Self::angle_of_cosine_spec(x),
    ;

    fn bearing(second: S, first: S) -> (r: S)
        ensures
            r == Self::bearing_spec(second, first),
    ;

    fn repeated(x: S, n: u32) -> (r: S)
        ensures
            r == Self::repeated_spec(x, n),
    ;

    fn power(x: S, y: S) -> (r: S)
        ensures
            r == Self::power_spec(x, y),
    ;
}

/// `n` factors of a number.
pub open spec fn factors<S: Scalar>(x: S, n: nat) -> S
    decreases n,
{
    if n == 0 {
        S::one_spec()
    } else {
        factors(x, (n - 1) as nat).times_spec(x)
    }
}

impl Curves<Fixed> for SmallAngles {
    open spec fn half_circle_spec() -> Fixed {
        ratio_spec(22, 7)
    }

    open spec fn sine_spec(angle: Fixed) -> Fixed {
        angle
    }

    open spec fn cosine_spec(angle: Fixed) -> Fixed {
        Fixed::one_spec()
    }

    open spec fn angle_of_cosine_spec(x: Fixed) -> Fixed {
        Fixed::one_spec().minus_spec(x)
    }

    open spec fn bearing_spec(second: Fixed, first: Fixed) -> Fixed {
        second.over_spec(first)
    }

    open spec fn repeated_spec(x: Fixed, n: u32) -> Fixed {
        factors(x, n as nat)
    }

    open spec fn power_spec(x: Fixed, y: Fixed) -> Fixed {
        Fixed::one_spec().plus_spec(y.times_spec(x.minus_spec(Fixed::one_spec())))
    }

    fn half_circle() -> (r: Fixed) {
        ratio(22, 7)
    }

    fn sine(angle: Fixed) -> (r: Fixed) {
        angle
    }

    fn cosine(angle: Fixed) -> (r: Fixed) {
        Fixed::one()
    }

    fn angle_of_cosine(x: Fixed) -> (r: Fixed) {
        Fixed::one().minus(x)
    }

    fn bearing(second: Fixed, first: Fixed) -> (r: Fixed) {
        second.over(first)
    }

    fn repeated(x: Fixed, n: u32) -> (r: Fixed) {
        let mut r = Fixed::one();
        let mut i: u32 = 0;
        while i < n
            invariant
                i <= n,
                r == factors(x, i as nat),
            decreases n - i,
        {
            r = r.times(x);
            i = i + 1;
        }
        r
    }

    fn power(x: Fixed, y: Fixed) -> (r: Fixed) {
        Fixed::one().plus(y.times(x.minus(Fixed::one())))
    }
}

/// The angle that a share of a full circle is.
pub open spec fn circle_share<S: Scalar, A: Curves<S>>(share: S) -> S {
    S::from_count_spec(2).times_spec(A::half_circle_spec()).times_spec(share)
}

pub(crate) fn share_of_circle<S: Scalar, A: Curves<S>>(share: S) -> (r: S)
    ensures
        r == circle_share::<S, A>(share),
{
    S::from_count(2).times(A::half_circle()).times(share)
}

/// Whether a bit is set.
pub open spec fn bit(x: u32, i: u32) -> bool {
    (x >> i) & 1u32 == 1u32
}

/// Whether the bits of a number are those of another the other way round.
pub open spec fn is_mirrored(m: u32, bits: u32) -> bool {
    forall|i: u32| i < 32 ==> #[trigger] bit(m, i) == bit(bits, (31 - i) as u32)
}

/// The bits of a number the other way round.
pub open spec fn mirrored(bits: u32) -> u32 {
    choose|m: u32| is_mirrored(m, bits)
}

proof fn lemma_same_above(a: u32, b: u32, i: u32)
    requires
        i < 32,
        forall|j: u32| j < 32 ==> #[trigger] bit(a, j) == bit(b, j),
    ensures
        a >> i == b >> i,
    decreases 32 - i,
{
    assert(bit(a, i) == bit(b, i));
    if i < 31 {
        let next: u32 = (i + 1) as u32;
        lemma_same_above(a, b, next);
        assert(a >> i == b >> i) by (bit_vector)
            requires
                i < 31,
                next == i + 1,
                a >> next == b >> next,
                ((a >> i) & 1u32 == 1u32) == ((b >> i) & 1u32 == 1u32),
        ;
    } else {
        assert(a >> i == b >> i) by (bit_vector)
            requires
                i == 31,
                ((a >> i) & 1u32 == 1u32) == ((b >> i) & 1u32 == 1u32),
        ;
    }
}

pub proof fn lemma_mirrored_once(a: u32, b: u32, bits: u32)
    requires
        is_mirrored(a, bits),
        is_mirrored(b, bits),
    ensures
        a == b,
{
    assert forall|j: u32| j < 32 implies #[trigger] bit(a, j) == bit(b, j) by {
        assert(bit(a, j) == bit(bits, (31 - j) as u32));
        assert(bit(b, j) == bit(bits, (31 - j) as u32));
    }
    lemma_same_above(a, b, 0);
    assert(a == b) by (bit_vector)
        requires
            a >> 0u32 == b >> 0u32,
    ;
}

/// Mirroring the bits of a number twice gives the number back.
pub proof fn law_mirroring_undoes_itself(bits: u32, m: u32)
    requires
        is_mirrored(m, bits),
    ensures
        is_mirrored(bits, m),
{
    assert forall|i: u32| i < 32 implies #[trigger] bit(bits, i) == bit(m, (31 - i) as u32) by {
        let j: u32 = (31 - i) as u32;
        assert(bit(m, j) == bit(bits, (31 - j) as u32));
    }
}

pub fn reversed_bits(bits: u32) -> (r: u32)
    ensures
        is_mirrored(r, bits),
        r == mirrored(bits),
{
    let b0: u32 = (bits << 16) | (bits >> 16);
    let b1: u32 = ((b0 & 0x5555_5555) << 1) | ((b0 & 0xAAAA_AAAA) >> 1);
    let b2: u32 = ((b1 & 0x3333_3333) << 2) | ((b1 & 0xCCCC_CCCC) >> 2);
    let b3: u32 = ((b2 & 0x0F0F_0F0F) << 4) | ((b2 & 0xF0F0_F0F0) >> 4);
    let b4: u32 = ((b3 & 0x00FF_00FF) << 8) | ((b3 & 0xFF00_FF00) >> 8);
    proof {
        assert forall|i: u32| i < 32 implies #[trigger] bit(b4, i) == bit(
            bits,
            (31 - i) as u32,
        ) by {
            let j: u32 = (31 - i) as u32;
            assert((b4 >> i) & 1u32 == (bits >> j) & 1u32) by (bit_vector)
                requires
                    i < 32,
                    j == 31 - i,
                    b0 == (bits << 16) | (bits >> 16),
                    b1 == ((b0 & 0x5555_5555) << 1) | ((b0 & 0xAAAA_AAAA) >> 1),
                    b2 == ((b1 & 0x3333_3333) << 2) | ((b1 & 0xCCCC_CCCC) >> 2),
                    b3 == ((b2 & 0x0F0F_0F0F) << 4) | ((b2 & 0xF0F0_F0F0) >> 4),
                    b4 == ((b3 & 0x00FF_00FF) << 8) | ((b3 & 0xFF00_FF00) >> 8),
            ;
        }
        assert(is_mirrored(b4, bits));
        lemma_mirrored_once(b4, mirrored(bits), bits);
    }
    b4
}

/// A number of 32 bits as the fraction that its bits stand for behind the point.
pub open spec fn fraction_of<S: Scalar>(bits: u32) -> S {
    S::from_count_spec(bits as usize).over_spec(S::from_count_spec(65536)).over_spec(
        S::from_count_spec(65536),
    )
}

/// The bits of a number mirrored at the point.
pub fn radical_inverse_vdc<S: Scalar>(bits: u32) -> (r: S)
    ensures
        r == fraction_of::<S>(mirrored(bits)),
{
    let half = S::from_count(65536);
    S::from_count(reversed_bits(bits) as usize).over(half).over(half)
}

/// The `i`-th of `n` points that lie evenly over a square.
pub open spec fn even_point<S: Scalar>(i: u32, n: u32) -> Vec2<S> {
    Vec2 { x: ratio_spec(i as usize, n as usize), y: fraction_of(mirrored(i)) }
}

pub fn hammersley<S: Scalar>(i: u32, n: u32) -> (r: Vec2<S>)
    ensures
        r == even_point::<S>(i, n),
{
    Vec2 { x: ratio(i as usize, n as usize), y: radical_inverse_vdc(i) }
}

/// The middle of the `i`-th of `size` parts of a side that goes from -1 to 1.
pub open spec fn side_place<S: Scalar>(i: u32, size: u32) -> S {
    S::from_count_spec(2).times_spec(
        S::from_count_spec(i as usize).plus_spec(ratio_spec(1, 2)),
    ).over_spec(S::from_count_spec(size as usize)).minus_spec(S::one_spec())
}

fn place_on_side<S: Scalar>(i: u32, size: u32) -> (r: S)
    ensures
        r == side_place::<S>(i, size),
{
    S::from_count(2).times(S::from_count(i as usize).plus(ratio(1, 2))).over(
        S::from_count(size as usize),
    ).minus(S::one())
}

/// Where a texel of a face of a cube lies; `a` and `b` are its places along the two sides.
pub open spec fn face_point<S: Scalar>(face: usize, a: S, b: S) -> Vec3<S> {
    let one = S::one_spec();
    if face == 0 {
        Vec3 { x: one, y: b.negated_spec(), z: a.negated_spec() }
    } else if face == 1 {
        Vec3 { x: one.negated_spec(), y: b.negated_spec(), z: a }
    } else if face == 2 {
        Vec3 { x: a, y: one, z: b }
    } else if face == 3 {
        Vec3 { x: a, y: one.negated_spec(), z: b.negated_spec() }
    } else if face == 4 {
        Vec3 { x: a, y: b.negated_spec(), z: one }
    } else {
        Vec3 { x: a.negated_spec(), y: b.negated_spec(), z: one.negated_spec() }
    }
}

/// The direction in which a texel of a cube map lies.
pub fn cubemap_direction<S: Scalar>(face: usize, x: u32, y: u32, size: u32) -> (r: Vec3<S>)
    ensures
        r == face_point(face, side_place::<S>(x, size), side_place::<S>(y, size)).unit_spec(),
{
    let a: S = place_on_side(x, size);
    let b: S = place_on_side(y, size);
    let one = S::one();
    let point = if face == 0 {
        Vec3 { x: one, y: b.negated(), z: a.negated() }
    } else if face == 1 {
        Vec3 { x: one.negated(), y: b.negated(), z: a }
    } else if face == 2 {
        Vec3 { x: a, y: one, z: b }
    } else if face == 3 {
        Vec3 { x: a, y: one.negated(), z: b.negated() }
    } else if face == 4 {
        Vec3 { x: a, y: b.negated(), z: one }
    } else {
        Vec3 { x: a.negated(), y: b.negated(), z: one.negated() }
    };
    point.unit()
}

/// A direction given around a normal, in the world.
pub open spec fn around<S: Scalar>(normal: Vec3<S>, v: Vec3<S>) -> Vec3<S> {
    let zero = S::zero_spec();
    let up = if normal.z.magnitude_spec().lt_spec(ratio_spec(999, 1000)) {
        Vec3 { x: zero, y: zero, z: S::one_spec() }
    } else {
        Vec3 { x: S::one_spec(), y: zero, z: zero }
    };
    let tangent = normal.cross_spec(up).unit_spec();
    let bitangent = normal.cross_spec(tangent);
    tangent.scaled_spec(v.x).plus_spec(bitangent.scaled_spec(v.y)).plus_spec(
        normal.scaled_spec(v.z),
    )
}

pub fn tangent_to_world<S: Scalar>(normal: Vec3<S>, v: Vec3<S>) -> (r: Vec3<S>)
    ensures
        r == around(normal, v),
{
    let zero = S::zero();
    let up = if normal.z.magnitude().lt(ratio(999, 1000)) {
        Vec3 { x: zero, y: zero, z: S::one() }
    } else {
        Vec3 { x: S::one(), y: zero, z: zero }
    };
    let tangent = normal.cross(up).unit();
    let bitangent = normal.cross(tangent);
    tangent.scaled(v.x).plus(bitangent.scaled(v.y)).plus(normal.scaled(v.z))
}

pub open spec fn reflected<S: Scalar>(v: Vec3<S>, n: Vec3<S>) -> Vec3<S> {
    v.minus_spec(n.scaled_spec(S::from_count_spec(2).times_spec(v.dot_spec(n))))
}

pub fn reflect<S: Scalar>(v: Vec3<S>, n: Vec3<S>) -> (r: Vec3<S>)
    ensures
        r == reflected(v, n),
{
    v.minus(n.scaled(S::from_count(2).times(v.dot(n))))
}

/// A direction on the side of a normal, more often near it.
pub open spec fn spread_direction<S: Scalar, A: Curves<S>>(
    normal: Vec3<S>,
    xi: Vec2<S>,
) -> Vec3<S> {
    let far = xi.x.root_spec();
    let theta = circle_share::<S, A>(xi.y);
    around(
        normal,
        Vec3 {
            x: far.times_spec(A::cosine_spec(theta)),
            y: far.times_spec(A::sine_spec(theta)),
            z: S::one_spec().minus_spec(xi.x).root_spec(),
        },
    )
}

pub fn cosine_sample_hemisphere<S: Scalar, A: Curves<S>>(normal: Vec3<S>, xi: Vec2<S>) -> (r: Vec3<
    S,
>)
    ensures
        r == spread_direction::<S, A>(normal, xi),
{
    let far = xi.x.root();
    let theta = share_of_circle::<S, A>(xi.y);
    tangent_to_world(
        normal,
        Vec3 {
            x: far.times(A::cosine(theta)),
            y: far.times(A::sine(theta)),
            z: S::one().minus(xi.x).root(),
        },
    )
}

/// The cosine of the angle that a rough surface turns its facets by.
pub open spec fn facet_cosine<S: Scalar>(xi_y: S, roughness: S) -> S {
    let a = roughness.larger_spec(ratio_spec(1, 1000));
    let one = S::one_spec();
    one.minus_spec(xi_y).over_spec(
        one.plus_spec(a.times_spec(a).minus_spec(one).times_spec(xi_y)),
    ).root_spec()
}

pub open spec fn facet_sine<S: Scalar>(cosine: S) -> S {
    S::one_spec().minus_spec(cosine.times_spec(cosine)).larger_spec(S::zero_spec()).root_spec()
}

/// The normal of a facet of a rough surface.
pub open spec fn facet_normal<S: Scalar, A: Curves<S>>(
    normal: Vec3<S>,
    xi: Vec2<S>,
    roughness: S,
) -> Vec3<S> {
    let phi = circle_share::<S, A>(xi.x);
    let c = facet_cosine(xi.y, roughness);
    around(
        normal,
        Vec3 {
            x: A::cosine_spec(phi).times_spec(facet_sine(c)),
            y: A::sine_spec(phi).times_spec(facet_sine(c)),
            z: c,
        },
    )
}

pub fn importance_sample_ggx<S: Scalar, A: Curves<S>>(
    normal: Vec3<S>,
    xi: Vec2<S>,
    roughness: S,
) -> (r: Vec3<S>)
    ensures
        r == facet_normal::<S, A>(normal, xi, roughness),
{
    let a = roughness.larger(ratio(1, 1000));
    let one = S::one();
    let phi = share_of_circle::<S, A>(xi.x);
    let c = one.minus(xi.y).over(one.plus(a.times(a).minus(one).times(xi.y))).root();
    let s = one.minus(c.times(c)).larger(S::zero()).root();
    tangent_to_world(
        normal,
        Vec3 { x: A::cosine(phi).times(s), y: A::sine(phi).times(s), z: c },
    )
}

/// How much light a rough surface lets through at an angle.
pub open spec fn schlick<S: Scalar>(n_dot_v: S, roughness: S) -> S {
    let r = roughness.plus_spec(S::one_spec());
    let k = r.times_spec(r).times_spec(ratio_spec(1, 8));
    n_dot_v.over_spec(n_dot_v.times_spec(S::one_spec().minus_spec(k)).plus_spec(k))
}

pub fn geometry_schlick_ggx<S: Scalar>(n_dot_v: S, roughness: S) -> (r: S)
    ensures
        r == schlick(n_dot_v, roughness),
{
    let s = roughness.plus(S::one());
    let k = s.times(s).times(ratio(1, 8));
    n_dot_v.over(n_dot_v.times(S::one().minus(k)).plus(k))
}

/// How much light comes and goes by a rough surface between two directions.
pub open spec fn smith<S: Scalar>(normal: Vec3<S>, v: Vec3<S>, l: Vec3<S>, roughness: S) -> S {
    let zero = S::zero_spec();
    schlick(normal.dot_spec(v).larger_spec(zero), roughness).times_spec(
        schlick(normal.dot_spec(l).larger_spec(zero), roughness),
    )
}

pub fn geometry_smith<S: Scalar>(normal: Vec3<S>, v: Vec3<S>, l: Vec3<S>, roughness: S) -> (r: S)
    ensures
        r == smith(normal, v, l, roughness),
{
    let n_dot_v = normal.dot(v).larger(S::zero());
    let n_dot_l = normal.dot(l).larger(S::zero());
    geometry_schlick_ggx(n_dot_v, roughness).times(geometry_schlick_ggx(n_dot_l, roughness))
}

/// Light that comes from a direction.
#[derive(Clone, Copy)]
pub struct LightSample<S> {
    pub direction: Vec3<S>,
    pub color: Vec3<S>,
}

/// The light that the first `n` samples cast on a surface, and their weights: a sample from behind
/// casts none.
pub open spec fn light_gathered<S: Scalar>(
    normal: Vec3<S>,
    samples: Seq<LightSample<S>>,
    n: int,
) -> (Vec3<S>, S)
    decreases n,
{
    if n <= 0 {
        (Vec3::zero_spec(), S::zero_spec())
    } else {
        let (sum, weights) = light_gathered(normal, samples, n - 1);
        let sample = samples[n - 1];
        let weight = normal.dot_spec(sample.direction).larger_spec(S::zero_spec());
        if S::zero_spec().lt_spec(weight) {
            (sum.plus_spec(sample.color.scaled_spec(weight)), weights.plus_spec(weight))
        } else {
            (sum, weights)
        }
    }
}

pub open spec fn divided<S: Scalar>(v: Vec3<S>, k: S) -> Vec3<S> {
    Vec3 { x: v.x.over_spec(k), y: v.y.over_spec(k), z: v.z.over_spec(k) }
}

/// The mean of the light that comes from the side of a normal, each sample by how straight it
/// comes.
pub open spec fn mean_light<S: Scalar>(
    normal: Vec3<S>,
    samples: Seq<LightSample<S>>,
) -> Vec3<S> {
    let (sum, weights) = light_gathered(normal, samples, samples.len() as int);
    if S::zero_spec().lt_spec(weights) {
        divided(sum, weights)
    } else {
        sum
    }
}

pub fn average_light<S: Scalar>(normal: Vec3<S>, samples: &Vec<LightSample<S>>) -> (r: Vec3<S>)
    ensures
        r == mean_light(normal, samples@),
{
    let mut sum = Vec3::zero();
    let mut weights = S::zero();
    let mut i: usize = 0;
    while i < samples.len()
        invariant
            i <= samples@.len(),
            (sum, weights) == light_gathered(normal, samples@, i as int),
        decreases samples@.len() - i,
    {
        let sample = samples[i];
        let weight = normal.dot(sample.direction).larger(S::zero());
        if S::zero().lt(weight) {
            sum = sum.plus(sample.color.scaled(weight));
            weights = weights.plus(weight);
        }
        i = i + 1;
    }
    if S::zero().lt(weights) {
        Vec3 { x: sum.x.over(weights), y: sum.y.over(weights), z: sum.z.over(weights) }
    } else {
        sum
    }
}

/// The colour between four pixels.
pub fn between_pixels<S: Scalar>(
    c00: Vec3<S>,
    c10: Vec3<S>,
    c01: Vec3<S>,
    c11: Vec3<S>,
    tx: S,
    ty: S,
) -> (r: Vec3<S>)
    ensures
        r == c00.lerp_spec(c10, tx).lerp_spec(c01.lerp_spec(c11, tx), ty),
{
    c00.lerp(c10, tx).lerp(c01.lerp(c11, tx), ty)
}

/// How large a level of a cube map is: each half of the one before, and never nothing.
pub open spec fn level_size_of(base_size: u32, level: u32) -> u32 {
    let size = base_size >> level;
    if size < 1 {
        1
    } else {
        size
    }
}

pub fn level_size(base_size: u32, level: u32) -> (r: u32)
    requires
        level < 32,
    ensures
        r == level_size_of(base_size, level),
{
    let size: u32 = base_size >> level;
    if size < 1 {
        1
    } else {
        size
    }
}

/// A level is no larger than the one before.
pub proof fn law_levels_shrink(base_size: u32, level: u32)
    requires
        level < 31,
    ensures
        1 <= level_size_of(base_size, (level + 1) as u32) <= level_size_of(base_size, level),
{
    let next: u32 = (level + 1) as u32;
    assert(base_size >> next <= base_size >> level) by (bit_vector)
        requires
            level < 31,
            next == level + 1,
    ;
}

/// How rough the surfaces are that a level is for: from smooth to fully rough.
pub open spec fn roughness_of_level<S: Scalar>(level: u32, level_count: u32) -> S {
    S::from_count_spec(level as usize).over_spec(
        S::from_count_spec(level_count as usize).minus_spec(S::one_spec()).larger_spec(
            S::one_spec(),
        ),
    )
}

pub fn level_roughness<S: Scalar>(level: u32, level_count: u32) -> (r: S)
    ensures
        r == roughness_of_level::<S>(level, level_count),
{
    S::from_count(level as usize).over(
        S::from_count(level_count as usize).minus(S::one()).larger(S::one()),
    )
}

/// Whether four numbers of a map are a colour and full cover.
pub open spec fn texel_is<S: Scalar>(data: Seq<S>, at: int, color: Vec3<S>) -> bool {
    &&& data[at] == color.x
    &&& data[at + 1] == color.y
    &&& data[at + 2] == color.z
    &&& data[at + 3] == S::one_spec()
}

/// Whether a texel of a face shows what `texel` gives for it.
pub open spec fn texel_shows<S: Scalar, F: Fn(usize, u32, u32) -> Vec3<S>>(
    texel: F,
    data: Seq<S>,
    face: usize,
    x: int,
    y: int,
    at: int,
) -> bool {
    exists|color: Vec3<S>|
        #[trigger] call_ensures(texel, (face, x as u32, y as u32), color) && texel_is(
            data,
            at,
            color,
        )
}

fn fill_row<S: Scalar, F: Fn(usize, u32, u32) -> Vec3<S>>(
    face: usize,
    y: u32,
    size: u32,
    texel: &F,
    data: &mut Vec<S>,
)
    requires
        forall|f: usize, x: u32, z: u32| call_requires(*texel, (f, x, z)),
    ensures
        final(data)@.len() == old(data)@.len() + 4 * size,
        final(data)@.take(old(data)@.len() as int) == old(data)@,
        forall|x: int|
            #![trigger texel_shows(*texel, final(data)@, face, x, y as int, old(data)@.len() + 4 * x)]
            0 <= x < size ==> texel_shows(
                *texel,
                final(data)@,
                face,
                x,
                y as int,
                old(data)@.len() + 4 * x,
            ),
{
    let ghost start = data@.len();
    let mut x: u32 = 0;
    assert(data@.take(start as int) =~= old(data)@);
    while x < size
        invariant
            forall|f: usize, x: u32, z: u32| call_requires(*texel, (f, x, z)),
            x <= size,
            start == old(data)@.len(),
            data@.len() == start + 4 * x,
            data@.take(start as int) == old(data)@,
            forall|k: int|
                #![trigger texel_shows(*texel, data@, face, k, y as int, start + 4 * k)]
                0 <= k < x ==> texel_shows(*texel, data@, face, k, y as int, start + 4 * k),
        decreases size - x,
    {
        let ghost before = data@;
        let color = texel(face, x, y);
        data.push(color.x);
        data.push(color.y);
        data.push(color.z);
        data.push(S::one());
        proof {
            assert(data@.take(start as int) =~= before.take(start as int));
            assert forall|k: int|
                #![trigger texel_shows(*texel, data@, face, k, y as int, start + 4 * k)]
                0 <= k < x + 1 implies texel_shows(
                *texel,
                data@,
                face,
                k,
                y as int,
                start + 4 * k,
            ) by {
                if k < x {
                    assert(texel_shows(*texel, before, face, k, y as int, start + 4 * k));
                    let c = choose|c: Vec3<S>| #[trigger]
                        call_ensures(*texel, (face, k as u32, y), c) && texel_is(
                            before,
                            start + 4 * k,
                            c,
                        );
                    assert(texel_is(data@, start + 4 * k, c));
                } else {
                    assert(texel_is(data@, start + 4 * k, color));
                }
            }
        }
        x = x + 1;
    }
}

proof fn lemma_row_before(y: int, done: int, size: int, x: int)
    requires
        0 <= y < done,
        0 <= x < size,
    ensures
        0 <= y * size + x < done * size,
{
    assert(0 <= y * size + x < done * size) by (nonlinear_arith)
        requires
            0 <= y < done,
            0 <= x < size,
    ;
}

/// One face of a cube map, row by row, four numbers for each texel.
pub fn fill_face<S: Scalar, F: Fn(usize, u32, u32) -> Vec3<S>>(
    face: usize,
    size: u32,
    texel: &F,
) -> (r: Vec<S>)
    requires
        forall|f: usize, x: u32, z: u32| call_requires(*texel, (f, x, z)),
    ensures
        r@.len() == 4 * (size * size),
        forall|x: int, y: int|
            #![trigger texel_shows(*texel, r@, face, x, y, 4 * (y * size + x))]
            0 <= x < size && 0 <= y < size ==> texel_shows(
                *texel,
                r@,
                face,
                x,
                y,
                4 * (y * size + x),
            ),
{
    let mut data: Vec<S> = Vec::new();
    let mut y: u32 = 0;
    while y < size
        invariant
            forall|f: usize, x: u32, z: u32| call_requires(*texel, (f, x, z)),
            y <= size,
            data@.len() == 4 * (y * size),
            forall|x: int, k: int|
                #![trigger texel_shows(*texel, data@, face, x, k, 4 * (k * size + x))]
                0 <= x < size && 0 <= k < y ==> texel_shows(
                    *texel,
                    data@,
                    face,
                    x,
                    k,
                    4 * (k * size + x),
                ),
        decreases size - y,
    {
        let ghost before = data@;
        fill_row(face, y, size, texel, &mut data);
        proof {
            assert((y + 1) * size == y * size + size) by (nonlinear_arith);
            assert forall|x: int, k: int|
                #![trigger texel_shows(*texel, data@, face, x, k, 4 * (k * size + x))]
                0 <= x < size && 0 <= k < y + 1 implies texel_shows(
                *texel,
                data@,
                face,
                x,
                k,
                4 * (k * size + x),
            ) by {
                let at = 4 * (k * size + x);
                if k < y {
                    lemma_row_before(k, y as int, size as int, x);
                    assert(texel_shows(*texel, before, face, x, k, at));
                    let c = choose|c: Vec3<S>| #[trigger]
                        call_ensures(*texel, (face, x as u32, k as u32), c) && texel_is(
                            before,
                            at,
                            c,
                        );
                    assert(data@.take(before.len() as int)[at] == before[at]);
                    assert(data@.take(before.len() as int)[at + 1] == before[at + 1]);
                    assert(data@.take(before.len() as int)[at + 2] == before[at + 2]);
                    assert(data@.take(before.len() as int)[at + 3] == before[at + 3]);
                    assert(texel_is(data@, at, c));
                } else {
                    assert(k == y);
                    assert(before.len() + 4 * x == at);
                    assert(texel_shows(
                        *texel,
                        data@,
                        face,
                        x,
                        y as int,
                        before.len() + 4 * x,
                    ));
                }
            }
        }
        y = y + 1;
    }
    data
}

} // verus!
