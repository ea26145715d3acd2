//! The maps of an environment: pictures of all directions, and the light that surfaces of every
//! roughness get from them.
use vstd::prelude::*;
use crate::ibl::{
    average_light,
    between_pixels,
    circle_share,
    cosine_sample_hemisphere,
    cubemap_direction,
    even_point,
    face_point,
    facet_normal,
    fill_face,
    geometry_smith,
    hammersley,
    importance_sample_ggx,
    level_roughness,
    level_size,
    level_size_of,
    mean_light,
    reflect,
    reflected,
    roughness_of_level,
    share_of_circle,
    side_place,
    smith,
    spread_direction,
    texel_is,
    texel_shows,
    Curves,
    LightSample,
};
use crate::scalar::{clamped, clamped_spec, ratio, ratio_spec, Scalar};
use crate::vectors::{Vec2, Vec3};

verus! {

pub const DIFFUSE_RESOLUTION: u32 = 32;

pub const SPECULAR_BASE_RESOLUTION: u32 = 128;

pub const SPECULAR_MIP_COUNT: u32 = 6;

pub const BRDF_LUT_SIZE: u32 = 256;

pub const DIFFUSE_SAMPLE_COUNT: u32 = 64;

pub const SPECULAR_SAMPLE_COUNT: u32 = 128;

pub const BRDF_SAMPLE_COUNT: u32 = 128;

pub const DEFAULT_WIDTH: u32 = 256;

pub const DEFAULT_HEIGHT: u32 = 128;

/// A picture of all directions: longitudes go across, latitudes down.
pub struct HdrImage<S> {
    pub width: u32,
    pub height: u32,
    pub pixels: Vec<Vec3<S>>,
}

impl<S: Scalar> HdrImage<S> {
    /// The picture has a pixel for every place, and at least one.
    pub open spec fn wf(self) -> bool {
        &&& 1 <= self.width
        &&& 1 <= self.height
        &&& self.pixels@.len() == self.width * self.height
        &&& self.width * self.height <= u32::MAX
    }

    pub open spec fn pixel_spec(self, x: u32, y: u32) -> Vec3<S> {
        self.pixels@[y * self.width + x]
    }

    pub fn pixel(&self, x: u32, y: u32) -> (r: Vec3<S>)
        requires
            self.wf(),
            x < self.width,
            y < self.height,
        ensures
            r == self.pixel_spec(x, y),
    {
        assert(y * self.width + x < self.width * self.height) by (nonlinear_arith)
            requires
                x < self.width,
                y < self.height,
        ;
        assert(0 <= y * self.width) by (nonlinear_arith);
        let at: u32 = y * self.width + x;
        self.pixels[at as usize]
    }
}

/// Which of `count` columns a place lies in, which go round.
pub open spec fn column_of<S: Scalar>(x: S, count: u32) -> u32 {
    let k = x.rem_euclid_by_spec(S::from_count_spec(count as usize)).floor_count_spec();
    if k < count {
        k as u32
    } else {
        (count - 1) as u32
    }
}

fn find_column<S: Scalar>(x: S, count: u32) -> (r: u32)
    requires
        1 <= count,
    ensures
        r == column_of(x, count),
        r < count,
{
    let k: u64 = x.rem_euclid_by(S::from_count(count as usize)).floor_count();
    if k < count as u64 {
        k as u32
    } else {
        count - 1
    }
}

/// Which of `count` rows a place lies in, the first or the last where it lies beyond.
pub open spec fn row_of<S: Scalar>(y: S, count: u32) -> u32 {
    let last = S::from_count_spec((count - 1) as usize);
    let k = clamped_spec(y, S::zero_spec(), last).floor_count_spec();
    if k < count {
        k as u32
    } else {
        (count - 1) as u32
    }
}

fn find_row<S: Scalar>(y: S, count: u32) -> (r: u32)
    requires
        1 <= count,
    ensures
        r == row_of(y, count),
        r < count,
{
    let k: u64 = clamped(y, S::zero(), S::from_count((count - 1) as usize)).floor_count();
    if k < count as u64 {
        k as u32
    } else {
        count - 1
    }
}

/// Where a direction lies in a picture: across and down.
pub open spec fn place_in_picture<S: Scalar, A: Curves<S>>(
    width: u32,
    height: u32,
    dir: Vec3<S>,
) -> (S, S) {
    let one = S::one_spec();
    let d = dir.unit_spec();
    let theta = A::angle_of_cosine_spec(clamped_spec(d.y, one.negated_spec(), one));
    let phi = A::bearing_spec(d.z, d.x);
    let u = phi.plus_spec(A::half_circle_spec()).over_spec(circle_share::<S, A>(one));
    let v = theta.over_spec(A::half_circle_spec());
    (
        u.times_spec(S::from_count_spec(width as usize).minus_spec(one)),
        v.times_spec(S::from_count_spec(height as usize).minus_spec(one)),
    )
}

/// The colour at a place of a picture, between the pixels around it.
pub open spec fn picture_at<S: Scalar>(image: HdrImage<S>, x: S, y: S) -> Vec3<S> {
    let one = S::one_spec();
    let x0 = x.floored_spec();
    let y0 = y.floored_spec();
    let left = column_of(x0, image.width);
    let right = column_of(x0.plus_spec(one), image.width);
    let upper = row_of(y0, image.height);
    let lower = row_of(y0.plus_spec(one), image.height);
    let tx = x.minus_spec(x0);
    let ty = y.minus_spec(y0);
    image.pixel_spec(left, upper).lerp_spec(image.pixel_spec(right, upper), tx).lerp_spec(
        image.pixel_spec(left, lower).lerp_spec(image.pixel_spec(right, lower), tx),
        ty,
    )
}

/// The colour that a picture shows in a direction.
pub open spec fn color_towards<S: Scalar, A: Curves<S>>(
    image: HdrImage<S>,
    dir: Vec3<S>,
) -> Vec3<S> {
    let (x, y) = place_in_picture::<S, A>(image.width, image.height, dir);
    picture_at(image, x, y)
}

pub fn sample_equirect<S: Scalar, A: Curves<S>>(image: &HdrImage<S>, dir: Vec3<S>) -> (r: Vec3<S>)
    requires
        image.wf(),
    ensures
        r == color_towards::<S, A>(*image, dir),
{
    let one = S::one();
    let d = dir.unit();
    let theta = A::angle_of_cosine(clamped(d.y, one.negated(), one));
    let phi = A::bearing(d.z, d.x);
    let u = phi.plus(A::half_circle()).over(share_of_circle::<S, A>(one));
    let v = theta.over(A::half_circle());
    let x = u.times(S::from_count(image.width as usize).minus(one));
    let y = v.times(S::from_count(image.height as usize).minus(one));
    let x0 = x.floored();
    let y0 = y.floored();
    let left: u32 = find_column(x0, image.width);
    let right: u32 = find_column(x0.plus(one), image.width);
    let upper: u32 = find_row(y0, image.height);
    let lower: u32 = find_row(y0.plus(one), image.height);
    between_pixels(
        image.pixel(left, upper),
        image.pixel(right, upper),
        image.pixel(left, lower),
        image.pixel(right, lower),
        x.minus(x0),
        y.minus(y0),
    )
}

/// The colours of the sky that is there before any other is loaded.
pub open spec fn default_sky<S: Scalar>(v: S) -> Vec3<S> {
    let top = Vec3 { x: ratio_spec(25, 100), y: ratio_spec(35, 100), z: ratio_spec(60, 100) };
    let bottom = Vec3 { x: ratio_spec(65, 100), y: ratio_spec(70, 100), z: ratio_spec(90, 100) };
    top.lerp_spec(bottom, v)
}

pub open spec fn default_ground<S: Scalar>(horizon: S) -> Vec3<S> {
    let far = Vec3 { x: ratio_spec(8, 100), y: ratio_spec(7, 100), z: ratio_spec(5, 100) };
    let near = Vec3 { x: ratio_spec(20, 100), y: ratio_spec(18, 100), z: ratio_spec(16, 100) };
    far.lerp_spec(near, horizon)
}

/// How near a latitude is to the horizon.
pub open spec fn default_horizon<S: Scalar>(v: S) -> S {
    let one = S::one_spec();
    clamped_spec(
        one.minus_spec(
            S::from_count_spec(2).times_spec(v.minus_spec(ratio_spec(1, 2))).magnitude_spec(),
        ),
        S::zero_spec(),
        one,
    )
}

/// How much of the sun is seen at a place.
pub open spec fn default_sun<S: Scalar, A: Curves<S>>(u: S, v: S) -> S {
    let away = Vec2 { x: u.minus_spec(ratio_spec(2, 10)), y: v.minus_spec(ratio_spec(35, 100)) };
    A::power_spec(
        S::one_spec().minus_spec(
            away.length_spec().times_spec(S::from_count_spec(6)),
        ).larger_spec(S::zero_spec()),
        S::from_count_spec(12),
    )
}

/// A pixel of the picture that is there before any other is loaded.
pub open spec fn default_pixel<S: Scalar, A: Curves<S>>(x: u32, y: u32) -> Vec3<S> {
    let one = S::one_spec();
    let v = ratio_spec::<S>(y as usize, (DEFAULT_HEIGHT - 1) as usize);
    let u = ratio_spec::<S>(x as usize, (DEFAULT_WIDTH - 1) as usize);
    let horizon = default_horizon(v);
    let sun = Vec3 { x: one, y: ratio_spec(90, 100), z: ratio_spec(75, 100) };
    default_sky(v).scaled_spec(
        ratio_spec::<S>(6, 10).plus_spec(ratio_spec::<S>(4, 10).times_spec(horizon)),
    ).plus_spec(default_ground(horizon).scaled_spec(one.minus_spec(horizon))).plus_spec(
        sun.scaled_spec(default_sun::<S, A>(u, v)).scaled_spec(S::from_count_spec(8)),
    )
}

fn make_default_pixel<S: Scalar, A: Curves<S>>(x: u32, y: u32) -> (r: Vec3<S>)
    ensures
        r == default_pixel::<S, A>(x, y),
{
    let one = S::one();
    let v: S = ratio(y as usize, (DEFAULT_HEIGHT - 1) as usize);
    let u: S = ratio(x as usize, (DEFAULT_WIDTH - 1) as usize);
    let horizon = clamped(
        one.minus(S::from_count(2).times(v.minus(ratio(1, 2))).magnitude()),
        S::zero(),
        one,
    );
    let top = Vec3 { x: ratio(25, 100), y: ratio(35, 100), z: ratio(60, 100) };
    let bottom = Vec3 { x: ratio(65, 100), y: ratio(70, 100), z: ratio(90, 100) };
    let sky = top.lerp(bottom, v);
    let away = Vec2 { x: u.minus(ratio(2, 10)), y: v.minus(ratio(35, 100)) };
    let sun = A::power(
        one.minus(away.length().times(S::from_count(6))).larger(S::zero()),
        S::from_count(12),
    );
    let far = Vec3 { x: ratio(8, 100), y: ratio(7, 100), z: ratio(5, 100) };
    let near = Vec3 { x: ratio(20, 100), y: ratio(18, 100), z: ratio(16, 100) };
    let ground = far.lerp(near, horizon);
    let light = Vec3 { x: one, y: ratio(90, 100), z: ratio(75, 100) };
    let six: S = ratio(6, 10);
    let four: S = ratio(4, 10);
    sky.scaled(six.plus(four.times(horizon))).plus(
        ground.scaled(one.minus(horizon)),
    ).plus(light.scaled(sun).scaled(S::from_count(8)))
}

pub fn generate_default_hdr<S: Scalar, A: Curves<S>>() -> (r: HdrImage<S>)
    ensures
        r.wf(),
        r.width == DEFAULT_WIDTH,
        r.height == DEFAULT_HEIGHT,
        forall|x: u32, y: u32|
            x < DEFAULT_WIDTH && y < DEFAULT_HEIGHT ==> #[trigger] r.pixel_spec(x, y)
                == default_pixel::<S, A>(x, y),
{
    let mut pixels: Vec<Vec3<S>> = Vec::new();
    let mut y: u32 = 0;
    while y < DEFAULT_HEIGHT
        invariant
            y <= DEFAULT_HEIGHT,
            pixels@.len() == y * DEFAULT_WIDTH,
            forall|x: u32, k: u32|
                x < DEFAULT_WIDTH && k < y ==> #[trigger] pixels@[k * DEFAULT_WIDTH + x]
                    == default_pixel::<S, A>(x, k),
        decreases DEFAULT_HEIGHT - y,
    {
        let mut x: u32 = 0;
        while x < DEFAULT_WIDTH
            invariant
                x <= DEFAULT_WIDTH,
                y < DEFAULT_HEIGHT,
                pixels@.len() == y * DEFAULT_WIDTH + x,
                forall|x: u32, k: u32|
                    x < DEFAULT_WIDTH && k < y ==> #[trigger] pixels@[k * DEFAULT_WIDTH + x]
                        == default_pixel::<S, A>(x, k),
                forall|k: u32|
                    k < x ==> #[trigger] pixels@[y * DEFAULT_WIDTH + k] == default_pixel::<S, A>(
                        k,
                        y,
                    ),
            decreases DEFAULT_WIDTH - x,
        {
            pixels.push(make_default_pixel::<S, A>(x, y));
            x = x + 1;
        }
        y = y + 1;
    }
    HdrImage { width: DEFAULT_WIDTH, height: DEFAULT_HEIGHT, pixels }
}

/// What falls on a dull surface that faces a direction.
pub open spec fn diffuse_samples<S: Scalar, A: Curves<S>>(
    image: HdrImage<S>,
    dir: Vec3<S>,
) -> Seq<LightSample<S>> {
    Seq::new(
        DIFFUSE_SAMPLE_COUNT as nat,
        |i: int|
            {
                let direction = spread_direction::<S, A>(
                    dir,
                    even_point(i as u32, DIFFUSE_SAMPLE_COUNT),
                );
                LightSample { direction, color: color_towards::<S, A>(image, direction) }
            },
    )
}

/// The direction of a texel of a cube map.
pub open spec fn texel_direction<S: Scalar>(face: usize, x: u32, y: u32, size: u32) -> Vec3<S> {
    face_point(face, side_place::<S>(x, size), side_place::<S>(y, size)).unit_spec()
}

pub open spec fn diffuse_color<S: Scalar, A: Curves<S>>(
    image: HdrImage<S>,
    face: usize,
    x: u32,
    y: u32,
    size: u32,
) -> Vec3<S> {
    let dir = texel_direction(face, x, y, size);
    mean_light(dir, diffuse_samples::<S, A>(image, dir))
}

fn make_diffuse_color<S: Scalar, A: Curves<S>>(
    image: &HdrImage<S>,
    face: usize,
    x: u32,
    y: u32,
    size: u32,
) -> (r: Vec3<S>)
    requires
        image.wf(),
    ensures
        r == diffuse_color::<S, A>(*image, face, x, y, size),
{
    let dir = cubemap_direction(face, x, y, size);
    let mut samples: Vec<LightSample<S>> = Vec::new();
    let mut i: u32 = 0;
    let ghost all = diffuse_samples::<S, A>(*image, dir);
    while i < DIFFUSE_SAMPLE_COUNT
        invariant
            image.wf(),
            i <= DIFFUSE_SAMPLE_COUNT,
            all == diffuse_samples::<S, A>(*image, dir),
            samples@ == all.take(i as int),
        decreases DIFFUSE_SAMPLE_COUNT - i,
    {
        let xi = hammersley(i, DIFFUSE_SAMPLE_COUNT);
        let direction = cosine_sample_hemisphere::<S, A>(dir, xi);
        let color = sample_equirect::<S, A>(image, direction);
        samples.push(LightSample { direction, color });
        assert(samples@ =~= all.take(i + 1));
        i = i + 1;
    }
    assert(samples@ =~= all);
    average_light(dir, &samples)
}

/// What a surface of some roughness mirrors towards a direction.
pub open spec fn specular_samples<S: Scalar, A: Curves<S>>(
    image: HdrImage<S>,
    dir: Vec3<S>,
    roughness: S,
) -> Seq<LightSample<S>> {
    Seq::new(
        SPECULAR_SAMPLE_COUNT as nat,
        |i: int|
            {
                let facet = facet_normal::<S, A>(
                    dir,
                    even_point(i as u32, SPECULAR_SAMPLE_COUNT),
                    roughness,
                );
                let direction = reflected(dir.negated_spec(), facet).unit_spec();
                LightSample { direction, color: color_towards::<S, A>(image, direction) }
            },
    )
}

pub open spec fn specular_color<S: Scalar, A: Curves<S>>(
    image: HdrImage<S>,
    face: usize,
    x: u32,
    y: u32,
    size: u32,
    roughness: S,
) -> Vec3<S> {
    let dir = texel_direction(face, x, y, size);
    mean_light(dir, specular_samples::<S, A>(image, dir, roughness))
}

fn make_specular_color<S: Scalar, A: Curves<S>>(
    image: &HdrImage<S>,
    face: usize,
    x: u32,
    y: u32,
    size: u32,
    roughness: S,
) -> (r: Vec3<S>)
    requires
        image.wf(),
    ensures
        r == specular_color::<S, A>(*image, face, x, y, size, roughness),
{
    let dir = cubemap_direction(face, x, y, size);
    let mut samples: Vec<LightSample<S>> = Vec::new();
    let mut i: u32 = 0;
    let ghost all = specular_samples::<S, A>(*image, dir, roughness);
    while i < SPECULAR_SAMPLE_COUNT
        invariant
            image.wf(),
            i <= SPECULAR_SAMPLE_COUNT,
            all == specular_samples::<S, A>(*image, dir, roughness),
            samples@ == all.take(i as int),
        decreases SPECULAR_SAMPLE_COUNT - i,
    {
        let xi = hammersley(i, SPECULAR_SAMPLE_COUNT);
        let facet = importance_sample_ggx::<S, A>(dir, xi, roughness);
        let direction = reflect(dir.negated(), facet).unit();
        let color = sample_equirect::<S, A>(image, direction);
        samples.push(LightSample { direction, color });
        assert(samples@ =~= all.take(i + 1));
        i = i + 1;
    }
    assert(samples@ =~= all);
    average_light(dir, &samples)
}

/// Six faces of texels, four numbers for each.
pub struct Cubemap<S> {
    pub size: u32,
    pub faces: Vec<Vec<S>>,
}

/// Whether the texels of a square map are given colours and full cover.
pub open spec fn square_is<S: Scalar>(
    data: Seq<S>,
    size: u32,
    color: spec_fn(u32, u32) -> Vec3<S>,
) -> bool {
    &&& data.len() == 4 * (size * size)
    &&& forall|x: u32, y: u32|
        #![trigger color(x, y)]
        x < size && y < size ==> texel_is(data, 4 * (y * size + x), color(x, y))
}

impl<S: Scalar> Cubemap<S> {
    /// Whether the texels of the map are given colours.
    pub open spec fn shows(self, size: u32, color: spec_fn(usize, u32, u32) -> Vec3<S>) -> bool {
        &&& self.size == size
        &&& self.faces@.len() == 6
        &&& forall|face: int|
            0 <= face < 6 ==> square_is(
                (#[trigger] self.faces@[face])@,
                size,
                |x: u32, y: u32| color(face as usize, x, y),
            )
    }
}

fn fill_square<S: Scalar, F: Fn(usize, u32, u32) -> Vec3<S>>(
    face: usize,
    size: u32,
    texel: &F,
    Ghost(color): Ghost<spec_fn(u32, u32) -> Vec3<S>>,
) -> (r: Vec<S>)
    requires
        forall|f: usize, x: u32, y: u32| call_requires(*texel, (f, x, y)),
        forall|x: u32, y: u32, c: Vec3<S>|
            #[trigger] call_ensures(*texel, (face, x, y), c) ==> c == color(x, y),
    ensures
        square_is(r@, size, color),
{
    let r = fill_face(face, size, texel);
    proof {
        assert forall|x: u32, y: u32|
            #![trigger color(x, y)]
            x < size && y < size implies texel_is(r@, 4 * (y * size + x), color(x, y)) by {
            let at = 4 * (y as int * size + x as int);
            assert(texel_shows(*texel, r@, face, x as int, y as int, at));
            let c = choose|c: Vec3<S>| #[trigger]
                call_ensures(*texel, (face, x, y), c) && texel_is(r@, at, c);
            assert(c == color(x, y));
        }
    }
    r
}

fn fill_cube<S: Scalar, F: Fn(usize, u32, u32) -> Vec3<S>>(
    size: u32,
    texel: &F,
    Ghost(color): Ghost<spec_fn(usize, u32, u32) -> Vec3<S>>,
) -> (r: Cubemap<S>)
    requires
        forall|f: usize, x: u32, y: u32| call_requires(*texel, (f, x, y)),
        forall|f: usize, x: u32, y: u32, c: Vec3<S>|
            #[trigger] call_ensures(*texel, (f, x, y), c) ==> c == color(f, x, y),
    ensures
        r.shows(size, color),
{
    let mut faces: Vec<Vec<S>> = Vec::new();
    let mut face: usize = 0;
    while face < 6
        invariant
            face <= 6,
            faces@.len() == face,
            forall|f: usize, x: u32, y: u32| call_requires(*texel, (f, x, y)),
            forall|f: usize, x: u32, y: u32, c: Vec3<S>|
                #[trigger] call_ensures(*texel, (f, x, y), c) ==> c == color(f, x, y),
            forall|k: int|
                0 <= k < face ==> square_is(
                    (#[trigger] faces@[k])@,
                    size,
                    |x: u32, y: u32| color(k as usize, x, y),
                ),
        decreases 6 - face,
    {
        let square = fill_square(
            face,
            size,
            texel,
            Ghost(|x: u32, y: u32| color(face, x, y)),
        );
        faces.push(square);
        face = face + 1;
    }
    Cubemap { size, faces }
}

/// The light on dull surfaces of every direction.
pub fn compute_diffuse_cubemap<S: Scalar, A: Curves<S>>(image: &HdrImage<S>, size: u32) -> (r:
    Cubemap<S>)
    requires
        image.wf(),
    ensures
        r.shows(
            size,
            |face: usize, x: u32, y: u32| diffuse_color::<S, A>(*image, face, x, y, size),
        ),
{
    let texel = |face: usize, x: u32, y: u32| -> (c: Vec3<S>)
        ensures
            c == diffuse_color::<S, A>(*image, face, x, y, size),
        { make_diffuse_color::<S, A>(image, face, x, y, size) };
    fill_cube(
        size,
        &texel,
        Ghost(|face: usize, x: u32, y: u32| diffuse_color::<S, A>(*image, face, x, y, size)),
    )
}

/// What surfaces mirror: a map for each roughness, the smoothest first.
pub struct PrefilteredCubemap<S> {
    pub base_size: u32,
    pub levels: Vec<Cubemap<S>>,
}

/// The number of levels that are made, at least one.
pub open spec fn level_count(mip_count: u32) -> u32 {
    if mip_count < 1 {
        1
    } else {
        mip_count
    }
}

/// Whether a map shows what a level mirrors.
pub open spec fn level_shows<S: Scalar, A: Curves<S>>(
    map: Cubemap<S>,
    image: HdrImage<S>,
    base_size: u32,
    level: u32,
    count: u32,
) -> bool {
    let size = level_size_of(base_size, level);
    let roughness = roughness_of_level::<S>(level, count);
    map.shows(
        size,
        |face: usize, x: u32, y: u32| specular_color::<S, A>(image, face, x, y, size, roughness),
    )
}

fn compute_level<S: Scalar, A: Curves<S>>(
    image: &HdrImage<S>,
    base_size: u32,
    level: u32,
    count: u32,
) -> (r: Cubemap<S>)
    requires
        image.wf(),
        level < 32,
    ensures
        level_shows::<S, A>(r, *image, base_size, level, count),
{
    let size: u32 = level_size(base_size, level);
    let roughness: S = level_roughness(level, count);
    let texel = |face: usize, x: u32, y: u32| -> (c: Vec3<S>)
        ensures
            c == specular_color::<S, A>(*image, face, x, y, size, roughness),
        { make_specular_color::<S, A>(image, face, x, y, size, roughness) };
    fill_cube(
        size,
        &texel,
        Ghost(
            |face: usize, x: u32, y: u32|
                specular_color::<S, A>(*image, face, x, y, size, roughness),
        ),
    )
}

pub fn compute_specular_cubemap<S: Scalar, A: Curves<S>>(
    image: &HdrImage<S>,
    base_size: u32,
    mip_count: u32,
) -> (r: PrefilteredCubemap<S>)
    requires
        image.wf(),
        mip_count <= 32,
    ensures
        r.base_size == base_size,
        r.levels@.len() == level_count(mip_count),
        forall|level: int|
            0 <= level < r.levels@.len() ==> level_shows::<S, A>(
                #[trigger] r.levels@[level],
                *image,
                base_size,
                level as u32,
                level_count(mip_count),
            ),
{
    let count: u32 = if mip_count < 1 {
        1
    } else {
        mip_count
    };
    let mut levels: Vec<Cubemap<S>> = Vec::new();
    let mut level: u32 = 0;
    while level < count
        invariant
            image.wf(),
            level <= count,
            count <= 32,
            levels@.len() == level,
            forall|k: int|
                0 <= k < level ==> level_shows::<S, A>(
                    #[trigger] levels@[k],
                    *image,
                    base_size,
                    k as u32,
                    count,
                ),
        decreases count - level,
    {
        levels.push(compute_level::<S, A>(image, base_size, level, count));
        level = level + 1;
    }
    PrefilteredCubemap { base_size, levels }
}

/// What one facet adds to the two parts of what a surface mirrors at an angle.
pub open spec fn facet_share<S: Scalar, A: Curves<S>>(n_dot_v: S, roughness: S, i: u32) -> Option<
    (S, S),
> {
    let zero = S::zero_spec();
    let one = S::one_spec();
    let normal = Vec3 { x: zero, y: zero, z: one };
    let v = Vec3 {
        x: one.minus_spec(n_dot_v.times_spec(n_dot_v)).root_spec(),
        y: zero,
        z: n_dot_v,
    };
    let h = facet_normal::<S, A>(normal, even_point(i, BRDF_SAMPLE_COUNT), roughness);
    let l = reflected(v.negated_spec(), h);
    let v_dot_h = v.dot_spec(h).larger_spec(zero);
    if zero.lt_spec(l.z.larger_spec(zero)) {
        let seen = smith(normal, v, l, roughness).times_spec(v_dot_h).over_spec(
            h.z.larger_spec(zero).times_spec(n_dot_v).larger_spec(ratio_spec(1, 10000)),
        );
        let fresnel = A::repeated_spec(one.minus_spec(v_dot_h), 5);
        Some((one.minus_spec(fresnel).times_spec(seen), fresnel.times_spec(seen)))
    } else {
        None
    }
}

fn find_facet_share<S: Scalar, A: Curves<S>>(n_dot_v: S, roughness: S, i: u32) -> (r: Option<
    (S, S),
>)
    ensures
        r == facet_share::<S, A>(n_dot_v, roughness, i),
{
    let zero = S::zero();
    let one = S::one();
    let normal = Vec3 { x: zero, y: zero, z: one };
    let v = Vec3 { x: one.minus(n_dot_v.times(n_dot_v)).root(), y: zero, z: n_dot_v };
    let xi = hammersley(i, BRDF_SAMPLE_COUNT);
    let h = importance_sample_ggx::<S, A>(normal, xi, roughness);
    let l = reflect(v.negated(), h);
    let n_dot_l = l.z.larger(zero);
    let n_dot_h = h.z.larger(zero);
    let v_dot_h = v.dot(h).larger(zero);
    if zero.lt(n_dot_l) {
        let g = geometry_smith(normal, v, l, roughness);
        let seen = g.times(v_dot_h).over(n_dot_h.times(n_dot_v).larger(ratio(1, 10000)));
        let fresnel = A::repeated(one.minus(v_dot_h), 5);
        Some((one.minus(fresnel).times(seen), fresnel.times(seen)))
    } else {
        None
    }
}

/// What the first `n` facets add up to.
pub open spec fn facets_gathered<S: Scalar, A: Curves<S>>(n_dot_v: S, roughness: S, n: int) -> (S, S)
    decreases n,
{
    if n <= 0 {
        (S::zero_spec(), S::zero_spec())
    } else {
        let (a, b) = facets_gathered::<S, A>(n_dot_v, roughness, n - 1);
        match facet_share::<S, A>(n_dot_v, roughness, (n - 1) as u32) {
            Some((more_a, more_b)) => (a.plus_spec(more_a), b.plus_spec(more_b)),
            None => (a, b),
        }
    }
}

/// The two parts of what a surface mirrors at an angle.
pub open spec fn mirrored_parts<S: Scalar, A: Curves<S>>(n_dot_v: S, roughness: S) -> (S, S) {
    let (a, b) = facets_gathered::<S, A>(n_dot_v, roughness, BRDF_SAMPLE_COUNT as int);
    let scale = S::one_spec().over_spec(S::from_count_spec(BRDF_SAMPLE_COUNT as usize));
    (a.times_spec(scale), b.times_spec(scale))
}

pub fn integrate_brdf<S: Scalar, A: Curves<S>>(n_dot_v: S, roughness: S) -> (r: (S, S))
    ensures
        r == mirrored_parts::<S, A>(n_dot_v, roughness),
{
    let mut a = S::zero();
    let mut b = S::zero();
    let mut i: u32 = 0;
    while i < BRDF_SAMPLE_COUNT
        invariant
            i <= BRDF_SAMPLE_COUNT,
            (a, b) == facets_gathered::<S, A>(n_dot_v, roughness, i as int),
        decreases BRDF_SAMPLE_COUNT - i,
    {
        if let Some((more_a, more_b)) = find_facet_share::<S, A>(n_dot_v, roughness, i) {
            a = a.plus(more_a);
            b = b.plus(more_b);
        }
        i = i + 1;
    }
    let scale = S::one().over(S::from_count(BRDF_SAMPLE_COUNT as usize));
    (a.times(scale), b.times(scale))
}

/// A table of four numbers for each place.
pub struct Lut2D<S> {
    pub width: u32,
    pub height: u32,
    pub data: Vec<S>,
}

/// The middle of the `i`-th of `size` parts of the way from 0 to 1.
pub open spec fn middle_of<S: Scalar>(i: u32, size: u32) -> S {
    S::from_count_spec(i as usize).plus_spec(ratio_spec(1, 2)).over_spec(
        S::from_count_spec(size as usize),
    )
}

fn find_middle<S: Scalar>(i: u32, size: u32) -> (r: S)
    ensures
        r == middle_of::<S>(i, size),
{
    S::from_count(i as usize).plus(ratio(1, 2)).over(S::from_count(size as usize))
}

/// What a table holds for an angle and a roughness.
pub open spec fn table_entry<S: Scalar, A: Curves<S>>(x: u32, y: u32, size: u32) -> Vec3<S> {
    let (a, b) = mirrored_parts::<S, A>(middle_of(x, size), middle_of(y, size));
    Vec3 { x: a, y: b, z: S::zero_spec() }
}

pub fn compute_brdf_lut<S: Scalar, A: Curves<S>>(size: u32) -> (r: Lut2D<S>)
    ensures
        r.width == size,
        r.height == size,
        square_is(r.data@, size, |x: u32, y: u32| table_entry::<S, A>(x, y, size)),
{
    let entry = |face: usize, x: u32, y: u32| -> (c: Vec3<S>)
        ensures
            c == table_entry::<S, A>(x, y, size),
        {
            let (a, b) = integrate_brdf::<S, A>(find_middle(x, size), find_middle(y, size));
            Vec3 { x: a, y: b, z: S::zero() }
        };
    let data = fill_square(
        0,
        size,
        &entry,
        Ghost(|x: u32, y: u32| table_entry::<S, A>(x, y, size)),
    );
    Lut2D { width: size, height: size, data }
}

/// All maps of an environment.
pub struct EnvironmentMaps<S> {
    pub diffuse: Cubemap<S>,
    pub specular: PrefilteredCubemap<S>,
    pub brdf: Lut2D<S>,
}

impl<S: Scalar> EnvironmentMaps<S> {
    pub fn from_hdr<A: Curves<S>>(image: &HdrImage<S>) -> (r: Self)
        requires
            image.wf(),
        ensures
            r.diffuse.shows(
                DIFFUSE_RESOLUTION,
                |face: usize, x: u32, y: u32|
                    diffuse_color::<S, A>(*image, face, x, y, DIFFUSE_RESOLUTION),
            ),
            r.specular.base_size == SPECULAR_BASE_RESOLUTION,
            r.specular.levels@.len() == SPECULAR_MIP_COUNT,
            forall|level: int|
                0 <= level < SPECULAR_MIP_COUNT ==> level_shows::<S, A>(
                    #[trigger] r.specular.levels@[level],
                    *image,
                    SPECULAR_BASE_RESOLUTION,
                    level as u32,
                    SPECULAR_MIP_COUNT,
                ),
            r.brdf.width == BRDF_LUT_SIZE,
            r.brdf.height == BRDF_LUT_SIZE,
            square_is(
                r.brdf.data@,
                BRDF_LUT_SIZE,
                |x: u32, y: u32| table_entry::<S, A>(x, y, BRDF_LUT_SIZE),
            ),
    {
        EnvironmentMaps {
            diffuse: compute_diffuse_cubemap::<S, A>(image, DIFFUSE_RESOLUTION),
            specular: compute_specular_cubemap::<S, A>(
                image,
                SPECULAR_BASE_RESOLUTION,
                SPECULAR_MIP_COUNT,
            ),
            brdf: compute_brdf_lut::<S, A>(BRDF_LUT_SIZE),
        }
    }
}

} // verus!
