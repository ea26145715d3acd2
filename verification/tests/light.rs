use kestrel_engine::camera::SmallAngles;
use kestrel_engine::entity::Entity;
use kestrel_engine::ibl::{
    average_light, cubemap_direction, geometry_schlick_ggx, geometry_smith, hammersley,
    level_roughness, level_size, radical_inverse_vdc, reflect, reversed_bits, tangent_to_world,
    Curves, LightSample,
};
use kestrel_engine::light_maps::{
    compute_brdf_lut, compute_diffuse_cubemap, compute_specular_cubemap, generate_default_hdr,
    integrate_brdf, sample_equirect, HdrImage,
};
use kestrel_engine::scalar::{Fixed, Scalar};
use kestrel_engine::vectors::{Vec2, Vec3};
use kestrel_engine::world_edit::spawn_burst_of_chance;

/// A number as the engine computes with it.
#[derive(Clone, Copy, Debug, PartialEq)]
struct Num(f32);

impl Scalar for Num {
    fn zero() -> Self {
        Num(0.0)
    }
    fn one() -> Self {
        Num(1.0)
    }
    fn clip_epsilon() -> Self {
        Num(1e-5)
    }
    fn machine_epsilon() -> Self {
        Num(f32::EPSILON)
    }
    fn from_count(count: usize) -> Self {
        Num(count as f32)
    }
    fn plus(self, rhs: Self) -> Self {
        Num(self.0 + rhs.0)
    }
    fn minus(self, rhs: Self) -> Self {
        Num(self.0 - rhs.0)
    }
    fn times(self, rhs: Self) -> Self {
        Num(self.0 * rhs.0)
    }
    fn over(self, rhs: Self) -> Self {
        Num(self.0 / rhs.0)
    }
    fn negated(self) -> Self {
        Num(-self.0)
    }
    fn rem_euclid_by(self, rhs: Self) -> Self {
        Num(self.0.rem_euclid(rhs.0))
    }
    fn floored(self) -> Self {
        Num(self.0.floor())
    }
    fn floor_count(self) -> u64 {
        self.0.floor() as u64
    }
    fn floor_steps(self) -> i32 {
        self.0.floor() as i32
    }
    fn ceil_steps(self) -> i32 {
        self.0.ceil() as i32
    }
    fn from_steps(steps: i32) -> Self {
        Num(steps as f32)
    }
    fn to_fixed(self) -> u32 {
        (self.0 * 65536.0).round() as u32
    }
    fn from_fixed(value: u32) -> Self {
        Num(value as f32 / 65536.0)
    }
    fn lt(self, rhs: Self) -> bool {
        self.0 < rhs.0
    }
    fn le(self, rhs: Self) -> bool {
        self.0 <= rhs.0
    }
    fn same(self, rhs: Self) -> bool {
        self.0 == rhs.0
    }
    fn finite(self) -> bool {
        self.0.is_finite()
    }
    fn nan(self) -> bool {
        self.0.is_nan()
    }
    fn larger(self, rhs: Self) -> Self {
        Num(self.0.max(rhs.0))
    }
    fn smaller(self, rhs: Self) -> Self {
        Num(self.0.min(rhs.0))
    }
    fn magnitude(self) -> Self {
        Num(self.0.abs())
    }
    fn rounded(self) -> Self {
        Num(self.0.round())
    }
    fn sign(self) -> Self {
        Num(self.0.signum())
    }
    fn root(self) -> Self {
        Num(self.0.sqrt())
    }
    fn topmost() -> Self {
        Num(f32::INFINITY)
    }
    fn zero_spec() -> Self {
        Self::zero()
    }
    fn one_spec() -> Self {
        Self::one()
    }
    fn clip_epsilon_spec() -> Self {
        Self::clip_epsilon()
    }
    fn machine_epsilon_spec() -> Self {
        Self::machine_epsilon()
    }
    fn from_count_spec(count: usize) -> Self {
        Self::from_count(count)
    }
    fn plus_spec(self, rhs: Self) -> Self {
        self.plus(rhs)
    }
    fn minus_spec(self, rhs: Self) -> Self {
        self.minus(rhs)
    }
    fn times_spec(self, rhs: Self) -> Self {
        self.times(rhs)
    }
    fn over_spec(self, rhs: Self) -> Self {
        self.over(rhs)
    }
    fn negated_spec(self) -> Self {
        self.negated()
    }
    fn rem_euclid_by_spec(self, rhs: Self) -> Self {
        self.rem_euclid_by(rhs)
    }
    fn floored_spec(self) -> Self {
        self.floored()
    }
    fn floor_count_spec(self) -> u64 {
        self.floor_count()
    }
    fn floor_steps_spec(self) -> i32 {
        self.floor_steps()
    }
    fn ceil_steps_spec(self) -> i32 {
        self.ceil_steps()
    }
    fn from_steps_spec(steps: i32) -> Self {
        Self::from_steps(steps)
    }
    fn to_fixed_spec(self) -> u32 {
        self.to_fixed()
    }
    fn from_fixed_spec(value: u32) -> Self {
        Self::from_fixed(value)
    }
    fn lt_spec(self, rhs: Self) -> bool {
        self.lt(rhs)
    }
    fn le_spec(self, rhs: Self) -> bool {
        self.le(rhs)
    }
    fn same_spec(self, rhs: Self) -> bool {
        self.same(rhs)
    }
    fn finite_spec(self) -> bool {
        self.finite()
    }
    fn nan_spec(self) -> bool {
        self.nan()
    }
    fn larger_spec(self, rhs: Self) -> Self {
        self.larger(rhs)
    }
    fn smaller_spec(self, rhs: Self) -> Self {
        self.smaller(rhs)
    }
    fn magnitude_spec(self) -> Self {
        self.magnitude()
    }
    fn rounded_spec(self) -> Self {
        self.rounded()
    }
    fn sign_spec(self) -> Self {
        self.sign()
    }
    fn root_spec(self) -> Self {
        self.root()
    }
    fn topmost_spec() -> Self {
        Self::topmost()
    }
}

struct Radians;

impl Curves<Num> for Radians {
    fn half_circle() -> Num {
        Num(std::f32::consts::PI)
    }
    fn sine(angle: Num) -> Num {
        Num(angle.0.sin())
    }
    fn cosine(angle: Num) -> Num {
        Num(angle.0.cos())
    }
    fn angle_of_cosine(x: Num) -> Num {
        Num(x.0.acos())
    }
    fn bearing(second: Num, first: Num) -> Num {
        Num(second.0.atan2(first.0))
    }
    fn repeated(x: Num, n: u32) -> Num {
        Num(x.0.powi(n as i32))
    }
    fn power(x: Num, y: Num) -> Num {
        Num(x.0.powf(y.0))
    }
    fn half_circle_spec() -> Num {
        Self::half_circle()
    }
    fn sine_spec(angle: Num) -> Num {
        Self::sine(angle)
    }
    fn cosine_spec(angle: Num) -> Num {
        Self::cosine(angle)
    }
    fn angle_of_cosine_spec(x: Num) -> Num {
        Self::angle_of_cosine(x)
    }
    fn bearing_spec(second: Num, first: Num) -> Num {
        Self::bearing(second, first)
    }
    fn repeated_spec(x: Num, n: u32) -> Num {
        Self::repeated(x, n)
    }
    fn power_spec(x: Num, y: Num) -> Num {
        Self::power(x, y)
    }
}

fn v3(x: f32, y: f32, z: f32) -> Vec3<Num> {
    Vec3 { x: Num(x), y: Num(y), z: Num(z) }
}

fn near(a: f32, b: f32) -> bool {
    (a - b).abs() < 1e-4
}

/// A picture that shows one colour everywhere.
fn plain(color: Vec3<Num>) -> HdrImage<Num> {
    HdrImage { width: 4, height: 2, pixels: vec![color; 8] }
}

#[test]
fn bits_are_mirrored() {
    assert_eq!(reversed_bits(1), 0x8000_0000);
    assert_eq!(reversed_bits(0x1234_5678), 0x1E6A_2C48);
    assert_eq!(reversed_bits(reversed_bits(0xDEAD_BEEF)), 0xDEAD_BEEF);
    assert_eq!(radical_inverse_vdc::<Num>(0).0, 0.0);
    assert_eq!(radical_inverse_vdc::<Num>(1).0, 0.5);
    assert_eq!(radical_inverse_vdc::<Num>(2).0, 0.25);
    assert_eq!(radical_inverse_vdc::<Num>(3).0, 0.75);
}

#[test]
fn points_lie_evenly() {
    let p = hammersley::<Num>(3, 4);
    assert_eq!(p.x.0, 0.75);
    assert_eq!(p.y.0, 0.75);
    let q = hammersley::<Num>(1, 64);
    assert_eq!(q.x.0, 1.0 / 64.0);
    assert_eq!(q.y.0, 0.5);
}

#[test]
fn faces_look_along_the_axes() {
    let axes = [
        (1.0, 0.0, 0.0),
        (-1.0, 0.0, 0.0),
        (0.0, 1.0, 0.0),
        (0.0, -1.0, 0.0),
        (0.0, 0.0, 1.0),
        (0.0, 0.0, -1.0),
    ];
    for (face, (x, y, z)) in axes.iter().enumerate() {
        let d = cubemap_direction::<Num>(face, 0, 0, 1);
        assert_eq!((d.x.0, d.y.0, d.z.0), (*x, *y, *z));
    }
    let corner = cubemap_direction::<Num>(0, 0, 0, 2);
    assert!(near(corner.y.0, corner.z.0));
    assert!(near(corner.y.0 * 2.0, corner.x.0));
}

#[test]
fn directions_are_mirrored_and_turned() {
    let r = reflect(v3(1.0, -1.0, 0.0), v3(0.0, 1.0, 0.0));
    assert_eq!((r.x.0, r.y.0, r.z.0), (1.0, 1.0, 0.0));
    let t = tangent_to_world(v3(0.0, 1.0, 0.0), v3(0.0, 0.0, 2.0));
    assert_eq!((t.x.0, t.y.0, t.z.0), (0.0, 2.0, 0.0));
    let g = geometry_schlick_ggx(Num(0.5), Num(1.0)).0;
    assert_eq!(g, 0.5 / 0.75);
    let up = v3(0.0, 0.0, 1.0);
    assert_eq!(geometry_smith(up, up, up, Num(0.3)).0, 1.0);
}

#[test]
fn light_from_behind_does_not_count() {
    let up = v3(0.0, 0.0, 1.0);
    let samples = vec![
        LightSample { direction: up, color: v3(1.0, 0.0, 0.0) },
        LightSample { direction: v3(0.0, 0.0, -1.0), color: v3(0.0, 9.0, 0.0) },
        LightSample { direction: v3(0.0, 0.0, 0.5), color: v3(0.0, 0.0, 3.0) },
    ];
    let mean = average_light(up, &samples);
    assert!(near(mean.x.0, 1.0 / 1.5));
    assert_eq!(mean.y.0, 0.0);
    assert!(near(mean.z.0, 1.0));
    let none = average_light(up, &Vec::new());
    assert_eq!((none.x.0, none.y.0, none.z.0), (0.0, 0.0, 0.0));
}

#[test]
fn levels_get_smaller_and_rougher() {
    assert_eq!(level_size(128, 0), 128);
    assert_eq!(level_size(128, 5), 4);
    assert_eq!(level_size(4, 6), 1);
    assert_eq!(level_roughness::<Num>(5, 6).0, 1.0);
    assert_eq!(level_roughness::<Num>(1, 5).0, 0.25);
    assert_eq!(level_roughness::<Num>(0, 1).0, 0.0);
}

#[test]
fn pictures_show_colours_in_all_directions() {
    let mut image = plain(v3(0.0, 0.0, 0.0));
    for x in 0..4 {
        image.pixels[x] = v3(1.0, 0.0, 0.0);
    }
    let up = sample_equirect::<Num, Radians>(&image, v3(0.0, 1.0, 0.0));
    let down = sample_equirect::<Num, Radians>(&image, v3(0.0, -1.0, 0.0));
    let side = sample_equirect::<Num, Radians>(&image, v3(1.0, 0.0, 0.0));
    assert!(near(up.x.0, 1.0));
    assert!(near(down.x.0, 0.0));
    assert!(near(side.x.0, 0.5));
}

#[test]
fn the_default_picture_has_a_sky_and_a_ground() {
    let image = generate_default_hdr::<Num, Radians>();
    assert_eq!((image.width, image.height), (256, 128));
    assert_eq!(image.pixels.len(), 256 * 128);
    let corner = image.pixel(255, 0);
    assert!(near(corner.x.0, 0.25 * 0.6 + 0.08));
    assert!(near(corner.y.0, 0.35 * 0.6 + 0.07));
    assert!(near(corner.z.0, 0.6 * 0.6 + 0.05));
    let sun = image.pixel(51, 44);
    assert!(sun.x.0 > 3.0 && sun.x.0 > sun.z.0);
}

#[test]
fn one_colour_lights_everything_alike() {
    let image = plain(v3(0.2, 0.4, 0.8));
    let diffuse = compute_diffuse_cubemap::<Num, Radians>(&image, 2);
    assert_eq!(diffuse.size, 2);
    assert_eq!(diffuse.faces.len(), 6);
    for face in &diffuse.faces {
        assert_eq!(face.len(), 16);
        for texel in face.chunks(4) {
            assert!(near(texel[0].0, 0.2) && near(texel[1].0, 0.4) && near(texel[2].0, 0.8));
            assert_eq!(texel[3].0, 1.0);
        }
    }
    let specular = compute_specular_cubemap::<Num, Radians>(&image, 4, 3);
    let sizes: Vec<u32> = specular.levels.iter().map(|level| level.size).collect();
    assert_eq!(sizes, [4, 2, 1]);
    for level in &specular.levels {
        for texel in level.faces.iter().flat_map(|face| face.chunks(4)) {
            assert!(near(texel[0].0, 0.2) && near(texel[2].0, 0.8));
        }
    }
    assert_eq!(compute_specular_cubemap::<Num, Radians>(&image, 1, 0).levels.len(), 1);
}

#[test]
fn smooth_surfaces_mirror_all_light_from_above() {
    let (a, b) = integrate_brdf::<Num, Radians>(Num(1.0), Num(0.0));
    assert!((a.0 + b.0 - 1.0).abs() < 0.01);
    assert!(b.0 < 0.01);
    let table = compute_brdf_lut::<Num, Radians>(2);
    assert_eq!((table.width, table.height, table.data.len()), (2, 2, 16));
    let (a, b) = integrate_brdf::<Num, Radians>(Num(0.75), Num(0.25));
    assert_eq!(table.data[4].0, a.0);
    assert_eq!(table.data[5].0, b.0);
    assert_eq!(table.data[6].0, 0.0);
    assert_eq!(table.data[7].0, 1.0);
}

#[test]
fn whole_numbers_have_powers() {
    let three = Fixed::from_count(3);
    assert_eq!(<SmallAngles as Curves<Fixed>>::repeated(three, 4), Fixed::from_count(81));
    assert_eq!(<SmallAngles as Curves<Fixed>>::repeated(three, 0), Fixed::from_count(1));
}

#[test]
fn bursts_pick_among_four_looks() {
    let regions = ["redorb", "bluebox", "green", "checker"];
    for i in 0..32 {
        let at = Vec2 { x: Num(0.5), y: Num(-0.25) };
        let row = spawn_burst_of_chance(Entity::from_bits(i), i.to_string(), at, at, Num(0.2));
        assert_eq!(row.entity, Entity::from_bits(i));
        assert_eq!(row.transform.translation.x.0, 0.5);
        let region = row.sprite.unwrap().region;
        assert!(regions.contains(&region.as_str()), "unknown region {region}");
    }
}
