//! Meshes: vertices, triangles and what is derived from them.
use vstd::prelude::*;
use crate::scalar::{ratio, Scalar};
use crate::vectors::{Vec2, Vec3, Vec4};

verus! {

#[derive(Clone, Copy)]
pub struct MeshVertex<S> {
    pub position: Vec3<S>,
    pub normal: Vec3<S>,
    pub tangent: Vec4<S>,
    pub uv: Vec2<S>,
    pub joints: [u16; 4],
    pub weights: [S; 4],
}

impl<S: Scalar> MeshVertex<S> {
    /// A vertex that no joint moves.
    pub open spec fn plain(position: Vec3<S>, normal: Vec3<S>, tangent: Vec4<S>, uv: Vec2<S>) -> Self {
        MeshVertex {
            position,
            normal,
            tangent,
            uv,
            joints: [0, 0, 0, 0],
            weights: [S::zero_spec(), S::zero_spec(), S::zero_spec(), S::zero_spec()],
        }
    }

    pub fn new(position: Vec3<S>, normal: Vec3<S>, tangent: Vec4<S>, uv: Vec2<S>) -> (r: Self)
        ensures
            r == Self::plain(position, normal, tangent, uv),
    {
        let zero = S::zero();
        MeshVertex {
            position,
            normal,
            tangent,
            uv,
            joints: [0, 0, 0, 0],
            weights: [zero, zero, zero, zero],
        }
    }

    pub fn with_skin(self, joints: [u16; 4], weights: [S; 4]) -> (r: Self)
        ensures
            r == (MeshVertex { joints, weights, ..self }),
    {
        MeshVertex { joints, weights, ..self }
    }
}

pub struct MeshSubset {
    pub name: Option<String>,
    pub index_offset: u32,
    pub index_count: u32,
    pub material: Option<String>,
}

pub struct MeshBounds<S> {
    pub min: Vec3<S>,
    pub max: Vec3<S>,
    pub center: Vec3<S>,
    pub radius: S,
}

pub struct Mesh<S> {
    pub vertices: Vec<MeshVertex<S>>,
    pub indices: Vec<u32>,
    pub subsets: Vec<MeshSubset>,
    pub bounds: MeshBounds<S>,
}

/// The lowest corner of the first `n` vertices.
pub open spec fn lowest<S: Scalar>(vertices: Seq<MeshVertex<S>>, n: int) -> Vec3<S>
    decreases n,
{
    if n <= 0 {
        let top = S::topmost_spec();
        Vec3 { x: top, y: top, z: top }
    } else {
        lowest(vertices, n - 1).smaller_spec(vertices[n - 1].position)
    }
}

/// The highest corner of the first `n` vertices.
pub open spec fn highest<S: Scalar>(vertices: Seq<MeshVertex<S>>, n: int) -> Vec3<S>
    decreases n,
{
    if n <= 0 {
        let bottom = S::topmost_spec().negated_spec();
        Vec3 { x: bottom, y: bottom, z: bottom }
    } else {
        highest(vertices, n - 1).larger_spec(vertices[n - 1].position)
    }
}

/// How far from `center` the farthest of the first `n` vertices lies.
pub open spec fn reach<S: Scalar>(vertices: Seq<MeshVertex<S>>, center: Vec3<S>, n: int) -> S
    decreases n,
{
    if n <= 0 {
        S::zero_spec()
    } else {
        reach(vertices, center, n - 1).larger_spec(
            vertices[n - 1].position.minus_spec(center).length_spec(),
        )
    }
}

/// The box around vertices, its middle, and the radius of the ball around them.
pub open spec fn bounds_of<S: Scalar>(vertices: Seq<MeshVertex<S>>) -> MeshBounds<S> {
    let n = vertices.len() as int;
    if n == 0 {
        let zero = Vec3::zero_spec();
        MeshBounds { min: zero, max: zero, center: zero, radius: S::zero_spec() }
    } else {
        let min = lowest(vertices, n);
        let max = highest(vertices, n);
        let center = min.plus_spec(max).scaled_spec(crate::scalar::ratio_spec(1, 2));
        MeshBounds { min, max, center, radius: reach(vertices, center, n) }
    }
}

impl<S: Scalar> MeshBounds<S> {
    pub fn from_vertices(vertices: &Vec<MeshVertex<S>>) -> (r: Self)
        ensures
            r == bounds_of(vertices@),
    {
        if vertices.len() == 0 {
            let zero = Vec3::zero();
            return MeshBounds { min: zero, max: zero, center: zero, radius: S::zero() };
        }
        let top = S::topmost();
        let bottom = top.negated();
        let mut min = Vec3 { x: top, y: top, z: top };
        let mut max = Vec3 { x: bottom, y: bottom, z: bottom };
        let mut i: usize = 0;
        while i < vertices.len()
            invariant
                i <= vertices@.len(),
                min == lowest(vertices@, i as int),
                max == highest(vertices@, i as int),
            decreases vertices@.len() - i,
        {
            min = min.smaller(vertices[i].position);
            max = max.larger(vertices[i].position);
            i = i + 1;
        }
        let center = min.plus(max).scaled(ratio(1, 2));
        let mut radius = S::zero();
        let mut j: usize = 0;
        while j < vertices.len()
            invariant
                j <= vertices@.len(),
                radius == reach(vertices@, center, j as int),
            decreases vertices@.len() - j,
        {
            radius = radius.larger(vertices[j].position.minus(center).length());
            j = j + 1;
        }
        MeshBounds { min, max, center, radius }
    }
}

/// The three corners of the `t`-th triangle.
pub open spec fn triangle(indices: Seq<u32>, t: int) -> (int, int, int) {
    (indices[3 * t] as int, indices[3 * t + 1] as int, indices[3 * t + 2] as int)
}

/// Whether all corners of the `t`-th triangle are among `n` vertices.
pub open spec fn triangle_fits(indices: Seq<u32>, t: int, n: nat) -> bool {
    let (a, b, c) = triangle(indices, t);
    a < n && b < n && c < n
}

fn corners(indices: &Vec<u32>, t: usize, n: usize) -> (r: Option<(usize, usize, usize)>)
    requires
        3 * t + 2 < indices@.len(),
    ensures
        match r {
            Some((a, b, c)) => triangle_fits(indices@, t as int, n as nat) && (
                a as int,
                b as int,
                c as int,
            ) == triangle(indices@, t as int),
            None => !triangle_fits(indices@, t as int, n as nat),
        },
{
    assert(indices.len() > 3 * t + 2);
    let a = indices[3 * t];
    let b = indices[3 * t + 1];
    let c = indices[3 * t + 2];
    if (a as u64) < n as u64 && (b as u64) < n as u64 && (c as u64) < n as u64 {
        Some((a as usize, b as usize, c as usize))
    } else {
        None
    }
}

pub open spec fn added_at<S: Scalar>(sums: Seq<Vec3<S>>, i: int, v: Vec3<S>) -> Seq<Vec3<S>> {
    sums.update(i, sums[i].plus_spec(v))
}

/// `v` added at the three corners of a triangle, one after the other.
pub open spec fn added_at_corners<S: Scalar>(
    sums: Seq<Vec3<S>>,
    corners: (int, int, int),
    v: Vec3<S>,
) -> Seq<Vec3<S>> {
    added_at(added_at(added_at(sums, corners.0, v), corners.1, v), corners.2, v)
}

fn add_at_corners<S: Scalar>(sums: &mut Vec<Vec3<S>>, a: usize, b: usize, c: usize, v: Vec3<S>)
    requires
        a < old(sums)@.len(),
        b < old(sums)@.len(),
        c < old(sums)@.len(),
    ensures
        final(sums)@ == added_at_corners(old(sums)@, (a as int, b as int, c as int), v),
        final(sums)@.len() == old(sums)@.len(),
{
    let at_a = sums[a].plus(v);
    sums.set(a, at_a);
    let at_b = sums[b].plus(v);
    sums.set(b, at_b);
    let at_c = sums[c].plus(v);
    sums.set(c, at_c);
}

fn zeros<S: Scalar>(n: usize) -> (r: Vec<Vec3<S>>)
    ensures
        r@ == Seq::new(n as nat, |i: int| Vec3::<S>::zero_spec()),
{
    let mut out: Vec<Vec3<S>> = Vec::new();
    while out.len() < n
        invariant
            out@.len() <= n,
            forall|i: int| 0 <= i < out@.len() ==> out@[i] == Vec3::<S>::zero_spec(),
        decreases n - out@.len(),
    {
        out.push(Vec3::zero());
    }
    assert(out@ =~= Seq::new(n as nat, |i: int| Vec3::<S>::zero_spec()));
    out
}

/// The normal of a triangle, as long as twice its area.
pub open spec fn face_normal<S: Scalar>(a: Vec3<S>, b: Vec3<S>, c: Vec3<S>) -> Vec3<S> {
    b.minus_spec(a).cross_spec(c.minus_spec(a))
}

pub open spec fn has_length<S: Scalar>(v: Vec3<S>) -> bool {
    S::zero_spec().lt_spec(v.dot_spec(v))
}

fn is_long<S: Scalar>(v: Vec3<S>) -> (r: bool)
    ensures
        r == has_length(v),
{
    S::zero().lt(v.dot(v))
}

/// For every position the sum of the normals of those of the first `t` triangles it is part of.
pub open spec fn normal_sums<S: Scalar>(
    positions: Seq<Vec3<S>>,
    indices: Seq<u32>,
    t: int,
) -> Seq<Vec3<S>>
    decreases t,
{
    if t <= 0 {
        Seq::new(positions.len(), |i: int| Vec3::<S>::zero_spec())
    } else {
        let before = normal_sums(positions, indices, t - 1);
        let (a, b, c) = triangle(indices, t - 1);
        let normal = face_normal(positions[a], positions[b], positions[c]);
        if triangle_fits(indices, t - 1, positions.len()) && has_length(normal) {
            added_at_corners(before, (a, b, c), normal)
        } else {
            before
        }
    }
}

pub proof fn lemma_normal_sums_len<S: Scalar>(positions: Seq<Vec3<S>>, indices: Seq<u32>, t: int)
    ensures
        normal_sums(positions, indices, t).len() == positions.len(),
    decreases t,
{
    if t > 0 {
        lemma_normal_sums_len(positions, indices, t - 1);
    }
}

/// A sum of normals with length one; where there is none it points up.
pub open spec fn settled_normal<S: Scalar>(sum: Vec3<S>) -> Vec3<S> {
    if has_length(sum) {
        sum.unit_spec()
    } else {
        Vec3 { x: S::zero_spec(), y: S::one_spec(), z: S::zero_spec() }
    }
}

/// A normal for every position, from the triangles around it.
pub fn compute_normals<S: Scalar>(positions: &Vec<Vec3<S>>, indices: &Vec<u32>) -> (r: Vec<Vec3<S>>)
    ensures
        r@ == normal_sums(positions@, indices@, indices@.len() as int / 3).map_values(
            |sum: Vec3<S>| settled_normal(sum),
        ),
{
    let n: usize = positions.len();
    let mut sums: Vec<Vec3<S>> = zeros(n);
    let triangles: usize = indices.len() / 3;
    let mut t: usize = 0;
    while t < triangles
        invariant
            n == positions@.len(),
            triangles == indices@.len() / 3,
            t <= triangles,
            sums@.len() == n,
            sums@ == normal_sums(positions@, indices@, t as int),
        decreases triangles - t,
    {
        if let Some((a, b, c)) = corners(indices, t, n) {
            let normal = positions[b].minus(positions[a]).cross(positions[c].minus(positions[a]));
            if is_long(normal) {
                add_at_corners(&mut sums, a, b, c, normal);
            }
        }
        t = t + 1;
    }
    let mut out: Vec<Vec3<S>> = Vec::new();
    let mut i: usize = 0;
    while i < sums.len()
        invariant
            i <= sums@.len(),
            out@.len() == i,
            forall|j: int| 0 <= j < i ==> out@[j] == settled_normal(#[trigger] sums@[j]),
        decreases sums@.len() - i,
    {
        let sum = sums[i];
        if is_long(sum) {
            out.push(sum.unit());
        } else {
            out.push(Vec3 { x: S::zero(), y: S::one(), z: S::zero() });
        }
        i = i + 1;
    }
    assert(out@ =~= sums@.map_values(|sum: Vec3<S>| settled_normal(sum)));
    out
}

/// The directions in which the two texture coordinates of a triangle grow; none where its texture
/// area is too small to say.
pub open spec fn texture_directions<S: Scalar>(
    a: MeshVertex<S>,
    b: MeshVertex<S>,
    c: MeshVertex<S>,
) -> Option<(Vec3<S>, Vec3<S>)> {
    let p1 = b.position.minus_spec(a.position);
    let p2 = c.position.minus_spec(a.position);
    let uv1 = b.uv.minus_spec(a.uv);
    let uv2 = c.uv.minus_spec(a.uv);
    let area = uv1.x.times_spec(uv2.y).minus_spec(uv1.y.times_spec(uv2.x));
    if area.magnitude_spec().lt_spec(crate::scalar::ratio_spec(1, 100_000_000)) {
        None
    } else {
        let k = S::one_spec().over_spec(area);
        Some(
            (
                p1.scaled_spec(uv2.y).minus_spec(p2.scaled_spec(uv1.y)).scaled_spec(k),
                p2.scaled_spec(uv1.x).minus_spec(p1.scaled_spec(uv2.x)).scaled_spec(k),
            ),
        )
    }
}

fn find_texture_directions<S: Scalar>(
    a: &MeshVertex<S>,
    b: &MeshVertex<S>,
    c: &MeshVertex<S>,
) -> (r: Option<(Vec3<S>, Vec3<S>)>)
    ensures
        r == texture_directions(*a, *b, *c),
{
    let p1 = b.position.minus(a.position);
    let p2 = c.position.minus(a.position);
    let uv1 = b.uv.minus(a.uv);
    let uv2 = c.uv.minus(a.uv);
    let area = uv1.x.times(uv2.y).minus(uv1.y.times(uv2.x));
    if area.magnitude().lt(ratio(1, 100_000_000)) {
        return None;
    }
    let k = S::one().over(area);
    Some(
        (
            p1.scaled(uv2.y).minus(p2.scaled(uv1.y)).scaled(k),
            p2.scaled(uv1.x).minus(p1.scaled(uv2.x)).scaled(k),
        ),
    )
}

/// For every vertex the sums of the texture directions of those of the first `t` triangles it is
/// part of.
pub open spec fn direction_sums<S: Scalar>(
    vertices: Seq<MeshVertex<S>>,
    indices: Seq<u32>,
    t: int,
) -> (Seq<Vec3<S>>, Seq<Vec3<S>>)
    decreases t,
{
    if t <= 0 {
        let none = Seq::new(vertices.len(), |i: int| Vec3::<S>::zero_spec());
        (none, none)
    } else {
        let before = direction_sums(vertices, indices, t - 1);
        let (a, b, c) = triangle(indices, t - 1);
        if !triangle_fits(indices, t - 1, vertices.len()) {
            before
        } else {
            match texture_directions(vertices[a], vertices[b], vertices[c]) {
                Some((along_u, along_v)) => (
                    added_at_corners(before.0, (a, b, c), along_u),
                    added_at_corners(before.1, (a, b, c), along_v),
                ),
                None => before,
            }
        }
    }
}

/// The tangent of a vertex from its summed texture directions: square to the normal, with the
/// side that the texture is seen from. Without a direction it is the x axis.
pub open spec fn settled_tangent<S: Scalar>(normal: Vec3<S>, along_u: Vec3<S>, along_v: Vec3<S>) -> Vec4<
    S,
> {
    if has_length(along_u) {
        let t = along_u.minus_spec(normal.scaled_spec(normal.dot_spec(along_u))).unit_or_zero_spec();
        let w = if normal.cross_spec(along_u).dot_spec(along_v).lt_spec(S::zero_spec()) {
            S::one_spec().negated_spec()
        } else {
            S::one_spec()
        };
        Vec4 { x: t.x, y: t.y, z: t.z, w }
    } else {
        Vec4 { x: S::one_spec(), y: S::zero_spec(), z: S::zero_spec(), w: S::one_spec() }
    }
}

fn settle_tangent<S: Scalar>(normal: Vec3<S>, along_u: Vec3<S>, along_v: Vec3<S>) -> (r: Vec4<S>)
    ensures
        r == settled_tangent(normal, along_u, along_v),
{
    if is_long(along_u) {
        let t = along_u.minus(normal.scaled(normal.dot(along_u))).unit_or_zero();
        let w = if normal.cross(along_u).dot(along_v).lt(S::zero()) {
            S::one().negated()
        } else {
            S::one()
        };
        Vec4 { x: t.x, y: t.y, z: t.z, w }
    } else {
        Vec4 { x: S::one(), y: S::zero(), z: S::zero(), w: S::one() }
    }
}

/// The vertices with their tangents; without vertices or triangles nothing changes.
pub open spec fn with_tangents<S: Scalar>(vertices: Seq<MeshVertex<S>>, indices: Seq<u32>) -> Seq<
    MeshVertex<S>,
> {
    if indices.len() == 0 {
        vertices
    } else {
        let (us, vs) = direction_sums(vertices, indices, indices.len() as int / 3);
        Seq::new(
            vertices.len(),
            |i: int|
                MeshVertex {
                    tangent: settled_tangent(vertices[i].normal, us[i], vs[i]),
                    ..vertices[i]
                },
        )
    }
}

pub fn compute_tangents<S: Scalar>(vertices: &mut Vec<MeshVertex<S>>, indices: &Vec<u32>)
    ensures
        final(vertices)@ == with_tangents(old(vertices)@, indices@),
{
    if vertices.len() == 0 || indices.len() == 0 {
        assert(vertices@ =~= with_tangents(vertices@, indices@));
        return ;
    }
    let n: usize = vertices.len();
    let mut us: Vec<Vec3<S>> = zeros(n);
    let mut vs: Vec<Vec3<S>> = zeros(n);
    let triangles: usize = indices.len() / 3;
    let mut t: usize = 0;
    while t < triangles
        invariant
            n == vertices@.len(),
            triangles == indices@.len() / 3,
            t <= triangles,
            us@.len() == n,
            vs@.len() == n,
            (us@, vs@) == direction_sums(vertices@, indices@, t as int),
        decreases triangles - t,
    {
        if let Some((a, b, c)) = corners(indices, t, n) {
            if let Some((along_u, along_v)) = find_texture_directions(
                &vertices[a],
                &vertices[b],
                &vertices[c],
            ) {
                add_at_corners(&mut us, a, b, c, along_u);
                add_at_corners(&mut vs, a, b, c, along_v);
            }
        }
        t = t + 1;
    }
    let mut i: usize = 0;
    while i < n
        invariant
            n == vertices@.len(),
            n == old(vertices)@.len(),
            us@.len() == n,
            vs@.len() == n,
            i <= n,
            forall|j: int| i <= j < n ==> #[trigger] vertices@[j] == old(vertices)@[j],
            forall|j: int|
                0 <= j < i ==> #[trigger] vertices@[j] == (MeshVertex {
                    tangent: settled_tangent(old(vertices)@[j].normal, us@[j], vs@[j]),
                    ..old(vertices)@[j]
                }),
        decreases n - i,
    {
        let tangent = settle_tangent(vertices[i].normal, us[i], vs[i]);
        let vertex = MeshVertex { tangent, ..vertices[i] };
        vertices.set(i, vertex);
        i = i + 1;
    }
    assert(vertices@ =~= with_tangents(old(vertices)@, indices@));
}

/// The corner of a cube that the `i`-th vertex of a face stands on: back, front, left, right, top
/// and bottom.
pub open spec fn cube_corner(face: int, i: int) -> int {
    let back = seq![0int, 3, 2, 1];
    let front = seq![4int, 5, 6, 7];
    let left = seq![0int, 4, 7, 3];
    let right = seq![1int, 2, 6, 5];
    let top = seq![3int, 7, 6, 2];
    let bottom = seq![0int, 1, 5, 4];
    seq![back, front, left, right, top, bottom][face][i]
}

fn pick_cube_corner(face: usize, i: usize) -> (r: usize)
    requires
        face < 6,
        i < 4,
    ensures
        r == cube_corner(face as int, i as int),
        r < 8,
{
    let row: [usize; 4] = if face == 0 {
        [0, 3, 2, 1]
    } else if face == 1 {
        [4, 5, 6, 7]
    } else if face == 2 {
        [0, 4, 7, 3]
    } else if face == 3 {
        [1, 2, 6, 5]
    } else if face == 4 {
        [3, 7, 6, 2]
    } else {
        [0, 1, 5, 4]
    };
    row[i]
}

/// Where a corner of a cube with half the given edge lies.
pub open spec fn corner_position<S: Scalar>(half: S, corner: int) -> Vec3<S> {
    let low = half.negated_spec();
    Vec3 {
        x: if corner == 0 || corner == 3 || corner == 4 || corner == 7 {
            low
        } else {
            half
        },
        y: if corner == 0 || corner == 1 || corner == 4 || corner == 5 {
            low
        } else {
            half
        },
        z: if corner < 4 {
            low
        } else {
            half
        },
    }
}

fn place_corner<S: Scalar>(half: S, corner: usize) -> (r: Vec3<S>)
    ensures
        r == corner_position(half, corner as int),
{
    let low = half.negated();
    Vec3 {
        x: if corner == 0 || corner == 3 || corner == 4 || corner == 7 {
            low
        } else {
            half
        },
        y: if corner == 0 || corner == 1 || corner == 4 || corner == 5 {
            low
        } else {
            half
        },
        z: if corner < 4 {
            low
        } else {
            half
        },
    }
}

pub open spec fn cube_normal<S: Scalar>(face: int) -> Vec3<S> {
    let zero = S::zero_spec();
    let one = S::one_spec();
    let minus = one.negated_spec();
    if face == 0 {
        Vec3 { x: zero, y: zero, z: minus }
    } else if face == 1 {
        Vec3 { x: zero, y: zero, z: one }
    } else if face == 2 {
        Vec3 { x: minus, y: zero, z: zero }
    } else if face == 3 {
        Vec3 { x: one, y: zero, z: zero }
    } else if face == 4 {
        Vec3 { x: zero, y: one, z: zero }
    } else {
        Vec3 { x: zero, y: minus, z: zero }
    }
}

fn pick_cube_normal<S: Scalar>(face: usize) -> (r: Vec3<S>)
    ensures
        r == cube_normal::<S>(face as int),
{
    let zero = S::zero();
    let one = S::one();
    let minus = one.negated();
    if face == 0 {
        Vec3 { x: zero, y: zero, z: minus }
    } else if face == 1 {
        Vec3 { x: zero, y: zero, z: one }
    } else if face == 2 {
        Vec3 { x: minus, y: zero, z: zero }
    } else if face == 3 {
        Vec3 { x: one, y: zero, z: zero }
    } else if face == 4 {
        Vec3 { x: zero, y: one, z: zero }
    } else {
        Vec3 { x: zero, y: minus, z: zero }
    }
}

/// The vertices of a cube, four to a face, before their tangents.
pub open spec fn cube_vertices<S: Scalar>(size: S) -> Seq<MeshVertex<S>> {
    let half = size.times_spec(crate::scalar::ratio_spec(1, 2));
    let zero = S::zero_spec();
    let one = S::one_spec();
    Seq::new(
        24,
        |k: int|
            MeshVertex::plain(
                corner_position(half, cube_corner(k / 4, k % 4)),
                cube_normal(k / 4),
                Vec4 { x: one, y: zero, z: zero, w: one },
                Vec2 {
                    x: if k % 4 == 1 || k % 4 == 2 {
                        one
                    } else {
                        zero
                    },
                    y: if k % 4 >= 2 {
                        one
                    } else {
                        zero
                    },
                },
            ),
    )
}

/// Two triangles for every face of a cube.
pub open spec fn cube_indices() -> Seq<u32> {
    Seq::new(36, |k: int| ((k / 6) * 4 + seq![0int, 1, 2, 0, 2, 3][k % 6]) as u32)
}

fn make_cube_vertices<S: Scalar>(size: S) -> (r: Vec<MeshVertex<S>>)
    ensures
        r@ == cube_vertices(size),
{
    let half = size.times(ratio(1, 2));
    let zero = S::zero();
    let one = S::one();
    let mut vertices: Vec<MeshVertex<S>> = Vec::new();
    let mut k: usize = 0;
    while k < 24
        invariant
            k <= 24,
            half == size.times_spec(crate::scalar::ratio_spec(1, 2)),
            zero == S::zero_spec(),
            one == S::one_spec(),
            vertices@.len() == k,
            forall|j: int| 0 <= j < k ==> #[trigger] vertices@[j] == cube_vertices(size)[j],
        decreases 24 - k,
    {
        let face: usize = k / 4;
        let i: usize = k % 4;
        let uv = Vec2 {
            x: if i == 1 || i == 2 {
                one
            } else {
                zero
            },
            y: if i >= 2 {
                one
            } else {
                zero
            },
        };
        vertices.push(
            MeshVertex::new(
                place_corner(half, pick_cube_corner(face, i)),
                pick_cube_normal(face),
                Vec4 { x: one, y: zero, z: zero, w: one },
                uv,
            ),
        );
        k = k + 1;
    }
    assert(vertices@ =~= cube_vertices(size));
    vertices
}

fn make_cube_indices() -> (r: Vec<u32>)
    ensures
        r@ == cube_indices(),
{
    let mut indices: Vec<u32> = Vec::new();
    let mut k: u32 = 0;
    while k < 36
        invariant
            k <= 36,
            indices@.len() == k,
            forall|j: int| 0 <= j < k ==> #[trigger] indices@[j] == cube_indices()[j],
        decreases 36 - k,
    {
        let within: u32 = k % 6;
        let corner: u32 = if within == 1 {
            1
        } else if within == 2 || within == 4 {
            2
        } else if within == 5 {
            3
        } else {
            0
        };
        indices.push((k / 6) * 4 + corner);
        k = k + 1;
    }
    assert(indices@ =~= cube_indices());
    indices
}

/// Every corner that a cube's triangles name is one of its vertices.
pub proof fn law_cube_triangles_fit(t: int)
    requires
        0 <= t < 12,
    ensures
        triangle_fits(cube_indices(), t, 24),
{
    assert forall|k: int| 0 <= k < 36 implies #[trigger] cube_indices()[k] < 24 by {
        assert(0 <= k / 6 < 6 && 0 <= k % 6 < 6);
        let corner = seq![0int, 1, 2, 0, 2, 3][k % 6];
        assert(0 <= corner <= 3);
    }
}

impl<S: Scalar> Mesh<S> {
    /// A mesh whose triangles are one subset without a material.
    pub fn new(vertices: Vec<MeshVertex<S>>, indices: Vec<u32>) -> (r: Self)
        requires
            indices@.len() <= u32::MAX,
        ensures
            r.vertices == vertices,
            r.indices == indices,
            r.bounds == bounds_of(vertices@),
            r.subsets@.len() == 1,
            r.subsets@[0] == (MeshSubset {
                name: None,
                index_offset: 0,
                index_count: indices@.len() as u32,
                material: None,
            }),
    {
        let count: u32 = indices.len() as u32;
        let bounds = MeshBounds::from_vertices(&vertices);
        let subset = MeshSubset {
            name: None,
            index_offset: 0,
            index_count: count,
            material: None,
        };
        let mut subsets: Vec<MeshSubset> = Vec::new();
        subsets.push(subset);
        Mesh { vertices, indices, subsets, bounds }
    }

    pub fn cube(size: S) -> (r: Self)
        ensures
            r.vertices@ == with_tangents(cube_vertices(size), cube_indices()),
            r.indices@ == cube_indices(),
            r.bounds == bounds_of(r.vertices@),
            r.subsets@.len() == 1,
            r.subsets@[0] == (MeshSubset {
                name: None,
                index_offset: 0,
                index_count: 36,
                material: None,
            }),
    {
        let mut vertices = make_cube_vertices(size);
        let indices = make_cube_indices();
        compute_tangents(&mut vertices, &indices);
        Mesh::new(vertices, indices)
    }
}

} // verus!
