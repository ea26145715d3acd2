//! What meshes come to: bounds hold what they are of, faces face one way, and textures lie along
//! their triangles. Numbers are fixed-point numbers, of which signs and sizes can be told.
use vstd::prelude::*;
use crate::mesh::{
    added_at_corners, bounds_of, cube_corner, cube_indices, cube_vertices, face_normal,
    has_length, highest, lowest, normal_sums, reach, settled_normal, settled_tangent,
    texture_directions, triangle, triangle_fits, MeshVertex,
};
use crate::particle_motion::{lemma_over_keeps_sign, lemma_times_keeps_sign};
use crate::scalar::{Fixed, Scalar};
use crate::vectors::{Vec2, Vec3};

verus! {

/// Whether sums of a few such vectors are exact.
pub open spec fn modest3(v: Vec3<Fixed>) -> bool {
    &&& -0x1000_0000_0000_0000 <= v.x.0 <= 0x1000_0000_0000_0000
    &&& -0x1000_0000_0000_0000 <= v.y.0 <= 0x1000_0000_0000_0000
    &&& -0x1000_0000_0000_0000 <= v.z.0 <= 0x1000_0000_0000_0000
}

/// Whether some of the first vertices lies at a height along an axis.
pub open spec fn touches(vertices: Seq<MeshVertex<Fixed>>, n: int, axis: int, at: Fixed) -> bool {
    exists|i: int|
        0 <= i < n && (if axis == 0 {
            (#[trigger] vertices[i]).position.x == at
        } else if axis == 1 {
            vertices[i].position.y == at
        } else {
            vertices[i].position.z == at
        })
}

/// The bounds of a mesh hold every vertex: none lies below the low corner, above the high corner or
/// farther from the middle than the radius.
pub proof fn law_bounds_hold_every_vertex(vertices: Seq<MeshVertex<Fixed>>, i: int)
    requires
        0 <= i < vertices.len(),
    ensures
        ({
            let b = bounds_of(vertices);
            let p = vertices[i].position;
            &&& b.min.x.0 <= p.x.0 <= b.max.x.0
            &&& b.min.y.0 <= p.y.0 <= b.max.y.0
            &&& b.min.z.0 <= p.z.0 <= b.max.z.0
            &&& p.minus_spec(b.center).length_spec().0 <= b.radius.0
        }),
{
    lemma_bounds_hold(vertices, bounds_of(vertices).center, vertices.len() as int, i);
}

proof fn lemma_bounds_hold(vertices: Seq<MeshVertex<Fixed>>, center: Vec3<Fixed>, n: int, i: int)
    requires
        0 <= i < n <= vertices.len(),
    ensures
        ({
            let low = lowest(vertices, n);
            let high = highest(vertices, n);
            let p = vertices[i].position;
            &&& low.x.0 <= p.x.0 <= high.x.0
            &&& low.y.0 <= p.y.0 <= high.y.0
            &&& low.z.0 <= p.z.0 <= high.z.0
            &&& p.minus_spec(center).length_spec().0 <= reach(vertices, center, n).0
        }),
    decreases n,
{
    if i < n - 1 {
        lemma_bounds_hold(vertices, center, n - 1, i);
    }
}

/// The bounds of a mesh are no wider than it is: a vertex lies on each of their sides, one lies as
/// far from the middle as the radius, and the middle lies halfway between the corners.
pub proof fn law_bounds_are_tight(vertices: Seq<MeshVertex<Fixed>>)
    requires
        0 < vertices.len(),
        forall|i: int| 0 <= i < vertices.len() ==> modest3((#[trigger] vertices[i]).position),
    ensures
        ({
            let b = bounds_of(vertices);
            let n = vertices.len() as int;
            &&& touches(vertices, n, 0, b.min.x) && touches(vertices, n, 0, b.max.x)
            &&& touches(vertices, n, 1, b.min.y) && touches(vertices, n, 1, b.max.y)
            &&& touches(vertices, n, 2, b.min.z) && touches(vertices, n, 2, b.max.z)
            &&& 2 * b.center.x.0 <= b.min.x.0 + b.max.x.0 <= 2 * b.center.x.0 + 1
            &&& 2 * b.center.y.0 <= b.min.y.0 + b.max.y.0 <= 2 * b.center.y.0 + 1
            &&& 2 * b.center.z.0 <= b.min.z.0 + b.max.z.0 <= 2 * b.center.z.0 + 1
            &&& b.radius.0 == 0 || exists|i: int|
                0 <= i < n && (#[trigger] vertices[i]).position.minus_spec(b.center).length_spec()
                    == b.radius
        }),
{
    let b = bounds_of(vertices);
    let n = vertices.len() as int;
    lemma_bounds_touch(vertices, b.center, n);
    assert(Fixed::from_count_spec(1) == Fixed(65536));
    assert(Fixed::from_count_spec(2) == Fixed(131072));
    assert(65536int * 65536 / 131072 == 32768);
    let half: Fixed = crate::scalar::ratio_spec(1, 2);
    assert(half == Fixed(32768));
    let x = b.min.x.0 + b.max.x.0;
    let y = b.min.y.0 + b.max.y.0;
    let z = b.min.z.0 + b.max.z.0;
    assert(x * 32768 / 65536 == x / 2);
    assert(y * 32768 / 65536 == y / 2);
    assert(z * 32768 / 65536 == z / 2);
}

proof fn lemma_bounds_touch(vertices: Seq<MeshVertex<Fixed>>, center: Vec3<Fixed>, n: int)
    requires
        1 <= n <= vertices.len(),
        forall|i: int| 0 <= i < vertices.len() ==> modest3((#[trigger] vertices[i]).position),
    ensures
        ({
            let low = lowest(vertices, n);
            let high = highest(vertices, n);
            &&& modest3(low) && modest3(high)
            &&& touches(vertices, n, 0, low.x) && touches(vertices, n, 0, high.x)
            &&& touches(vertices, n, 1, low.y) && touches(vertices, n, 1, high.y)
            &&& touches(vertices, n, 2, low.z) && touches(vertices, n, 2, high.z)
            &&& reach(vertices, center, n).0 == 0 || exists|i: int|
                0 <= i < n && (#[trigger] vertices[i]).position.minus_spec(center).length_spec()
                    == reach(vertices, center, n)
        }),
    decreases n,
{
    let p = vertices[n - 1].position;
    if n > 1 {
        lemma_bounds_touch(vertices, center, n - 1);
        lemma_touch_on(vertices, n, 0, lowest(vertices, n - 1).x);
        lemma_touch_on(vertices, n, 0, highest(vertices, n - 1).x);
        lemma_touch_on(vertices, n, 1, lowest(vertices, n - 1).y);
        lemma_touch_on(vertices, n, 1, highest(vertices, n - 1).y);
        lemma_touch_on(vertices, n, 2, lowest(vertices, n - 1).z);
        lemma_touch_on(vertices, n, 2, highest(vertices, n - 1).z);
    } else {
        assert(lowest(vertices, 0) == (Vec3 {
            x: Fixed(i64::MAX),
            y: Fixed(i64::MAX),
            z: Fixed(i64::MAX),
        }));
        assert(reach(vertices, center, 0) == Fixed(0));
        assert(highest(vertices, 0).x.0 == -i64::MAX);
    }
    assert(touches(vertices, n, 0, p.x)) by {
        assert(vertices[n - 1].position.x == p.x);
    }
    assert(touches(vertices, n, 1, p.y)) by {
        assert(vertices[n - 1].position.y == p.y);
    }
    assert(touches(vertices, n, 2, p.z)) by {
        assert(vertices[n - 1].position.z == p.z);
    }
}

proof fn lemma_touch_on(vertices: Seq<MeshVertex<Fixed>>, n: int, axis: int, at: Fixed)
    requires
        touches(vertices, n - 1, axis, at),
    ensures
        touches(vertices, n, axis, at),
{
}

/// A triangle whose corners go along one axis and then along the next faces the way of the third,
/// wherever it lies; and one whose corners go the other way round faces the other way.
pub proof fn law_faces_face_the_side_they_turn_to(a: Vec3<Fixed>, p: Fixed, q: Fixed)
    requires
        modest3(a),
        256 <= p.0 <= 0x1_0000_0000,
        256 <= q.0 <= 0x1_0000_0000,
    ensures
        ({
            let along_x = Vec3 { x: a.x.plus_spec(p), ..a };
            let along_y = Vec3 { y: a.y.plus_spec(q), ..a };
            let up = face_normal(a, along_x, along_y);
            let down = face_normal(a, along_y, along_x);
            &&& up.x.0 == 0 && up.y.0 == 0 && 0 < up.z.0
            &&& down.x.0 == 0 && down.y.0 == 0 && down.z.0 == -up.z.0
            &&& up.z.0 * 65536 <= p.0 * q.0 < (up.z.0 + 1) * 65536
        }),
        ({
            let along_y = Vec3 { y: a.y.plus_spec(p), ..a };
            let along_z = Vec3 { z: a.z.plus_spec(q), ..a };
            let side = face_normal(a, along_y, along_z);
            side.y.0 == 0 && side.z.0 == 0 && 0 < side.x.0
        }),
        ({
            let along_z = Vec3 { z: a.z.plus_spec(p), ..a };
            let along_x = Vec3 { x: a.x.plus_spec(q), ..a };
            let side = face_normal(a, along_z, along_x);
            side.x.0 == 0 && side.z.0 == 0 && 0 < side.y.0
        }),
{
    let m = p.0 * q.0;
    assert(65536 <= m <= 0x1_0000_0000_0000_0000int) by (nonlinear_arith)
        requires
            256 <= p.0 <= 0x1_0000_0000,
            256 <= q.0 <= 0x1_0000_0000,
            m == p.0 * q.0,
    ;
    assert(q.0 * p.0 == m) by (nonlinear_arith)
        requires
            m == p.0 * q.0,
    ;
    assert(0int * 0 == 0);
    assert(p.0 * 0 == 0 && 0 * p.0 == 0 && q.0 * 0 == 0 && 0 * q.0 == 0);
}

/// A triangle lies square to the way that it faces, as far as its corners lie on a grid of a 256th.
pub proof fn law_faces_are_square_to_their_sides(a: Vec3<Fixed>, b: Vec3<Fixed>)
    requires
        a.x.0 as int % 256 == 0 && a.y.0 as int % 256 == 0 && a.z.0 as int % 256 == 0,
        b.x.0 as int % 256 == 0 && b.y.0 as int % 256 == 0 && b.z.0 as int % 256 == 0,
        -0x1000_0000 <= a.x.0 <= 0x1000_0000,
        -0x1000_0000 <= a.y.0 <= 0x1000_0000,
        -0x1000_0000 <= a.z.0 <= 0x1000_0000,
        -0x1000_0000 <= b.x.0 <= 0x1000_0000,
        -0x1000_0000 <= b.y.0 <= 0x1000_0000,
        -0x1000_0000 <= b.z.0 <= 0x1000_0000,
    ensures
        ({
            let n = a.cross_spec(b);
            &&& n.x.0 * a.x.0 + n.y.0 * a.y.0 + n.z.0 * a.z.0 == 0
            &&& n.x.0 * b.x.0 + n.y.0 * b.y.0 + n.z.0 * b.z.0 == 0
            &&& b.cross_spec(a).x.0 == -n.x.0
            &&& b.cross_spec(a).y.0 == -n.y.0
            &&& b.cross_spec(a).z.0 == -n.z.0
        }),
{
    let n = a.cross_spec(b);
    let (ax, ay, az) = (a.x.0 as int / 256, a.y.0 as int / 256, a.z.0 as int / 256);
    let (bx, by, bz) = (b.x.0 as int / 256, b.y.0 as int / 256, b.z.0 as int / 256);
    lemma_grid_product(a.x, b.y);
    lemma_grid_product(a.x, b.z);
    lemma_grid_product(a.y, b.x);
    lemma_grid_product(a.y, b.z);
    lemma_grid_product(a.z, b.x);
    lemma_grid_product(a.z, b.y);
    assert(n.x.0 == ay * bz - by * az);
    assert(n.y.0 == az * bx - bz * ax);
    assert(n.z.0 == ax * by - bx * ay);
    lemma_turned_product(ay, bz, ax);
    lemma_turned_product(ax, by, az);
    lemma_turned_product(az, bx, ay);
    lemma_turned_product(bx, ay, bz);
    lemma_turned_product(by, az, bx);
    lemma_turned_product(bz, ax, by);
    lemma_difference_product(ay * bz, by * az, ax);
    lemma_difference_product(az * bx, bz * ax, ay);
    lemma_difference_product(ax * by, bx * ay, az);
    lemma_difference_product(ay * bz, by * az, bx);
    lemma_difference_product(az * bx, bz * ax, by);
    lemma_difference_product(ax * by, bx * ay, bz);
}

proof fn lemma_turned_product(p: int, q: int, r: int)
    ensures
        (p * q) * r == (q * r) * p,
{
    assert((p * q) * r == (q * r) * p) by (nonlinear_arith);
}

proof fn lemma_difference_product(p: int, q: int, r: int)
    ensures
        (p - q) * (256 * r) == 256 * (p * r) - 256 * (q * r),
{
    assert((p - q) * (256 * r) == 256 * (p * r) - 256 * (q * r)) by (nonlinear_arith);
}

proof fn lemma_grid_product(a: Fixed, b: Fixed)
    requires
        a.0 as int % 256 == 0 && b.0 as int % 256 == 0,
        -0x1000_0000 <= a.0 <= 0x1000_0000,
        -0x1000_0000 <= b.0 <= 0x1000_0000,
    ensures
        a.times_spec(b).0 == (a.0 as int / 256) * (b.0 as int / 256),
        b.times_spec(a).0 == a.times_spec(b).0,
        -0x100_0000_0000 <= a.times_spec(b).0 <= 0x100_0000_0000,
{
    let p = a.0 as int / 256;
    let q = b.0 as int / 256;
    let m = p * q;
    assert(a.0 * b.0 == 65536 * m) by (nonlinear_arith)
        requires
            a.0 == 256 * p,
            b.0 == 256 * q,
            m == p * q,
    ;
    assert(b.0 * a.0 == a.0 * b.0) by (nonlinear_arith);
    assert(-0x100_0000_0000 <= m <= 0x100_0000_0000) by (nonlinear_arith)
        requires
            -0x10_0000 <= p <= 0x10_0000,
            -0x10_0000 <= q <= 0x10_0000,
            m == p * q,
    ;
}

/// Where no face points below the ground, no normal does; and a vertex of no face points up along the
/// second axis.
pub proof fn law_normals_keep_to_the_side_of_their_faces(
    positions: Seq<Vec3<Fixed>>,
    indices: Seq<u32>,
    n: int,
    i: int,
)
    requires
        0 <= n,
        3 * n <= indices.len(),
        0 <= i < positions.len(),
        forall|t: int|
            0 <= t < n && #[trigger] triangle_fits(indices, t, positions.len()) ==> {
                let (a, b, c) = triangle(indices, t);
                0 <= face_normal(positions[a], positions[b], positions[c]).z.0
            },
    ensures
        0 <= settled_normal(normal_sums(positions, indices, n)[i]).z.0,
        (forall|k: int| 0 <= k < 3 * n ==> #[trigger] indices[k] != i) ==> settled_normal(
            normal_sums(positions, indices, n)[i],
        ) == (Vec3 { x: Fixed(0), y: Fixed(65536), z: Fixed(0) }),
{
    lemma_sums_keep_to_the_side(positions, indices, n, i);
    let sum = normal_sums(positions, indices, n)[i];
    let d = sum.dot_spec(sum);
    if has_length(sum) {
        lemma_unit_keeps_sign3(sum);
    }
    if sum == Vec3::<Fixed>::zero_spec() {
        assert(0int * 0 == 0);
    }
}

proof fn lemma_sums_keep_to_the_side(
    positions: Seq<Vec3<Fixed>>,
    indices: Seq<u32>,
    n: int,
    i: int,
)
    requires
        0 <= n,
        3 * n <= indices.len(),
        0 <= i < positions.len(),
        forall|t: int|
            0 <= t < n && #[trigger] triangle_fits(indices, t, positions.len()) ==> {
                let (a, b, c) = triangle(indices, t);
                0 <= face_normal(positions[a], positions[b], positions[c]).z.0
            },
    ensures
        normal_sums(positions, indices, n).len() == positions.len(),
        0 <= normal_sums(positions, indices, n)[i].z.0,
        (forall|k: int| 0 <= k < 3 * n ==> #[trigger] indices[k] != i) ==> normal_sums(
            positions,
            indices,
            n,
        )[i] == Vec3::<Fixed>::zero_spec(),
    decreases n,
{
    crate::mesh::lemma_normal_sums_len(positions, indices, n);
    if n > 0 {
        lemma_sums_keep_to_the_side(positions, indices, n - 1, i);
        crate::mesh::lemma_normal_sums_len(positions, indices, n - 1);
        let (a, b, c) = triangle(indices, n - 1);
        assert(a == indices[3 * (n - 1)]);
        assert(b == indices[3 * (n - 1) + 1]);
        assert(c == indices[3 * (n - 1) + 2]);
        if triangle_fits(indices, n - 1, positions.len()) {
            let before = normal_sums(positions, indices, n - 1);
            let normal = face_normal(positions[a], positions[b], positions[c]);
            assert(0 <= normal.z.0);
            let after = added_at_corners(before, (a, b, c), normal);
            assert(0 <= after[i].z.0);
        }
    }
}

/// A vector of length one has the signs of the vector that it comes from.
pub proof fn lemma_unit_keeps_sign3(v: Vec3<Fixed>)
    ensures
        ({
            let u = v.unit_spec();
            &&& 0 <= v.x.0 ==> 0 <= u.x.0
            &&& v.x.0 <= 0 ==> u.x.0 <= 0
            &&& 0 <= v.y.0 ==> 0 <= u.y.0
            &&& v.y.0 <= 0 ==> u.y.0 <= 0
            &&& 0 <= v.z.0 ==> 0 <= u.z.0
            &&& v.z.0 <= 0 ==> u.z.0 <= 0
        }),
        ({
            let u = v.unit_or_zero_spec();
            &&& 0 <= v.x.0 ==> 0 <= u.x.0
            &&& v.x.0 <= 0 ==> u.x.0 <= 0
            &&& 0 <= v.y.0 ==> 0 <= u.y.0
            &&& v.y.0 <= 0 ==> u.y.0 <= 0
            &&& 0 <= v.z.0 ==> 0 <= u.z.0
            &&& v.z.0 <= 0 ==> u.z.0 <= 0
        }),
{
    let d = v.dot_spec(v);
    if 0 < d.0 {
        crate::scalar::lemma_root_fits(d.0 as int);
    }
    let len = v.length_spec();
    assert(0 <= len.0);
    let k = Fixed::one_spec().over_spec(len);
    if 0 < len.0 {
        lemma_over_keeps_sign(Fixed::one_spec(), len);
    }
    assert(0 <= k.0);
    lemma_times_keeps_sign(v.x, k);
    lemma_times_keeps_sign(v.y, k);
    lemma_times_keeps_sign(v.z, k);
}

/// On a triangle whose texture goes from one corner once along the first coordinate to the second
/// corner, and once along the other to the third, the texture lies along those two sides.
pub proof fn law_textures_lie_along_their_sides(
    a: MeshVertex<Fixed>,
    b: MeshVertex<Fixed>,
    c: MeshVertex<Fixed>,
)
    requires
        modest3(a.position) && modest3(b.position) && modest3(c.position),
        -0x1000_0000_0000_0000 <= a.uv.x.0 <= 0x1000_0000_0000_0000,
        -0x1000_0000_0000_0000 <= a.uv.y.0 <= 0x1000_0000_0000_0000,
        b.uv.x.0 == a.uv.x.0 + 65536 && b.uv.y == a.uv.y,
        c.uv.y.0 == a.uv.y.0 + 65536 && c.uv.x == a.uv.x,
    ensures
        match texture_directions(a, b, c) {
            Some((along_u, along_v)) => {
                &&& along_u.x.0 == b.position.x.0 - a.position.x.0
                &&& along_u.y.0 == b.position.y.0 - a.position.y.0
                &&& along_u.z.0 == b.position.z.0 - a.position.z.0
                &&& along_v.x.0 == c.position.x.0 - a.position.x.0
                &&& along_v.y.0 == c.position.y.0 - a.position.y.0
                &&& along_v.z.0 == c.position.z.0 - a.position.z.0
            },
            None => false,
        },
{
    let one = Fixed(65536);
    assert(Fixed::from_count_spec(1) == one);
    assert(Fixed::from_count_spec(100_000_000) == Fixed(6553600000000));
    assert(65536int * 65536 / 6553600000000 == 0);
    let uv1 = b.uv.minus_spec(a.uv);
    let uv2 = c.uv.minus_spec(a.uv);
    assert(uv1 == (Vec2 { x: one, y: Fixed(0) }));
    assert(uv2 == (Vec2 { x: Fixed(0), y: one }));
    assert(65536int * 65536 / 65536 == 65536);
    assert(0int * 0 == 0);
    let area = uv1.x.times_spec(uv2.y).minus_spec(uv1.y.times_spec(uv2.x));
    assert(area == one);
    assert(one.over_spec(one) == one);
    let p1 = b.position.minus_spec(a.position);
    let p2 = c.position.minus_spec(a.position);
    lemma_times_keeps_sign(p1.x, one);
    lemma_times_keeps_sign(p1.y, one);
    lemma_times_keeps_sign(p1.z, one);
    lemma_times_keeps_sign(p2.x, one);
    lemma_times_keeps_sign(p2.y, one);
    lemma_times_keeps_sign(p2.z, one);
    assert(p1.scaled_spec(one) == p1);
    assert(p2.scaled_spec(one) == p2);
    assert(p1.x.0 * 0 == 0 && p1.y.0 * 0 == 0 && p1.z.0 * 0 == 0);
    assert(p2.x.0 * 0 == 0 && p2.y.0 * 0 == 0 && p2.z.0 * 0 == 0);
    assert(p1.scaled_spec(Fixed(0)) == Vec3::<Fixed>::zero_spec());
    assert(p2.scaled_spec(Fixed(0)) == Vec3::<Fixed>::zero_spec());
    assert(p1.minus_spec(Vec3::zero_spec()) == p1);
    assert(p2.minus_spec(Vec3::zero_spec()) == p2);
}

/// The tangent of a surface that faces along the third axis lies in the surface, on the side that the
/// texture grows to, and says whether the texture is seen from the front or from behind.
pub proof fn law_tangents_lie_in_the_surface(along_u: Vec3<Fixed>, along_v: Vec3<Fixed>)
    requires
        modest3(along_u) && modest3(along_v),
        has_length(along_u),
    ensures
        ({
            let up = Vec3 { x: Fixed(0), y: Fixed(0), z: Fixed(65536) };
            let t = settled_tangent(up, along_u, along_v);
            &&& t.z.0 == 0
            &&& 0 <= along_u.x.0 ==> 0 <= t.x.0
            &&& along_u.x.0 <= 0 ==> t.x.0 <= 0
            &&& 0 <= along_u.y.0 ==> 0 <= t.y.0
            &&& along_u.y.0 <= 0 ==> t.y.0 <= 0
            &&& along_u.y.0 == 0 && 0 < along_u.x.0 ==> t.w.0 == (if along_v.y.0 < 0 {
                -65536int
            } else {
                65536
            })
            &&& along_u.x.0 == 0 && 0 < along_u.y.0 ==> (along_v.x.0 <= 0 ==> t.w.0 == 65536)
        }),
{
    let one = Fixed(65536);
    let zero = Fixed(0);
    let up = Vec3 { x: zero, y: zero, z: one };
    let u = along_u;
    let v = along_v;
    assert(0 * u.x.0 == 0 && 0 * u.y.0 == 0);
    assert(65536 * u.z.0 / 65536 == u.z.0);
    assert(up.dot_spec(u) == u.z);
    assert(0 * u.z.0 == 0);
    assert(up.scaled_spec(u.z) == (Vec3 { x: zero, y: zero, z: u.z }));
    let flat = u.minus_spec(up.scaled_spec(u.z));
    assert(flat == (Vec3 { x: u.x, y: u.y, z: zero }));
    lemma_unit_keeps_sign3(flat);
    let n = up.cross_spec(u);
    assert(u.y.0 * 65536 / 65536 == u.y.0);
    assert(u.x.0 * 65536 / 65536 == u.x.0);
    assert(65536 * u.x.0 / 65536 == u.x.0);
    assert(65536 * u.y.0 / 65536 == u.y.0);
    assert(u.x.0 * 0 == 0 && u.y.0 * 0 == 0 && u.z.0 * 0 == 0);
    assert(n.x.0 == -u.y.0 && n.y == u.x && n.z == zero);
    assert(0 * v.z.0 == 0 && 0 * v.x.0 == 0 && 0 * v.y.0 == 0);
    if u.y.0 == 0 && 0 < u.x.0 {
        let m = n.y.0 * v.y.0;
        assert((v.y.0 < 0 ==> m < 0) && (0 <= v.y.0 ==> 0 <= m)) by (nonlinear_arith)
            requires
                m == n.y.0 * v.y.0,
                0 < n.y.0,
        ;
    }
    if u.x.0 == 0 && 0 < u.y.0 {
        let m = n.x.0 * v.x.0;
        assert(v.x.0 <= 0 ==> 0 <= m) by (nonlinear_arith)
            requires
                m == n.x.0 * v.x.0,
                n.x.0 < 0,
        ;
    }
}

/// Every vertex of a cube lies half its size away along the way that it faces, and it
/// faces along one axis.
pub proof fn law_cubes_face_outward(size: Fixed, k: int)
    requires
        256 <= size.0 <= 0x1_0000_0000,
        0 <= k < 24,
    ensures
        ({
            let v = cube_vertices(size)[k];
            let p = v.position;
            let half = size.0 as int / 2;
            &&& p.x.0 == half || p.x.0 == -half
            &&& p.y.0 == half || p.y.0 == -half
            &&& p.z.0 == half || p.z.0 == -half
            &&& v.normal.x.0 != 0 ==> v.normal.y.0 == 0 && v.normal.z.0 == 0 && (v.normal.x.0 > 0
                ==> p.x.0 == half) && (v.normal.x.0 < 0 ==> p.x.0 == -half)
            &&& v.normal.y.0 != 0 ==> v.normal.x.0 == 0 && v.normal.z.0 == 0 && (v.normal.y.0 > 0
                ==> p.y.0 == half) && (v.normal.y.0 < 0 ==> p.y.0 == -half)
            &&& v.normal.z.0 != 0 ==> v.normal.x.0 == 0 && v.normal.y.0 == 0 && (v.normal.z.0 > 0
                ==> p.z.0 == half) && (v.normal.z.0 < 0 ==> p.z.0 == -half)
            &&& !(v.normal.x.0 == 0 && v.normal.y.0 == 0 && v.normal.z.0 == 0)
        }),
{
    lemma_cube_half(size);
    let face = k / 4;
    let i = k % 4;
    assert(0 <= face < 6 && 0 <= i < 4);
    lemma_cube_corner(face, i);
}

/// The first and the last of a face's two triangles name the face's own vertices, and both face the
/// way that those do.
pub proof fn law_cube_triangles_face_outward(size: Fixed, t: int)
    requires
        256 <= size.0 <= 0x1_0000_0000,
        0 <= t < 12,
    ensures
        ({
            let v = cube_vertices(size);
            let (a, b, c) = triangle(cube_indices(), t);
            let n = face_normal(v[a].position, v[b].position, v[c].position);
            let face = v[a].normal;
            &&& v[b].normal == face && v[c].normal == face
            &&& face.x.0 == 0 ==> n.x.0 == 0
            &&& face.y.0 == 0 ==> n.y.0 == 0
            &&& face.z.0 == 0 ==> n.z.0 == 0
            &&& face.x.0 > 0 ==> n.x.0 > 0
            &&& face.x.0 < 0 ==> n.x.0 < 0
            &&& face.y.0 > 0 ==> n.y.0 > 0
            &&& face.y.0 < 0 ==> n.y.0 < 0
            &&& face.z.0 > 0 ==> n.z.0 > 0
            &&& face.z.0 < 0 ==> n.z.0 < 0
        }),
{
    lemma_cube_half(size);
    let (a, b, c) = triangle(cube_indices(), t);
    let face = t / 2;
    let v = cube_vertices(size);
    let which = seq![0int, 1, 2, 0, 2, 3];
    assert(3 * t / 6 == face && (3 * t + 1) / 6 == face && (3 * t + 2) / 6 == face);
    assert(a == 4 * face + which[3 * t % 6]);
    assert(b == 4 * face + which[(3 * t + 1) % 6]);
    assert(c == 4 * face + which[(3 * t + 2) % 6]);
    assert(a / 4 == face && b / 4 == face && c / 4 == face);
    lemma_cube_corner(face, a % 4);
    lemma_cube_corner(face, b % 4);
    lemma_cube_corner(face, c % 4);
    let e = 2 * (size.0 as int / 2);
    let m = e * e;
    assert(65536 <= m <= 0x1_0000_0000_0000_0000int) by (nonlinear_arith)
        requires
            256 <= e <= 0x1_0000_0000,
            m == e * e,
    ;
    assert((-e) * (-e) == m && (-e) * e == -m && e * (-e) == -m) by (nonlinear_arith)
        requires
            m == e * e,
    ;
    assert(0 * e == 0 && e * 0 == 0 && 0 * (-e) == 0 && (-e) * 0 == 0 && 0int * 0 == 0);
    assert(-0x1_0000_0000_0000int <= -m / 65536 < 0);
    assert(0 < m / 65536 <= 0x1_0000_0000_0000int);
}

proof fn lemma_cube_corner(face: int, i: int)
    requires
        0 <= face < 6,
        0 <= i < 4,
    ensures
        ({
            let c = cube_corner(face, i);
            &&& 0 <= c < 8
            &&& face == 0 ==> c == (if i == 0 { 0 } else { 4 - i })
            &&& face == 1 ==> c == 4 + i
            &&& face == 2 ==> c == (if i == 0 { 0int } else if i == 1 { 4 } else if i == 2 { 7 } else { 3 })
            &&& face == 3 ==> c == (if i == 0 { 1int } else if i == 1 { 2 } else if i == 2 { 6 } else { 5 })
            &&& face == 4 ==> c == (if i == 0 { 3int } else if i == 1 { 7 } else if i == 2 { 6 } else { 2 })
            &&& face == 5 ==> c == (if i == 0 { 0int } else if i == 1 { 1 } else if i == 2 { 5 } else { 4 })
        }),
{
    let back = seq![0int, 3, 2, 1];
    let front = seq![4int, 5, 6, 7];
    let left = seq![0int, 4, 7, 3];
    let right = seq![1int, 2, 6, 5];
    let top = seq![3int, 7, 6, 2];
    let bottom = seq![0int, 1, 5, 4];
    let rows = seq![back, front, left, right, top, bottom];
    assert(rows[face] == (if face == 0 {
        back
    } else if face == 1 {
        front
    } else if face == 2 {
        left
    } else if face == 3 {
        right
    } else if face == 4 {
        top
    } else {
        bottom
    }));
}

proof fn lemma_cube_half(size: Fixed)
    requires
        256 <= size.0 <= 0x1_0000_0000,
    ensures
        size.times_spec(crate::scalar::ratio_spec(1, 2)).0 == size.0 as int / 2,
{
    assert(Fixed::from_count_spec(1) == Fixed(65536));
    assert(Fixed::from_count_spec(2) == Fixed(131072));
    assert(65536int * 65536 / 131072 == 32768);
    assert(size.0 * 32768 / 65536 == size.0 as int / 2);
}

} // verus!
