//! What reading a mesh from a file comes to: corners name the vertices of their own part, pixels keep
//! their colours, and parts get the material that they name.
use vstd::prelude::*;
use crate::mesh_import::{
    default_material_key_of, gathered, keyed_material, material_key_of, rgba, rgba_byte,
    ImageFormat, ImportDocument, ImportPrimitive,
};
use crate::profiler::{longest_first, place_below, SystemTimingSummary};
use crate::scalar::{Fixed, Scalar};

verus! {

/// A corner of a part leads, in the whole mesh, to the position that it names in its part, and what
/// came before stays as it was.
pub proof fn law_corners_name_their_own_vertices(
    parts: Seq<ImportPrimitive<Fixed>>,
    k: int,
    c: int,
)
    requires
        0 <= k < parts.len(),
        parts[k].used(),
        0 <= c < parts[k].corners().len(),
        parts[k].corners()[c] < parts[k].point_count(),
        gathered(parts, k + 1).0.len() <= u32::MAX,
    ensures
        ({
            let (vertices, indices) = gathered(parts, k + 1);
            let at = indices[gathered(parts, k).1.len() + c] as int;
            let named = parts[k].corners()[c] as int;
            &&& at < vertices.len()
            &&& vertices[at].position == parts[k].positions->Some_0@[named]
            &&& parts[k].tex_coords is Some && named < parts[k].tex_coords->Some_0@.len()
                ==> vertices[at].uv == parts[k].tex_coords->Some_0@[named]
            &&& parts[k].joints is Some && named < parts[k].joints->Some_0@.len()
                ==> vertices[at].joints == parts[k].joints->Some_0@[named]
            &&& parts[k].weights is Some && named < parts[k].weights->Some_0@.len()
                ==> vertices[at].weights == parts[k].weights->Some_0@[named]
            &&& parts[k].has_normals() ==> vertices[at].normal
                == parts[k].normals->Some_0@[named].unit_or_zero_spec()
            &&& vertices.take(gathered(parts, k).0.len() as int) == gathered(parts, k).0
            &&& indices.take(gathered(parts, k).1.len() as int) == gathered(parts, k).1
        }),
{
    let (vertices, indices) = gathered(parts, k + 1);
    let (before, corners) = gathered(parts, k);
    let part = parts[k];
    assert(vertices == before + part.own_vertices());
    assert(indices == corners + part.shifted_corners(before.len()));
    let named = part.corners()[c] as int;
    assert(indices[corners.len() + c] == part.shifted_corners(before.len())[c]);
    assert(vertices[before.len() + named] == part.own_vertices()[named]);
}

/// The normals of a file are used where there is one for every position and one of them is not zero;
/// else the triangles give them.
pub proof fn law_normals_of_the_file_are_used(part: ImportPrimitive<Fixed>, i: int)
    requires
        part.used(),
    ensures
        part.normals is None ==> !part.has_normals(),
        part.normals is Some && part.normals->Some_0@.len() != part.point_count()
            ==> !part.has_normals(),
        part.normals is Some && part.normals->Some_0@.len() == part.point_count() && 0 <= i
            < part.point_count() && 256 <= part.normals->Some_0@[i].z.0 <= 0x1000_0000
            ==> part.normals_used() == part.normals->Some_0@,
{
    if part.normals is Some && part.normals->Some_0@.len() == part.point_count() && 0 <= i
        < part.point_count() && 256 <= part.normals->Some_0@[i].z.0 <= 0x1000_0000 {
        let n = part.normals->Some_0@[i];
        let x = n.x.0 * n.x.0;
        let y = n.y.0 * n.y.0;
        let z = n.z.0 * n.z.0;
        assert(0 <= x && 0 <= y && 65536 <= z) by (nonlinear_arith)
            requires
                x == n.x.0 * n.x.0,
                y == n.y.0 * n.y.0,
                z == n.z.0 * n.z.0,
                256 <= n.z.0,
        ;
        assert(!n.dot_spec(n).same_spec(Fixed(0)));
        assert(part.has_normals());
    }
}

/// Every pixel of an image keeps its colours in their order, is grey alike where it has but one, has
/// no colour that it did not have, and covers fully where the image does not say.
pub proof fn law_pixels_keep_their_colours(pixels: Seq<u8>, k: int)
    requires
        0 <= k,
    ensures
        4 * k + 3 < pixels.len() ==> rgba(ImageFormat::R8G8B8A8, pixels)[4 * k + 3] == pixels[4 * k
            + 3],
        3 * k + 2 < pixels.len() ==> {
            let out = rgba(ImageFormat::R8G8B8, pixels);
            &&& 4 * k + 3 < out.len()
            &&& out[4 * k] == pixels[3 * k]
            &&& out[4 * k + 1] == pixels[3 * k + 1]
            &&& out[4 * k + 2] == pixels[3 * k + 2]
            &&& out[4 * k + 3] == 255
        },
        2 * k + 1 < pixels.len() ==> {
            let out = rgba(ImageFormat::R8G8, pixels);
            &&& 4 * k + 3 < out.len()
            &&& out[4 * k] == pixels[2 * k]
            &&& out[4 * k + 1] == pixels[2 * k + 1]
            &&& out[4 * k + 2] == 0
            &&& out[4 * k + 3] == 255
        },
        k < pixels.len() ==> {
            let out = rgba(ImageFormat::R8, pixels);
            &&& 4 * k + 3 < out.len()
            &&& out[4 * k] == pixels[k] && out[4 * k + 1] == pixels[k] && out[4 * k + 2]
                == pixels[k]
            &&& out[4 * k + 3] == 255
        },
{
    assert((4 * k) / 4 == k && (4 * k + 1) / 4 == k && (4 * k + 2) / 4 == k && (4 * k + 3) / 4 == k);
    assert((4 * k) % 4 == 0 && (4 * k + 1) % 4 == 1 && (4 * k + 2) % 4 == 2 && (4 * k + 3) % 4
        == 3);
    assert(k * 3 == 3 * k && k * 2 == 2 * k && k * 1 == k);
    let n = pixels.len() as int;
    if 3 * k + 2 < n {
        let out = rgba(ImageFormat::R8G8B8, pixels);
        assert(out.len() == (n / 3) * 4);
        assert(k < n / 3);
        assert(out[4 * k] == rgba_byte(ImageFormat::R8G8B8, pixels, 4 * k));
        assert(out[4 * k + 1] == rgba_byte(ImageFormat::R8G8B8, pixels, 4 * k + 1));
        assert(out[4 * k + 2] == rgba_byte(ImageFormat::R8G8B8, pixels, 4 * k + 2));
    }
    if 2 * k + 1 < n {
        let out = rgba(ImageFormat::R8G8, pixels);
        assert(out.len() == (n / 2) * 4);
        assert(k < n / 2);
        assert(out[4 * k] == rgba_byte(ImageFormat::R8G8, pixels, 4 * k));
        assert(out[4 * k + 1] == rgba_byte(ImageFormat::R8G8, pixels, 4 * k + 1));
        assert(out[4 * k + 2] == rgba_byte(ImageFormat::R8G8, pixels, 4 * k + 2));
    }
    if k < n {
        let out = rgba(ImageFormat::R8, pixels);
        assert(pixels.len() / 1nat == pixels.len());
        assert(out.len() == n * 4);
        assert(out[4 * k] == rgba_byte(ImageFormat::R8, pixels, 4 * k));
        assert(out[4 * k + 1] == rgba_byte(ImageFormat::R8, pixels, 4 * k + 1));
        assert(out[4 * k + 2] == rgba_byte(ImageFormat::R8, pixels, 4 * k + 2));
    }
}

/// Whether a material of a file goes by a number.
pub open spec fn goes_by(d: ImportDocument<Fixed>, i: int, number: int) -> bool {
    match d.materials@[i].index {
        Some(own) => own == number,
        None => i == number,
    }
}

/// A part gets the key of the last material that goes by the number that it names, and that of the
/// default material where it names none or none goes by it.
pub proof fn law_parts_get_their_materials(d: ImportDocument<Fixed>, index: Option<usize>, n: int)
    requires
        0 <= n <= d.materials@.len(),
    ensures
        index is None ==> keyed_material(d, index, n) == default_material_key_of(d.path@),
        (forall|i: int| 0 <= i < n ==> !#[trigger] goes_by(d, i, index->Some_0 as int))
            ==> keyed_material(d, index, n) == default_material_key_of(d.path@),
        index is Some ==> forall|i: int|
            0 <= i < n && #[trigger] goes_by(d, i, index->Some_0 as int) && (forall|j: int|
                i < j < n ==> !#[trigger] goes_by(d, j, index->Some_0 as int)) ==> keyed_material(
                d,
                index,
                n,
            ) == material_key_of(d.path@, d.materials@[i], i),
    decreases n,
{
    if n > 0 && index is Some {
        law_parts_get_their_materials(d, index, n - 1);
        let number = index->Some_0 as int;
        if goes_by(d, n - 1, number) {
            assert forall|i: int|
                0 <= i < n && #[trigger] goes_by(d, i, number) && (forall|j: int|
                    i < j < n ==> !#[trigger] goes_by(d, j, number)) implies i == n - 1 by {
                if i < n - 1 {
                    assert(!goes_by(d, n - 1, number));
                }
            }
        } else {
            assert(keyed_material(d, index, n) == keyed_material(d, index, n - 1));
        }
    }
}

/// Whether no system comes before one that took longer.
pub open spec fn falls(list: Seq<SystemTimingSummary<Fixed>>) -> bool {
    forall|i: int, j: int|
        0 <= i < j < list.len() ==> (#[trigger] list[j]).last_ms.0 <= (#[trigger] list[i]).last_ms.0
}

/// The systems that took longest come first, and none is lost or added.
pub proof fn law_longest_systems_come_first(list: Seq<SystemTimingSummary<Fixed>>, n: int)
    requires
        0 <= n <= list.len(),
    ensures
        falls(longest_first(list, n)),
        longest_first(list, n).to_multiset() == list.take(n).to_multiset(),
        longest_first(list, n).len() == n,
    decreases n,
{
    broadcast use vstd::seq_lib::group_to_multiset_ensures;
    if n > 0 {
        law_longest_systems_come_first(list, n - 1);
        let before = longest_first(list, n - 1);
        let new = list[n - 1];
        lemma_place_below(before, new.last_ms, 0);
        let at = place_below(before, new.last_ms, 0);
        let after = before.insert(at, new);
        assert forall|i: int, j: int| 0 <= i < j < after.len() implies (
        #[trigger] after[j]).last_ms.0 <= (#[trigger] after[i]).last_ms.0 by {
            let p = if i < at {
                i
            } else {
                i - 1
            };
            let q = if j < at {
                j
            } else {
                j - 1
            };
            if i != at {
                assert(after[i] == before[p]);
            }
            if j != at {
                assert(after[j] == before[q]);
            }
        }
        assert(list.take(n) =~= list.take(n - 1).push(new));
        vstd::seq_lib::to_multiset_insert(before, at, new);
        vstd::seq_lib::to_multiset_build(list.take(n - 1), new);
    } else {
        assert(list.take(0) =~= Seq::<SystemTimingSummary<Fixed>>::empty());
        assert(longest_first(list, 0) =~= list.take(0));
    }
}

proof fn lemma_place_below(list: Seq<SystemTimingSummary<Fixed>>, ms: Fixed, from: int)
    requires
        0 <= from <= list.len(),
        falls(list),
    ensures
        from <= place_below(list, ms, from) <= list.len(),
        forall|i: int|
            from <= i < place_below(list, ms, from) ==> ms.0 <= (#[trigger] list[i]).last_ms.0,
        forall|i: int|
            place_below(list, ms, from) <= i < list.len() ==> (#[trigger] list[i]).last_ms.0 < ms.0,
    decreases list.len() - from,
{
    if from < list.len() && !list[from].last_ms.lt_spec(ms) {
        lemma_place_below(list, ms, from + 1);
    }
}

} // verus!
