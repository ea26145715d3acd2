//! Turning the meshes, materials and images of a model file into a mesh of this crate.
use vstd::prelude::*;
use crate::mesh::{compute_normals, compute_tangents, Mesh, MeshBounds, MeshSubset, MeshVertex};
use crate::scalar::Scalar;
use crate::text::{join3, to_decimal};
use crate::text_map::same_text;
use crate::vectors::{Vec2, Vec3, Vec4};

verus! {

/// How the bytes of an image are laid out.
#[derive(Clone, Copy, PartialEq, Eq, Structural)]
pub enum ImageFormat {
    R8,
    R8G8,
    R8G8B8,
    R8G8B8A8,
    R16,
    R16G16,
    R16G16B16,
    R16G16B16A16,
    R32G32B32FLOAT,
    R32G32B32A32FLOAT,
}

impl ImageFormat {
    /// Only images with a byte per channel can be used.
    pub open spec fn supported(self) -> bool {
        self is R8 || self is R8G8 || self is R8G8B8 || self is R8G8B8A8
    }

    pub open spec fn name_text(self) -> Seq<char> {
        match self {
            ImageFormat::R8 => "R8"@,
            ImageFormat::R8G8 => "R8G8"@,
            ImageFormat::R8G8B8 => "R8G8B8"@,
            ImageFormat::R8G8B8A8 => "R8G8B8A8"@,
            ImageFormat::R16 => "R16"@,
            ImageFormat::R16G16 => "R16G16"@,
            ImageFormat::R16G16B16 => "R16G16B16"@,
            ImageFormat::R16G16B16A16 => "R16G16B16A16"@,
            ImageFormat::R32G32B32FLOAT => "R32G32B32FLOAT"@,
            ImageFormat::R32G32B32A32FLOAT => "R32G32B32A32FLOAT"@,
        }
    }

    pub fn name(self) -> (r: &'static str)
        ensures
            r@ == self.name_text(),
    {
        match self {
            ImageFormat::R8 => "R8",
            ImageFormat::R8G8 => "R8G8",
            ImageFormat::R8G8B8 => "R8G8B8",
            ImageFormat::R8G8B8A8 => "R8G8B8A8",
            ImageFormat::R16 => "R16",
            ImageFormat::R16G16 => "R16G16",
            ImageFormat::R16G16B16 => "R16G16B16",
            ImageFormat::R16G16B16A16 => "R16G16B16A16",
            ImageFormat::R32G32B32FLOAT => "R32G32B32FLOAT",
            ImageFormat::R32G32B32A32FLOAT => "R32G32B32A32FLOAT",
        }
    }
}

pub struct ImportImage {
    pub width: u32,
    pub height: u32,
    pub format: ImageFormat,
    pub pixels: Vec<u8>,
}

/// A texture of the file: its number, and that of the image it shows.
pub struct ImportTexture {
    pub index: usize,
    pub image: usize,
}

/// A texture that a material uses.
#[derive(Clone, Copy)]
pub struct TextureUse<S> {
    pub texture: usize,
    pub tex_coord: u32,
    pub scale: S,
}

pub struct ImportMaterial<S> {
    pub name: Option<String>,
    pub index: Option<usize>,
    pub base_color_factor: Vec4<S>,
    pub metallic_factor: S,
    pub roughness_factor: S,
    pub emissive_factor: Vec3<S>,
    pub base_color_texture: Option<TextureUse<S>>,
    pub metallic_roughness_texture: Option<TextureUse<S>>,
    pub normal_texture: Option<TextureUse<S>>,
    pub emissive_texture: Option<TextureUse<S>>,
}

pub struct ImportPrimitive<S> {
    pub triangles: bool,
    pub positions: Option<Vec<Vec3<S>>>,
    pub normals: Option<Vec<Vec3<S>>>,
    pub tex_coords: Option<Vec<Vec2<S>>>,
    pub joints: Option<Vec<[u16; 4]>>,
    pub weights: Option<Vec<[S; 4]>>,
    pub indices: Option<Vec<u32>>,
    pub material: Option<usize>,
}

pub struct ImportMesh<S> {
    pub name: Option<String>,
    pub primitives: Vec<ImportPrimitive<S>>,
}

/// What a model file holds, with the path it was read from.
pub struct ImportDocument<S> {
    pub path: String,
    pub mesh: Option<ImportMesh<S>>,
    pub textures: Vec<ImportTexture>,
    pub images: Vec<ImportImage>,
    pub materials: Vec<ImportMaterial<S>>,
}

pub struct ImportedTexture {
    pub key: String,
    pub width: u32,
    pub height: u32,
    pub data: Vec<u8>,
}

pub struct MaterialTextureBinding<S> {
    pub texture_key: String,
    pub tex_coord: u32,
    pub srgb: bool,
    pub scale: S,
}

pub struct ImportedMaterial<S> {
    pub key: String,
    pub label: String,
    pub base_color_factor: Vec4<S>,
    pub metallic_factor: S,
    pub roughness_factor: S,
    pub emissive_factor: Vec3<S>,
    pub base_color_texture: Option<MaterialTextureBinding<S>>,
    pub metallic_roughness_texture: Option<MaterialTextureBinding<S>>,
    pub normal_texture: Option<MaterialTextureBinding<S>>,
    pub emissive_texture: Option<MaterialTextureBinding<S>>,
    pub source: Option<String>,
}

pub struct MeshImport<S> {
    pub mesh: Mesh<S>,
    pub materials: Vec<ImportedMaterial<S>>,
    pub textures: Vec<ImportedTexture>,
}

/// Why a file gives no mesh.
pub enum ImportError {
    NoMeshes,
    ImageMissing { index: usize },
    UnsupportedImage { format: ImageFormat },
    PositionsMissing,
    NoTriangles,
}

impl ImportError {
    pub open spec fn text(self, path: Seq<char>) -> Seq<char> {
        match self {
            ImportError::NoMeshes => "No meshes found in "@ + path,
            ImportError::ImageMissing { index } => "Image index "@ + crate::text::decimal(
                index as int,
            ) + " missing in "@ + path,
            ImportError::UnsupportedImage { format } => "Unsupported image format "@
                + format.name_text(),
            ImportError::PositionsMissing => "POSITION attribute missing in "@ + path,
            ImportError::NoTriangles => "Mesh in "@ + path + " contains no triangle primitives"@,
        }
    }

    pub fn message(&self, path: &str) -> (r: String)
        ensures
            r@ == self.text(path@),
    {
        proof {
            reveal_strlit("");
        }
        match self {
            ImportError::NoMeshes => join3("No meshes found in ", path, ""),
            ImportError::ImageMissing { index } => {
                let head = join3("Image index ", to_decimal(*index as u64).as_str(), " missing in ");
                join3(head.as_str(), path, "")
            },
            ImportError::UnsupportedImage { format } => join3(
                "Unsupported image format ",
                format.name(),
                "",
            ),
            ImportError::PositionsMissing => join3("POSITION attribute missing in ", path, ""),
            ImportError::NoTriangles => join3(
                "Mesh in ",
                path,
                " contains no triangle primitives",
            ),
        }
    }
}

/// How many bytes of an image make one pixel.
pub open spec fn bytes_per_pixel(format: ImageFormat) -> int {
    match format {
        ImageFormat::R8 => 1,
        ImageFormat::R8G8 => 2,
        ImageFormat::R8G8B8 => 3,
        ImageFormat::R8G8B8A8 => 4,
        _ => 0,
    }
}

/// One byte of the pixels in red, green, blue and alpha: grey is spread, what is missing is
/// black, and alpha is full.
pub open spec fn rgba_byte(format: ImageFormat, pixels: Seq<u8>, i: int) -> u8 {
    let width = bytes_per_pixel(format);
    let pixel = (i / 4) * width;
    let channel = i % 4;
    if channel == 3 {
        255
    } else if format is R8 {
        pixels[pixel]
    } else if channel < width {
        pixels[pixel + channel]
    } else {
        0
    }
}

/// An image in red, green, blue and alpha; bytes at the end that make no whole pixel are left out.
pub open spec fn rgba(format: ImageFormat, pixels: Seq<u8>) -> Seq<u8> {
    if format is R8G8B8A8 {
        pixels
    } else {
        Seq::new(
            (pixels.len() / bytes_per_pixel(format) as nat) * 4,
            |i: int| rgba_byte(format, pixels, i),
        )
    }
}

pub fn convert_image_to_rgba(format: ImageFormat, pixels: &Vec<u8>) -> (r: Result<
    Vec<u8>,
    ImportError,
>)
    ensures
        match r {
            Ok(data) => format.supported() && data@ == rgba(format, pixels@),
            Err(e) => !format.supported() && e == (ImportError::UnsupportedImage { format }),
        },
{
    let width: usize = match format {
        ImageFormat::R8 => 1,
        ImageFormat::R8G8 => 2,
        ImageFormat::R8G8B8 => 3,
        ImageFormat::R8G8B8A8 => {
            let data = pixels.clone();
            assert(data@ =~= pixels@);
            return Ok(data);
        },
        _ => {
            return Err(ImportError::UnsupportedImage { format });
        },
    };
    let mut out: Vec<u8> = Vec::new();
    let n: usize = pixels.len() / width;
    assert(n * width <= pixels@.len()) by (nonlinear_arith)
        requires
            n == pixels@.len() / width as nat,
            width > 0,
    ;
    let mut p: usize = 0;
    while p < n
        invariant
            1 <= width <= 3,
            width == bytes_per_pixel(format),
            !(format is R8G8B8A8),
            p <= n,
            n * width <= pixels@.len(),
            out@.len() == p * 4,
            forall|i: int| 0 <= i < p * 4 ==> #[trigger] out@[i] == rgba_byte(format, pixels@, i),
        decreases n - p,
    {
        assert(p * width + width <= n * width) by (nonlinear_arith)
            requires
                p + 1 <= n,
        ;
        assert(pixels.len() >= p * width + width);
        let start: usize = p * width;
        let red = pixels[start];
        let green = if width == 1 {
            red
        } else {
            pixels[start + 1]
        };
        let blue = if width == 1 {
            red
        } else if width == 2 {
            0u8
        } else {
            pixels[start + 2]
        };
        let ghost before = out@;
        out.push(red);
        out.push(green);
        out.push(blue);
        out.push(255);
        proof {
            assert forall|i: int| 0 <= i < (p + 1) * 4 implies #[trigger] out@[i] == rgba_byte(
                format,
                pixels@,
                i,
            ) by {
                if i < p * 4 {
                    assert(out@[i] == before[i]);
                } else {
                    assert(i / 4 == p);
                }
            }
        }
        p = p + 1;
    }
    assert(out@ =~= rgba(format, pixels@));
    Ok(out)
}

/// The key of a texture.
pub open spec fn texture_key_of(path: Seq<char>, index: usize) -> Seq<char> {
    path + "::tex"@ + crate::text::decimal(index as int)
}

pub fn texture_key(path: &str, index: usize) -> (r: String)
    ensures
        r@ == texture_key_of(path@, index),
{
    join3(path, "::tex", to_decimal(index as u64).as_str())
}

pub open spec fn texture_is<S>(t: ImportedTexture, d: ImportDocument<S>, i: int) -> bool {
    let image = d.images@[d.textures@[i].image as int];
    &&& t.key@ == texture_key_of(d.path@, d.textures@[i].index)
    &&& t.width == image.width
    &&& t.height == image.height
    &&& t.data@ == rgba(image.format, image.pixels@)
}

/// Why the `i`-th texture cannot be had, if so.
pub open spec fn texture_error<S>(d: ImportDocument<S>, i: int) -> Option<ImportError> {
    let image = d.textures@[i].image;
    if image >= d.images@.len() {
        Some(ImportError::ImageMissing { index: image })
    } else if !d.images@[image as int].format.supported() {
        Some(ImportError::UnsupportedImage { format: d.images@[image as int].format })
    } else {
        None
    }
}

pub open spec fn textures_ready<S>(d: ImportDocument<S>, n: int) -> bool {
    forall|i: int| 0 <= i < n ==> #[trigger] texture_error(d, i) is None
}

/// The textures of a file in its order, or why the first bad one is bad.
pub fn import_textures<S>(document: &ImportDocument<S>) -> (r: Result<
    Vec<ImportedTexture>,
    ImportError,
>)
    ensures
        match r {
            Ok(textures) => {
                &&& textures_ready(*document, document.textures@.len() as int)
                &&& textures@.len() == document.textures@.len()
                &&& forall|i: int|
                    0 <= i < textures@.len() ==> texture_is(
                        #[trigger] textures@[i],
                        *document,
                        i,
                    )
            },
            Err(e) => exists|i: int|
                0 <= i < document.textures@.len() && textures_ready(*document, i)
                    && #[trigger] texture_error(*document, i) == Some(e),
        },
{
    let mut textures: Vec<ImportedTexture> = Vec::new();
    let mut i: usize = 0;
    while i < document.textures.len()
        invariant
            i <= document.textures@.len(),
            textures@.len() == i,
            textures_ready(*document, i as int),
            forall|j: int| 0 <= j < i ==> texture_is(#[trigger] textures@[j], *document, j),
        decreases document.textures@.len() - i,
    {
        let source: usize = document.textures[i].image;
        if source >= document.images.len() {
            let e = ImportError::ImageMissing { index: source };
            assert(texture_error(*document, i as int) == Some(e));
            return Err(e);
        }
        let image = &document.images[source];
        match convert_image_to_rgba(image.format, &image.pixels) {
            Err(e) => {
                assert(texture_error(*document, i as int) == Some(e));
                return Err(e);
            },
            Ok(data) => {
                textures.push(
                    ImportedTexture {
                        key: texture_key(document.path.as_str(), document.textures[i].index),
                        width: image.width,
                        height: image.height,
                        data,
                    },
                );
            },
        }
        assert(texture_error(*document, i as int) is None);
        i = i + 1;
    }
    Ok(textures)
}

pub open spec fn default_material_key_of(path: Seq<char>) -> Seq<char> {
    path + "::default"@
}

/// The label of a material: its name, or one made from its place.
pub open spec fn material_label_of<S>(m: ImportMaterial<S>, place: int) -> Seq<char> {
    match m.name {
        Some(name) => name@,
        None => "material_"@ + crate::text::decimal(place),
    }
}

pub open spec fn material_key_of<S>(path: Seq<char>, m: ImportMaterial<S>, place: int) -> Seq<char> {
    path + "::"@ + material_label_of(m, place)
}

/// Whether the file has a texture of that number.
pub open spec fn has_texture(textures: Seq<ImportTexture>, index: usize) -> bool {
    exists|i: int| 0 <= i < textures.len() && (#[trigger] textures[i]).index == index
}

/// What a material's use of a texture becomes; none when the file has no such texture.
pub open spec fn binding_is<S>(
    r: Option<MaterialTextureBinding<S>>,
    path: Seq<char>,
    textures: Seq<ImportTexture>,
    used: Option<TextureUse<S>>,
    srgb: bool,
    scale: S,
) -> bool {
    match used {
        Some(u) => if has_texture(textures, u.texture) {
            &&& r is Some
            &&& r->0.texture_key@ == texture_key_of(path, u.texture)
            &&& r->0.tex_coord == u.tex_coord
            &&& r->0.srgb == srgb
            &&& r->0.scale == scale
        } else {
            r is None
        },
        None => r is None,
    }
}

fn bind_texture<S: Copy>(
    document: &ImportDocument<S>,
    used: Option<TextureUse<S>>,
    srgb: bool,
    scale: S,
) -> (r: Option<MaterialTextureBinding<S>>)
    ensures
        binding_is(r, document.path@, document.textures@, used, srgb, scale),
{
    match used {
        None => None,
        Some(u) => {
            let mut i: usize = 0;
            while i < document.textures.len()
                invariant
                    i <= document.textures@.len(),
                    used == Some(u),
                    forall|j: int|
                        0 <= j < i ==> (#[trigger] document.textures@[j]).index != u.texture,
                decreases document.textures@.len() - i,
            {
                if document.textures[i].index == u.texture {
                    return Some(
                        MaterialTextureBinding {
                            texture_key: texture_key(document.path.as_str(), u.texture),
                            tex_coord: u.tex_coord,
                            srgb,
                            scale,
                        },
                    );
                }
                i = i + 1;
            }
            None
        },
    }
}

/// The scale of a normal texture that a material uses.
pub open spec fn normal_scale<S: Scalar>(used: Option<TextureUse<S>>) -> S {
    match used {
        Some(u) => u.scale,
        None => S::one_spec(),
    }
}

pub open spec fn material_is<S: Scalar>(r: ImportedMaterial<S>, d: ImportDocument<S>, i: int) -> bool {
    let m = d.materials@[i];
    &&& r.label@ == material_label_of(m, i)
    &&& r.key@ == material_key_of(d.path@, m, i)
    &&& r.base_color_factor == m.base_color_factor
    &&& r.metallic_factor == m.metallic_factor
    &&& r.roughness_factor == m.roughness_factor
    &&& r.emissive_factor == m.emissive_factor
    &&& binding_is(
        r.base_color_texture,
        d.path@,
        d.textures@,
        m.base_color_texture,
        true,
        S::one_spec(),
    )
    &&& binding_is(
        r.metallic_roughness_texture,
        d.path@,
        d.textures@,
        m.metallic_roughness_texture,
        false,
        S::one_spec(),
    )
    &&& binding_is(
        r.normal_texture,
        d.path@,
        d.textures@,
        m.normal_texture,
        false,
        normal_scale(m.normal_texture),
    )
    &&& binding_is(
        r.emissive_texture,
        d.path@,
        d.textures@,
        m.emissive_texture,
        true,
        S::one_spec(),
    )
    &&& r.source is Some && r.source->0@ == d.path@
}

/// The material of subsets that name none of the file's.
pub open spec fn default_material_is<S: Scalar>(r: ImportedMaterial<S>, path: Seq<char>) -> bool {
    let zero = S::zero_spec();
    let one = S::one_spec();
    &&& r.key@ == default_material_key_of(path)
    &&& r.label@ == "Default"@
    &&& r.base_color_factor == (Vec4 { x: one, y: one, z: one, w: one })
    &&& r.metallic_factor == zero
    &&& r.roughness_factor == one
    &&& r.emissive_factor == (Vec3 { x: zero, y: zero, z: zero })
    &&& r.base_color_texture is None
    &&& r.metallic_roughness_texture is None
    &&& r.normal_texture is None
    &&& r.emissive_texture is None
    &&& r.source is None
}

fn import_material<S: Scalar>(document: &ImportDocument<S>, i: usize) -> (r: ImportedMaterial<S>)
    requires
        i < document.materials@.len(),
    ensures
        material_is(r, *document, i as int),
{
    let m = &document.materials[i];
    let path = document.path.as_str();
    let label = match &m.name {
        Some(name) => name.as_str().to_owned(),
        None => {
            let made = join3("material_", to_decimal(i as u64).as_str(), "");
            proof {
                reveal_strlit("");
                assert(made@ =~= "material_"@ + crate::text::decimal(i as int));
            }
            made
        },
    };
    let scale = match m.normal_texture {
        Some(u) => u.scale,
        None => S::one(),
    };
    ImportedMaterial {
        key: join3(path, "::", label.as_str()),
        label,
        base_color_factor: m.base_color_factor,
        metallic_factor: m.metallic_factor,
        roughness_factor: m.roughness_factor,
        emissive_factor: m.emissive_factor,
        base_color_texture: bind_texture(document, m.base_color_texture, true, S::one()),
        metallic_roughness_texture: bind_texture(
            document,
            m.metallic_roughness_texture,
            false,
            S::one(),
        ),
        normal_texture: bind_texture(document, m.normal_texture, false, scale),
        emissive_texture: bind_texture(document, m.emissive_texture, true, S::one()),
        source: Some(path.to_owned()),
    }
}

pub fn default_material_key(path: &str) -> (r: String)
    ensures
        r@ == default_material_key_of(path@),
{
    proof {
        reveal_strlit("");
    }
    let key = join3(path, "::default", "");
    assert(key@ =~= default_material_key_of(path@));
    key
}

/// Whether one of the file's materials has the key of the default material.
pub open spec fn default_is_named<S>(d: ImportDocument<S>) -> bool {
    exists|i: int|
        0 <= i < d.materials@.len() && #[trigger] material_key_of(d.path@, d.materials@[i], i)
            == default_material_key_of(d.path@)
}

/// The materials of a file in its order, and the default material behind them unless one of them
/// has its key.
pub open spec fn materials_are<S: Scalar>(r: Seq<ImportedMaterial<S>>, d: ImportDocument<S>) -> bool {
    let n = d.materials@.len();
    &&& r.len() == (if default_is_named(d) {
        n
    } else {
        n + 1
    })
    &&& forall|i: int| 0 <= i < n ==> material_is(#[trigger] r[i], d, i)
    &&& !default_is_named(d) ==> default_material_is(r[n as int], d.path@)
}

pub fn import_materials<S: Scalar>(document: &ImportDocument<S>) -> (r: Vec<ImportedMaterial<S>>)
    ensures
        materials_are(r@, *document),
{
    let default_key = default_material_key(document.path.as_str());
    let mut named: bool = false;
    let mut materials: Vec<ImportedMaterial<S>> = Vec::new();
    let mut i: usize = 0;
    while i < document.materials.len()
        invariant
            i <= document.materials@.len(),
            materials@.len() == i,
            default_key@ == default_material_key_of(document.path@),
            forall|j: int| 0 <= j < i ==> material_is(#[trigger] materials@[j], *document, j),
            named == exists|j: int|
                0 <= j < i && #[trigger] material_key_of(
                    document.path@,
                    document.materials@[j],
                    j,
                ) == default_material_key_of(document.path@),
        decreases document.materials@.len() - i,
    {
        let material = import_material(document, i);
        if same_text(material.key.as_str(), default_key.as_str()) {
            named = true;
            assert(material_key_of(document.path@, document.materials@[i as int], i as int)
                == default_material_key_of(document.path@));
        }
        materials.push(material);
        i = i + 1;
    }
    if !named {
        let zero = S::zero();
        let one = S::one();
        materials.push(
            ImportedMaterial {
                key: default_key,
                label: "Default".to_owned(),
                base_color_factor: Vec4 { x: one, y: one, z: one, w: one },
                metallic_factor: zero,
                roughness_factor: one,
                emissive_factor: Vec3 { x: zero, y: zero, z: zero },
                base_color_texture: None,
                metallic_roughness_texture: None,
                normal_texture: None,
                emissive_texture: None,
                source: None,
            },
        );
    }
    materials
}

/// The key of the material of that number; the last one of it counts, and the default where there
/// is none.
pub open spec fn keyed_material<S>(d: ImportDocument<S>, index: Option<usize>, n: int) -> Seq<char>
    decreases n,
{
    if n <= 0 || index is None {
        default_material_key_of(d.path@)
    } else {
        let own = match d.materials@[n - 1].index {
            Some(i) => i as int,
            None => n - 1,
        };
        if own == index->0 {
            material_key_of(d.path@, d.materials@[n - 1], n - 1)
        } else {
            keyed_material(d, index, n - 1)
        }
    }
}

fn find_material_key<S>(
    document: &ImportDocument<S>,
    materials: &Vec<ImportedMaterial<S>>,
    index: Option<usize>,
) -> (r: String)
    requires
        materials@.len() >= document.materials@.len(),
        forall|i: int|
            0 <= i < document.materials@.len() ==> (#[trigger] materials@[i]).key@
                == material_key_of(document.path@, document.materials@[i], i),
    ensures
        r@ == keyed_material(*document, index, document.materials@.len() as int),
{
    match index {
        None => default_material_key(document.path.as_str()),
        Some(wanted) => {
            let mut n: usize = document.materials.len();
            while n > 0
                invariant
                    index == Some(wanted),
                    n <= document.materials@.len(),
                    materials@.len() >= document.materials@.len(),
                    forall|i: int|
                        0 <= i < document.materials@.len() ==> (#[trigger] materials@[i]).key@
                            == material_key_of(document.path@, document.materials@[i], i),
                    keyed_material(*document, index, document.materials@.len() as int)
                        == keyed_material(*document, index, n as int),
                decreases n,
            {
                let own: usize = match document.materials[n - 1].index {
                    Some(i) => i,
                    None => n - 1,
                };
                if own == wanted {
                    return materials[n - 1].key.as_str().to_owned();
                }
                n = n - 1;
            }
            default_material_key(document.path.as_str())
        },
    }
}

impl<S: Scalar> ImportPrimitive<S> {
    /// Only triangles with positions become part of a mesh.
    pub open spec fn used(self) -> bool {
        self.triangles && self.positions is Some && self.positions->0@.len() > 0
    }

    pub open spec fn lacks_positions(self) -> bool {
        self.triangles && self.positions is None
    }

    pub open spec fn point_count(self) -> nat {
        self.positions->0@.len()
    }

    /// The corners of the triangles; without a list the positions follow one another.
    pub open spec fn corners(self) -> Seq<u32> {
        match self.indices {
            Some(list) => list@,
            None => Seq::new(self.point_count(), |i: int| i as u32),
        }
    }

    /// Whether the file has a normal for every position and not all of them are zero.
    pub open spec fn has_normals(self) -> bool {
        &&& self.normals is Some
        &&& self.normals->0@.len() == self.point_count()
        &&& exists|i: int|
            0 <= i < self.normals->0@.len() && !(#[trigger] self.normals->0@[i]).dot_spec(
                self.normals->0@[i],
            ).same_spec(S::zero_spec())
    }

    /// The file's normals, or those that the triangles give.
    pub open spec fn normals_used(self) -> Seq<Vec3<S>> {
        if self.has_normals() {
            self.normals->0@
        } else {
            crate::mesh::normal_sums(
                self.positions->0@,
                self.corners(),
                self.corners().len() as int / 3,
            ).map_values(|sum: Vec3<S>| crate::mesh::settled_normal(sum))
        }
    }

    /// The `i`-th vertex; what the file does not say of it is zero.
    pub open spec fn vertex(self, i: int) -> MeshVertex<S> {
        let zero = S::zero_spec();
        MeshVertex {
            position: self.positions->0@[i],
            normal: self.normals_used()[i].unit_or_zero_spec(),
            tangent: Vec4 { x: S::one_spec(), y: zero, z: zero, w: S::one_spec() },
            uv: if self.tex_coords is Some && i < self.tex_coords->0@.len() {
                self.tex_coords->0@[i]
            } else {
                Vec2 { x: zero, y: zero }
            },
            joints: if self.joints is Some && i < self.joints->0@.len() {
                self.joints->0@[i]
            } else {
                [0, 0, 0, 0]
            },
            weights: if self.weights is Some && i < self.weights->0@.len() {
                self.weights->0@[i]
            } else {
                [zero, zero, zero, zero]
            },
        }
    }

    pub open spec fn own_vertices(self) -> Seq<MeshVertex<S>> {
        Seq::new(self.point_count(), |i: int| self.vertex(i))
    }

    /// The corners, counted from where the vertices of this part start.
    pub open spec fn shifted_corners(self, base: nat) -> Seq<u32> {
        self.corners().map_values(|c: u32| (c + base) as u32)
    }
}

/// The vertices and corners of the first `k` parts of a mesh.
pub open spec fn gathered<S: Scalar>(parts: Seq<ImportPrimitive<S>>, k: int) -> (
    Seq<MeshVertex<S>>,
    Seq<u32>,
)
    decreases k,
{
    if k <= 0 {
        (Seq::empty(), Seq::empty())
    } else {
        let (vertices, indices) = gathered(parts, k - 1);
        let part = parts[k - 1];
        if part.used() {
            (
                vertices + part.own_vertices(),
                indices + part.shifted_corners(vertices.len()),
            )
        } else {
            (vertices, indices)
        }
    }
}

/// Vertices and corners can be counted in 32 bits after the first `k` parts.
pub open spec fn countable<S: Scalar>(parts: Seq<ImportPrimitive<S>>, k: int) -> bool {
    let (vertices, indices) = gathered(parts, k);
    vertices.len() <= u32::MAX && indices.len() <= u32::MAX
}

/// The mesh fits its 32-bit indices.
pub open spec fn parts_fit<S: Scalar>(parts: Seq<ImportPrimitive<S>>) -> bool {
    &&& forall|k: int| 0 <= k <= parts.len() ==> #[trigger] countable(parts, k)
    &&& forall|k: int, i: int|
        0 <= k < parts.len() && parts[k].used() && 0 <= i < parts[k].corners().len() ==> (
        #[trigger] parts[k].corners()[i]) + gathered(parts, k).0.len() <= u32::MAX
}

/// Whether a mesh fits its 32-bit indices.
pub fn check_parts<S: Scalar>(parts: &Vec<ImportPrimitive<S>>) -> (r: bool)
    ensures
        r == parts_fit(parts@),
{
    let most: usize = 4294967295;
    let mut vertices: usize = 0;
    let mut corners: usize = 0;
    let mut k: usize = 0;
    assert(countable(parts@, 0));
    while k < parts.len()
        invariant
            most == u32::MAX,
            k <= parts@.len(),
            vertices == gathered(parts@, k as int).0.len(),
            corners == gathered(parts@, k as int).1.len(),
            forall|j: int| 0 <= j <= k ==> #[trigger] countable(parts@, j),
            forall|j: int, i: int|
                0 <= j < k && parts@[j].used() && 0 <= i < parts@[j].corners().len() ==> (
                #[trigger] parts@[j].corners()[i]) + gathered(parts@, j).0.len() <= u32::MAX,
        decreases parts@.len() - k,
    {
        let part = &parts[k];
        assert(countable(parts@, k as int));
        let count: usize = match &part.positions {
            Some(list) => list.len(),
            None => 0,
        };
        if part.triangles && count > 0 {
            let own: usize = match &part.indices {
                Some(list) => list.len(),
                None => count,
            };
            assert(own == part.corners().len());
            if count > most - vertices || own > most - corners {
                assert(!countable(parts@, k + 1));
                return false;
            }
            if let Some(list) = &part.indices {
                let mut i: usize = 0;
                while i < list.len()
                    invariant
                        most == u32::MAX,
                        vertices <= most,
                        k < parts@.len(),
                        *part == parts@[k as int],
                        part.used(),
                        part.indices == Some(*list),
                        i <= list@.len(),
                        vertices == gathered(parts@, k as int).0.len(),
                        forall|j: int|
                            0 <= j < i ==> (#[trigger] part.corners()[j]) + vertices <= u32::MAX,
                    decreases list@.len() - i,
                {
                    if list[i] as usize > most - vertices {
                        assert(parts@[k as int].corners()[i as int] + gathered(
                            parts@,
                            k as int,
                        ).0.len() > u32::MAX);
                        return false;
                    }
                    i = i + 1;
                }
            }
            vertices = vertices + count;
            corners = corners + own;
        }
        assert(countable(parts@, k + 1));
        k = k + 1;
    }
    true
}

/// The numbers of those of the first `k` parts that are used.
pub open spec fn used_parts<S: Scalar>(parts: Seq<ImportPrimitive<S>>, k: int) -> Seq<int>
    decreases k,
{
    if k <= 0 {
        Seq::empty()
    } else if parts[k - 1].used() {
        used_parts(parts, k - 1).push(k - 1)
    } else {
        used_parts(parts, k - 1)
    }
}

pub open spec fn subset_name<S>(mesh: ImportMesh<S>, k: int) -> Seq<char> {
    match mesh.name {
        Some(name) => name@ + "::"@ + crate::text::decimal(k),
        None => "primitive_"@ + crate::text::decimal(k),
    }
}

/// The subset that the `k`-th part of the mesh became.
pub open spec fn subset_is<S: Scalar>(
    r: MeshSubset,
    d: ImportDocument<S>,
    mesh: ImportMesh<S>,
    k: int,
) -> bool {
    let part = mesh.primitives@[k];
    &&& r.name is Some && r.name->0@ == subset_name(mesh, k)
    &&& r.index_offset == gathered(mesh.primitives@, k).1.len()
    &&& r.index_count == part.corners().len()
    &&& r.material is Some && r.material->0@ == keyed_material(
        d,
        part.material,
        d.materials@.len() as int,
    )
}

fn sequence_of_corners(n: usize) -> (r: Vec<u32>)
    requires
        n <= u32::MAX,
    ensures
        r@ == Seq::new(n as nat, |i: int| i as u32),
{
    let mut out: Vec<u32> = Vec::new();
    let mut i: usize = 0;
    while i < n
        invariant
            i <= n <= u32::MAX,
            out@ == Seq::new(i as nat, |j: int| j as u32),
        decreases n - i,
    {
        out.push(i as u32);
        i = i + 1;
        assert(out@ =~= Seq::new(i as nat, |j: int| j as u32));
    }
    out
}

fn copied_corners(list: &Vec<u32>) -> (r: Vec<u32>)
    ensures
        r@ == list@,
{
    let out = list.clone();
    assert(out@ =~= list@);
    out
}

fn any_normal<S: Scalar>(normals: &Vec<Vec3<S>>) -> (r: bool)
    ensures
        r == exists|i: int|
            0 <= i < normals@.len() && !(#[trigger] normals@[i]).dot_spec(normals@[i]).same_spec(
                S::zero_spec(),
            ),
{
    let mut i: usize = 0;
    while i < normals.len()
        invariant
            i <= normals@.len(),
            forall|j: int|
                0 <= j < i ==> (#[trigger] normals@[j]).dot_spec(normals@[j]).same_spec(
                    S::zero_spec(),
                ),
        decreases normals@.len() - i,
    {
        if !normals[i].dot(normals[i]).same(S::zero()) {
            return true;
        }
        i = i + 1;
    }
    false
}

impl<S: Scalar> ImportPrimitive<S> {
    fn normals_given(&self) -> (r: bool)
        requires
            self.used(),
        ensures
            r == self.has_normals(),
    {
        match (&self.normals, &self.positions) {
            (Some(normals), Some(positions)) => normals.len() == positions.len() && any_normal(
                normals,
            ),
            _ => false,
        }
    }

    fn make_vertex(&self, i: usize, position: Vec3<S>, normal: Vec3<S>) -> (r: MeshVertex<S>)
        requires
            self.used(),
            i < self.point_count(),
            position == self.positions->0@[i as int],
            normal == self.normals_used()[i as int],
        ensures
            r == self.vertex(i as int),
    {
        let zero = S::zero();
        let mut uv = Vec2 { x: zero, y: zero };
        if let Some(list) = &self.tex_coords {
            if i < list.len() {
                uv = list[i];
            }
        }
        let mut joints: [u16; 4] = [0, 0, 0, 0];
        if let Some(list) = &self.joints {
            if i < list.len() {
                joints = list[i];
            }
        }
        let mut weights: [S; 4] = [zero, zero, zero, zero];
        if let Some(list) = &self.weights {
            if i < list.len() {
                weights = list[i];
            }
        }
        MeshVertex {
            position,
            normal: normal.unit_or_zero(),
            tangent: Vec4 { x: S::one(), y: zero, z: zero, w: S::one() },
            uv,
            joints,
            weights,
        }
    }

    fn add_vertices(&self, corners: &Vec<u32>, vertices: &mut Vec<MeshVertex<S>>)
        requires
            self.used(),
            corners@ == self.corners(),
        ensures
            final(vertices)@ == old(vertices)@ + self.own_vertices(),
    {
        if let Some(positions) = &self.positions {
            let given = self.normals_given();
            let made: Vec<Vec3<S>> = if given {
                Vec::new()
            } else {
                compute_normals(positions, corners)
            };
            proof {
                crate::mesh::lemma_normal_sums_len(
                    positions@,
                    corners@,
                    corners@.len() as int / 3,
                );
            }
            let mut i: usize = 0;
            while i < positions.len()
                invariant
                    self.used(),
                    self.positions == Some(*positions),
                    i <= positions@.len(),
                    given == self.has_normals(),
                    given || (made@ == self.normals_used() && made@.len() == positions@.len()),
                    vertices@ == old(vertices)@ + self.own_vertices().take(i as int),
                decreases positions@.len() - i,
            {
                let normal = match &self.normals {
                    Some(list) if given => list[i],
                    _ => made[i],
                };
                vertices.push(self.make_vertex(i, positions[i], normal));
                proof {
                    assert(self.own_vertices().take(i + 1) =~= self.own_vertices().take(
                        i as int,
                    ).push(self.vertex(i as int)));
                    assert(vertices@ =~= old(vertices)@ + self.own_vertices().take(i + 1));
                }
                i = i + 1;
            }
            assert(self.own_vertices().take(i as int) =~= self.own_vertices());
        }
    }
}

fn add_corners(corners: &Vec<u32>, base: u32, indices: &mut Vec<u32>)
    requires
        forall|i: int| 0 <= i < corners@.len() ==> (#[trigger] corners@[i]) + base <= u32::MAX,
    ensures
        final(indices)@ == old(indices)@ + corners@.map_values(|c: u32| (c + base) as u32),
{
    let ghost shifted = corners@.map_values(|c: u32| (c + base) as u32);
    let mut i: usize = 0;
    while i < corners.len()
        invariant
            i <= corners@.len(),
            forall|j: int| 0 <= j < corners@.len() ==> (#[trigger] corners@[j]) + base <= u32::MAX,
            shifted == corners@.map_values(|c: u32| (c + base) as u32),
            indices@ == old(indices)@ + shifted.take(i as int),
        decreases corners@.len() - i,
    {
        indices.push(corners[i] + base);
        proof {
            assert(shifted.take(i + 1) =~= shifted.take(i as int).push(shifted[i as int]));
            assert(indices@ =~= old(indices)@ + shifted.take(i + 1));
        }
        i = i + 1;
    }
    assert(shifted.take(i as int) =~= shifted);
}

fn make_subset_name<S>(mesh: &ImportMesh<S>, k: usize) -> (r: String)
    ensures
        r@ == subset_name(*mesh, k as int),
{
    let number = to_decimal(k as u64);
    match &mesh.name {
        Some(name) => join3(name.as_str(), "::", number.as_str()),
        None => {
            let made = join3("primitive_", number.as_str(), "");
            proof {
                reveal_strlit("");
                assert(made@ =~= "primitive_"@ + number@);
            }
            made
        },
    }
}

/// The parts of a mesh put together, before tangents.
pub struct Gathered<S> {
    pub vertices: Vec<MeshVertex<S>>,
    pub indices: Vec<u32>,
    pub subsets: Vec<MeshSubset>,
}

impl<S: Scalar> Gathered<S> {
    /// What the first `k` parts give.
    pub open spec fn is_of(self, d: ImportDocument<S>, mesh: ImportMesh<S>, k: int) -> bool {
        let used = used_parts(mesh.primitives@, k);
        &&& (self.vertices@, self.indices@) == gathered(mesh.primitives@, k)
        &&& self.subsets@.len() == used.len()
        &&& forall|m: int|
            0 <= m < used.len() ==> subset_is(#[trigger] self.subsets@[m], d, mesh, used[m])
    }

    fn add_part(
        &mut self,
        document: &ImportDocument<S>,
        mesh: &ImportMesh<S>,
        materials: &Vec<ImportedMaterial<S>>,
        k: usize,
    )
        requires
            k < mesh.primitives@.len(),
            mesh.primitives@[k as int].used(),
            parts_fit(mesh.primitives@),
            old(self).is_of(*document, *mesh, k as int),
            materials@.len() >= document.materials@.len(),
            forall|i: int|
                0 <= i < document.materials@.len() ==> (#[trigger] materials@[i]).key@
                    == material_key_of(document.path@, document.materials@[i], i),
        ensures
            final(self).is_of(*document, *mesh, k + 1),
    {
        let part = &mesh.primitives[k];
        proof {
            assert(countable(mesh.primitives@, k as int));
            assert(countable(mesh.primitives@, k + 1));
            assert(part.own_vertices().len() == part.point_count());
        }
        let points: usize = match &part.positions {
            Some(list) => list.len(),
            None => 0,
        };
        let corners = match &part.indices {
            Some(list) => copied_corners(list),
            None => sequence_of_corners(points),
        };
        assert(corners@ =~= part.corners());
        let base: u32 = self.vertices.len() as u32;
        let index_offset: u32 = self.indices.len() as u32;
        proof {
            assert forall|i: int| 0 <= i < corners@.len() implies (#[trigger] corners@[i]) + base
                <= u32::MAX by {
                assert(mesh.primitives@[k as int].corners()[i] == corners@[i]);
            }
            assert(part.shifted_corners(base as nat) =~= corners@.map_values(
                |c: u32| (c + base) as u32,
            ));
            assert(part.shifted_corners(base as nat).len() == corners@.len());
        }
        part.add_vertices(&corners, &mut self.vertices);
        add_corners(&corners, base, &mut self.indices);
        let subset = MeshSubset {
            name: Some(make_subset_name(mesh, k)),
            index_offset,
            index_count: corners.len() as u32,
            material: Some(find_material_key(document, materials, part.material)),
        };
        self.subsets.push(subset);
    }
}

/// Puts the parts of a mesh together, in order.
fn gather_parts<S: Scalar>(
    document: &ImportDocument<S>,
    mesh: &ImportMesh<S>,
    materials: &Vec<ImportedMaterial<S>>,
) -> (r: Result<Gathered<S>, ImportError>)
    requires
        parts_fit(mesh.primitives@),
        materials@.len() >= document.materials@.len(),
        forall|i: int|
            0 <= i < document.materials@.len() ==> (#[trigger] materials@[i]).key@
                == material_key_of(document.path@, document.materials@[i], i),
    ensures
        match r {
            Ok(g) => {
                &&& forall|k: int|
                    0 <= k < mesh.primitives@.len() ==> !(
                    #[trigger] mesh.primitives@[k]).lacks_positions()
                &&& g.is_of(*document, *mesh, mesh.primitives@.len() as int)
            },
            Err(e) => e is PositionsMissing && exists|k: int|
                0 <= k < mesh.primitives@.len() && (
                #[trigger] mesh.primitives@[k]).lacks_positions(),
        },
{
    let mut g = Gathered {
        vertices: Vec::new(),
        indices: Vec::new(),
        subsets: Vec::new(),
    };
    let mut k: usize = 0;
    while k < mesh.primitives.len()
        invariant
            k <= mesh.primitives@.len(),
            parts_fit(mesh.primitives@),
            materials@.len() >= document.materials@.len(),
            forall|i: int|
                0 <= i < document.materials@.len() ==> (#[trigger] materials@[i]).key@
                    == material_key_of(document.path@, document.materials@[i], i),
            forall|j: int| 0 <= j < k ==> !(#[trigger] mesh.primitives@[j]).lacks_positions(),
            g.is_of(*document, *mesh, k as int),
        decreases mesh.primitives@.len() - k,
    {
        let part = &mesh.primitives[k];
        if part.triangles {
            match &part.positions {
                None => {
                    assert(mesh.primitives@[k as int].lacks_positions());
                    return Err(ImportError::PositionsMissing);
                },
                Some(list) => {
                    if list.len() > 0 {
                        g.add_part(document, mesh, materials, k);
                    }
                },
            }
        }
        k = k + 1;
    }
    Ok(g)
}

/// What a file whose mesh can be had becomes.
pub open spec fn import_is<S: Scalar>(r: MeshImport<S>, d: ImportDocument<S>, mesh: ImportMesh<S>) -> bool {
    let n = mesh.primitives@.len() as int;
    let (vertices, indices) = gathered(mesh.primitives@, n);
    let used = used_parts(mesh.primitives@, n);
    &&& r.mesh.vertices@ == crate::mesh::with_tangents(vertices, indices)
    &&& r.mesh.indices@ == indices
    &&& r.mesh.bounds == crate::mesh::bounds_of(r.mesh.vertices@)
    &&& r.mesh.subsets@.len() == used.len()
    &&& forall|m: int|
        0 <= m < used.len() ==> subset_is(#[trigger] r.mesh.subsets@[m], d, mesh, used[m])
    &&& materials_are(r.materials@, d)
    &&& r.textures@.len() == d.textures@.len()
    &&& forall|i: int|
        0 <= i < d.textures@.len() ==> texture_is(#[trigger] r.textures@[i], d, i)
}

/// Why a file gives no mesh, if so; the first reason counts.
pub open spec fn import_error<S: Scalar>(d: ImportDocument<S>, e: ImportError) -> bool {
    if d.mesh is None {
        e is NoMeshes
    } else if !textures_ready(d, d.textures@.len() as int) {
        exists|i: int|
            0 <= i < d.textures@.len() && textures_ready(d, i) && #[trigger] texture_error(d, i)
                == Some(e)
    } else if exists|k: int|
        0 <= k < d.mesh->0.primitives@.len() && (
        #[trigger] d.mesh->0.primitives@[k]).lacks_positions() {
        e is PositionsMissing
    } else {
        e is NoTriangles && used_parts(
            d.mesh->0.primitives@,
            d.mesh->0.primitives@.len() as int,
        ).len() == 0
    }
}

/// Whether a file gives a mesh.
pub open spec fn importable<S: Scalar>(d: ImportDocument<S>) -> bool {
    &&& d.mesh is Some
    &&& textures_ready(d, d.textures@.len() as int)
    &&& forall|k: int|
        0 <= k < d.mesh->0.primitives@.len() ==> !(
        #[trigger] d.mesh->0.primitives@[k]).lacks_positions()
    &&& used_parts(d.mesh->0.primitives@, d.mesh->0.primitives@.len() as int).len() > 0
}

/// Makes a mesh, its materials and its textures of a model file.
pub fn load_gltf_with_materials<S: Scalar>(document: &ImportDocument<S>) -> (r: Result<
    MeshImport<S>,
    ImportError,
>)
    requires
        document.mesh is Some ==> parts_fit(document.mesh->0.primitives@),
    ensures
        match r {
            Ok(import) => importable(*document) && import_is(import, *document, document.mesh->0),
            Err(e) => !importable(*document) && import_error(*document, e),
        },
{
    let mesh = match &document.mesh {
        Some(mesh) => mesh,
        None => {
            return Err(ImportError::NoMeshes);
        },
    };
    let textures = match import_textures(document) {
        Ok(textures) => textures,
        Err(e) => {
            return Err(e);
        },
    };
    let materials = import_materials(document);
    match gather_parts(document, mesh, &materials) {
        Err(e) => Err(e),
        Ok(g) => {
            let Gathered { vertices, indices, subsets } = g;
            if subsets.len() == 0 {
                return Err(ImportError::NoTriangles);
            }
            let mut vertices = vertices;
            compute_tangents(&mut vertices, &indices);
            let bounds = MeshBounds::from_vertices(&vertices);
            Ok(
                MeshImport {
                    mesh: Mesh { vertices, indices, subsets, bounds },
                    materials,
                    textures,
                },
            )
        },
    }
}

/// The subsets of a mesh cover its corners without a gap: every one starts where the one before
/// it ends, the first at the start and the last ends at the end.
pub proof fn law_subsets_cover_the_corners<S: Scalar>(
    d: ImportDocument<S>,
    mesh: ImportMesh<S>,
    subsets: Seq<MeshSubset>,
    k: int,
)
    requires
        0 <= k <= mesh.primitives@.len(),
        subsets.len() == used_parts(mesh.primitives@, k).len(),
        forall|m: int|
            0 <= m < subsets.len() ==> subset_is(
                #[trigger] subsets[m],
                d,
                mesh,
                used_parts(mesh.primitives@, k)[m],
            ),
    ensures
        subsets.len() > 0 ==> subsets[0].index_offset == 0,
        forall|m: int|
            0 < m < subsets.len() ==> (#[trigger] subsets[m]).index_offset == subsets[m
                - 1].index_offset + subsets[m - 1].index_count,
        gathered(mesh.primitives@, k).1.len() == (if subsets.len() == 0 {
            0
        } else {
            subsets.last().index_offset + subsets.last().index_count
        }),
    decreases k,
{
    let parts = mesh.primitives@;
    let used = used_parts(parts, k);
    if k > 0 {
        if parts[k - 1].used() {
            let before = used_parts(parts, k - 1);
            let firsts = subsets.drop_last();
            assert forall|m: int| 0 <= m < firsts.len() implies subset_is(
                #[trigger] firsts[m],
                d,
                mesh,
                before[m],
            ) by {
                assert(subset_is(subsets[m], d, mesh, used[m]));
                assert(used[m] == before[m]);
            }
            law_subsets_cover_the_corners(d, mesh, firsts, k - 1);
            assert(subset_is(subsets[subsets.len() - 1], d, mesh, used[subsets.len() - 1]));
            assert(used[subsets.len() - 1] == k - 1);
            assert forall|m: int| 0 < m < subsets.len() implies (#[trigger] subsets[m]).index_offset
                == subsets[m - 1].index_offset + subsets[m - 1].index_count by {
                if m < firsts.len() {
                    assert(firsts[m] == subsets[m] && firsts[m - 1] == subsets[m - 1]);
                } else {
                    assert(firsts.last() == subsets[m - 1]);
                }
            }
            if firsts.len() > 0 {
                assert(firsts[0] == subsets[0]);
            }
        } else {
            law_subsets_cover_the_corners(d, mesh, subsets, k - 1);
        }
    }
}

} // verus!
