use kestrel_engine::material_registry::{
    padded_bytes_per_row, prepare_texture_upload, GpuNeed, MaterialError, MaterialRegistry,
};
use kestrel_engine::mesh::{compute_normals, Mesh, MeshBounds};
use kestrel_engine::mesh_import::{
    check_parts, convert_image_to_rgba, load_gltf_with_materials, ImageFormat, ImportDocument, ImportError,
    ImportImage, ImportMaterial, ImportMesh, ImportPrimitive, ImportTexture, MeshImport,
    TextureUse,
};
use kestrel_engine::mesh_registry::{MeshError, MeshRegistry, MeshStep};
use kestrel_engine::preview_assets::{first_material, PreviewAssets, PreviewError};
use kestrel_engine::scalar::Scalar;
use kestrel_engine::text_map::TextMap;
use kestrel_engine::vectors::{Vec2, Vec3, Vec4};

/// A number as the engine computes with it.
#[derive(Clone, Copy, Debug, PartialEq)]
struct Num(f32);

impl Scalar for Num {
    fn zero() -> Self {
        Num(0.0)
    }
    fn one() -> Self {
        Num(1.0)
    }
    fn clip_epsilon() -> Self {
        Num(1e-5)
    }
    fn machine_epsilon() -> Self {
        Num(f32::EPSILON)
    }
    fn from_count(count: usize) -> Self {
        Num(count as f32)
    }
    fn plus(self, rhs: Self) -> Self {
        Num(self.0 + rhs.0)
    }
    fn minus(self, rhs: Self) -> Self {
        Num(self.0 - rhs.0)
    }
    fn times(self, rhs: Self) -> Self {
        Num(self.0 * rhs.0)
    }
    fn over(self, rhs: Self) -> Self {
        Num(self.0 / rhs.0)
    }
    fn negated(self) -> Self {
        Num(-self.0)
    }
    fn rem_euclid_by(self, rhs: Self) -> Self {
        Num(self.0.rem_euclid(rhs.0))
    }
    fn floored(self) -> Self {
        Num(self.0.floor())
    }
    fn floor_count(self) -> u64 {
        self.0.floor() as u64
    }
    fn floor_steps(self) -> i32 {
        self.0.floor() as i32
    }
    fn ceil_steps(self) -> i32 {
        self.0.ceil() as i32
    }
    fn from_steps(steps: i32) -> Self {
        Num(steps as f32)
    }
    fn to_fixed(self) -> u32 {
        (self.0 * 65536.0).round() as u32
    }
    fn from_fixed(value: u32) -> Self {
        Num(value as f32 / 65536.0)
    }
    fn lt(self, rhs: Self) -> bool {
        self.0 < rhs.0
    }
    fn le(self, rhs: Self) -> bool {
        self.0 <= rhs.0
    }
    fn same(self, rhs: Self) -> bool {
        self.0 == rhs.0
    }
    fn finite(self) -> bool {
        self.0.is_finite()
    }
    fn nan(self) -> bool {
        self.0.is_nan()
    }
    fn larger(self, rhs: Self) -> Self {
        Num(self.0.max(rhs.0))
    }
    fn smaller(self, rhs: Self) -> Self {
        Num(self.0.min(rhs.0))
    }
    fn magnitude(self) -> Self {
        Num(self.0.abs())
    }
    fn rounded(self) -> Self {
        Num(self.0.round())
    }
    fn sign(self) -> Self {
        Num(self.0.signum())
    }
    fn root(self) -> Self {
        Num(self.0.sqrt())
    }
    fn topmost() -> Self {
        Num(f32::INFINITY)
    }
    fn zero_spec() -> Self {
        Self::zero()
    }
    fn one_spec() -> Self {
        Self::one()
    }
    fn clip_epsilon_spec() -> Self {
        Self::clip_epsilon()
    }
    fn machine_epsilon_spec() -> Self {
        Self::machine_epsilon()
    }
    fn from_count_spec(count: usize) -> Self {
        Self::from_count(count)
    }
    fn plus_spec(self, rhs: Self) -> Self {
        self.plus(rhs)
    }
    fn minus_spec(self, rhs: Self) -> Self {
        self.minus(rhs)
    }
    fn times_spec(self, rhs: Self) -> Self {
        self.times(rhs)
    }
    fn over_spec(self, rhs: Self) -> Self {
        self.over(rhs)
    }
    fn negated_spec(self) -> Self {
        self.negated()
    }
    fn rem_euclid_by_spec(self, rhs: Self) -> Self {
        self.rem_euclid_by(rhs)
    }
    fn floored_spec(self) -> Self {
        self.floored()
    }
    fn floor_count_spec(self) -> u64 {
        self.floor_count()
    }
    fn floor_steps_spec(self) -> i32 {
        self.floor_steps()
    }
    fn ceil_steps_spec(self) -> i32 {
        self.ceil_steps()
    }
    fn from_steps_spec(steps: i32) -> Self {
        Self::from_steps(steps)
    }
    fn to_fixed_spec(self) -> u32 {
        self.to_fixed()
    }
    fn from_fixed_spec(value: u32) -> Self {
        Self::from_fixed(value)
    }
    fn lt_spec(self, rhs: Self) -> bool {
        self.lt(rhs)
    }
    fn le_spec(self, rhs: Self) -> bool {
        self.le(rhs)
    }
    fn same_spec(self, rhs: Self) -> bool {
        self.same(rhs)
    }
    fn finite_spec(self) -> bool {
        self.finite()
    }
    fn nan_spec(self) -> bool {
        self.nan()
    }
    fn larger_spec(self, rhs: Self) -> Self {
        self.larger(rhs)
    }
    fn smaller_spec(self, rhs: Self) -> Self {
        self.smaller(rhs)
    }
    fn magnitude_spec(self) -> Self {
        self.magnitude()
    }
    fn rounded_spec(self) -> Self {
        self.rounded()
    }
    fn sign_spec(self) -> Self {
        self.sign()
    }
    fn root_spec(self) -> Self {
        self.root()
    }
    fn topmost_spec() -> Self {
        Self::topmost()
    }
}

type Meshes = MeshRegistry<Num, u32>;
type Materials = MaterialRegistry<Num, u32, u32>;

fn v2(x: f32, y: f32) -> Vec2<Num> {
    Vec2 { x: Num(x), y: Num(y) }
}

fn v3(x: f32, y: f32, z: f32) -> Vec3<Num> {
    Vec3 { x: Num(x), y: Num(y), z: Num(z) }
}

fn v4(x: f32, y: f32, z: f32, w: f32) -> Vec4<Num> {
    Vec4 { x: Num(x), y: Num(y), z: Num(z), w: Num(w) }
}

/// A triangle in the plane with one material.
fn demo_document() -> ImportDocument<Num> {
    ImportDocument {
        path: "assets/models/demo_triangle.gltf".to_string(),
        mesh: Some(ImportMesh {
            name: Some("Triangle".to_string()),
            primitives: vec![ImportPrimitive {
                triangles: true,
                positions: Some(vec![v3(0.0, 0.0, 0.0), v3(1.0, 0.0, 0.0), v3(0.0, 1.0, 0.0)]),
                normals: None,
                tex_coords: Some(vec![v2(0.0, 0.0), v2(1.0, 0.0), v2(0.0, 1.0)]),
                joints: None,
                weights: None,
                indices: Some(vec![0, 1, 2]),
                material: Some(0),
            }],
        }),
        textures: vec![ImportTexture { index: 0, image: 0 }],
        images: vec![ImportImage {
            width: 1,
            height: 1,
            format: ImageFormat::R8G8B8,
            pixels: vec![10, 20, 30],
        }],
        materials: vec![ImportMaterial {
            name: Some("Paint".to_string()),
            index: Some(0),
            base_color_factor: v4(1.0, 1.0, 1.0, 1.0),
            metallic_factor: Num(0.0),
            roughness_factor: Num(1.0),
            emissive_factor: v3(0.0, 0.0, 0.0),
            base_color_texture: Some(TextureUse { texture: 0, tex_coord: 0, scale: Num(1.0) }),
            metallic_roughness_texture: None,
            normal_texture: None,
            emissive_texture: None,
        }],
    }
}

fn demo_import() -> MeshImport<Num> {
    load_gltf_with_materials(&demo_document()).ok().expect("demo gltf should load")
}

fn registries() -> (Meshes, Materials) {
    let mut materials = Materials::new();
    let demo = Some((demo_import(), "assets/models/demo_triangle.gltf".to_string()));
    let registry = Meshes::new(demo, &mut materials);
    (registry, materials)
}

fn retain_mesh(registry: &mut Meshes, key: &str, path: Option<&str>) {
    match registry.ensure_mesh(key, path) {
        MeshStep::Ready => registry.retain_ready(key),
        _ => panic!("the mesh should be there"),
    }
}

#[test]
fn load_demo_gltf_mesh() {
    let mesh = demo_import().mesh;
    assert_eq!(mesh.vertices.len(), 3);
    assert_eq!(mesh.indices, vec![0, 1, 2]);
    assert_eq!(mesh.subsets.len(), 1);
    assert_eq!(mesh.subsets[0].index_offset, 0);
    assert_eq!(mesh.subsets[0].index_count, 3);
    for vertex in &mesh.vertices {
        let n = vertex.normal;
        let off = n.x.0 * n.x.0 + n.y.0 * n.y.0 + (n.z.0 - 1.0) * (n.z.0 - 1.0);
        assert!(off < 1e-4);
        assert!(vertex.uv.x.0 >= 0.0 && vertex.uv.x.0 <= 1.0);
        assert!(vertex.uv.y.0 >= 0.0 && vertex.uv.y.0 <= 1.0);
        let t = vertex.tangent;
        assert!(t.x.0 * t.x.0 + t.y.0 * t.y.0 + t.z.0 * t.z.0 > 0.0);
    }
}

#[test]
fn retain_release_tracks_counts() {
    let (mut registry, mut materials) = registries();
    assert_eq!(registry.mesh_ref_count("cube"), Some(0));
    retain_mesh(&mut registry, "cube", None);
    assert_eq!(registry.mesh_ref_count("cube"), Some(1));
    registry.release_mesh("cube", &mut materials);
    assert_eq!(registry.mesh_ref_count("cube"), Some(0));

    registry
        .load_from_path("temp_triangle", &demo_document(), &mut materials)
        .ok()
        .expect("load temp mesh");
    retain_mesh(&mut registry, "temp_triangle", Some("assets/models/demo_triangle.gltf"));
    assert_eq!(registry.mesh_ref_count("temp_triangle"), Some(1));
    registry.release_mesh("temp_triangle", &mut materials);
    assert!(!registry.has("temp_triangle"), "non-permanent mesh should be removed at refcount 0");
}

#[test]
fn ensure_mesh_source_updates_revision() {
    let (mut registry, _materials) = registries();
    let before = registry.version();
    assert!(matches!(
        registry.ensure_mesh("cube", Some("assets/models/cube.gltf")),
        MeshStep::Ready
    ));
    assert!(registry.version() > before, "revision should bump when source is recorded");
    let recorded = registry.mesh_source("cube").expect("cube should have a source set");
    assert!(recorded.ends_with("assets/models/cube.gltf"));
}

#[test]
fn duplicate_mesh_key_is_rejected() {
    let (mut registry, mut materials) = registries();
    registry
        .load_from_path("temp_triangle", &demo_document(), &mut materials)
        .ok()
        .expect("first load ok");
    let err = registry
        .load_from_path("temp_triangle", &demo_document(), &mut materials)
        .err()
        .expect("duplicate load should fail");
    let message = err.message("assets/models/demo_triangle.gltf");
    assert!(message.contains("already registered"), "unexpected error: {message}");
}

fn subset_materials(registry: &Meshes, materials: &Materials) -> Vec<String> {
    let keys: Vec<String> = registry
        .mesh_subsets("temp_triangle")
        .unwrap()
        .iter()
        .filter_map(|subset| subset.material.clone())
        .collect();
    assert!(!keys.is_empty(), "import should register materials");
    for key in &keys {
        assert!(materials.has(key), "material '{key}' should exist after import");
    }
    keys
}

#[test]
fn release_without_retain_cleans_mesh_and_materials() {
    let (mut registry, mut materials) = registries();
    registry
        .load_from_path("temp_triangle", &demo_document(), &mut materials)
        .ok()
        .expect("load temp mesh");
    let keys = subset_materials(&registry, &materials);
    registry.release_mesh("temp_triangle", &mut materials);
    assert!(!registry.has("temp_triangle"), "mesh should be removed even without prior retain");
    for key in keys {
        assert!(
            !materials.has(&key),
            "material '{key}' should be released when mesh is dropped without references"
        );
    }
}

#[test]
fn releasing_mesh_cleans_imported_materials() {
    let (mut registry, mut materials) = registries();
    registry
        .load_from_path("temp_triangle", &demo_document(), &mut materials)
        .ok()
        .expect("load temp mesh");
    let keys = subset_materials(&registry, &materials);
    retain_mesh(&mut registry, "temp_triangle", Some("assets/models/demo_triangle.gltf"));
    registry.release_mesh("temp_triangle", &mut materials);
    for key in keys {
        assert!(!materials.has(&key), "material '{key}' should be released with mesh");
    }
    assert!(!registry.has("temp_triangle"));
}

#[test]
fn cubes_have_six_sides() {
    let cube: Mesh<Num> = Mesh::cube(Num(2.0));
    assert_eq!(cube.vertices.len(), 24);
    assert_eq!(cube.indices.len(), 36);
    assert_eq!(cube.bounds.min.x, Num(-1.0));
    assert_eq!(cube.bounds.max.z, Num(1.0));
    assert!((cube.bounds.radius.0 - 3.0_f32.sqrt()).abs() < 1e-5);
    assert!(cube.indices.iter().all(|i| (*i as usize) < cube.vertices.len()));
}

#[test]
fn a_mesh_without_corners_has_no_extent() {
    let bounds: MeshBounds<Num> = MeshBounds::from_vertices(&vec![]);
    assert_eq!(bounds.radius, Num(0.0));
    assert_eq!(bounds.min.x, Num(0.0));
}

#[test]
fn normals_follow_the_triangles() {
    let positions = vec![v3(0.0, 0.0, 0.0), v3(0.0, 1.0, 0.0), v3(1.0, 0.0, 0.0)];
    let normals = compute_normals(&positions, &vec![0, 1, 2]);
    assert_eq!(normals.len(), 3);
    assert_eq!(normals[0].z, Num(-1.0));
}

#[test]
fn images_get_four_channels() {
    let rgb = convert_image_to_rgba(ImageFormat::R8G8B8, &vec![1, 2, 3, 4, 5, 6]).ok().unwrap();
    assert_eq!(rgb, vec![1, 2, 3, 255, 4, 5, 6, 255]);
    let grey = convert_image_to_rgba(ImageFormat::R8, &vec![9]).ok().unwrap();
    assert_eq!(grey, vec![9, 9, 9, 255]);
    let err = convert_image_to_rgba(ImageFormat::R16, &vec![0, 0]).err().unwrap();
    assert!(matches!(err, ImportError::UnsupportedImage { format: ImageFormat::R16 }));
    assert!(err.message("a.gltf").contains("R16"));
}

#[test]
fn documents_without_meshes_are_errors() {
    let mut document = demo_document();
    document.mesh = None;
    let err = load_gltf_with_materials(&document).err().unwrap();
    assert_eq!(err.message("x.gltf"), "No meshes found in x.gltf");

    let mut document = demo_document();
    document.mesh.as_mut().unwrap().primitives[0].triangles = false;
    assert!(matches!(load_gltf_with_materials(&document).err(), Some(ImportError::NoTriangles)));

    let mut document = demo_document();
    document.mesh.as_mut().unwrap().primitives[0].positions = None;
    assert!(matches!(
        load_gltf_with_materials(&document).err(),
        Some(ImportError::PositionsMissing)
    ));

    let mut document = demo_document();
    document.images.clear();
    assert!(matches!(
        load_gltf_with_materials(&document).err(),
        Some(ImportError::ImageMissing { index: 0 })
    ));
}

#[test]
fn materials_are_counted() {
    let mut materials = Materials::new();
    let key = materials.default_key().to_string();
    assert!(materials.has(&key));
    materials.retain(&key).ok().unwrap();
    materials.release(&key);
    assert!(materials.has(&key), "the default material is there for good");
    let err = materials.retain("nothing").err().unwrap();
    assert_eq!(err.message(), "Material 'nothing' not registered");
    assert_eq!(
        MaterialError::TextureNotRegistered { key: "t".to_string() }.message(),
        "Texture 't' not registered for materials"
    );
}

#[test]
fn imports_can_be_taken_back() {
    let mut materials = Materials::new();
    let before = materials.keys().len();
    let MeshImport { materials: imported, textures, .. } = demo_import();
    let key = imported[0].key.clone();
    let snapshot = materials.register_gltf_import_with_snapshot(imported, textures);
    assert!(materials.has(&key));
    snapshot.rollback(&mut materials);
    assert!(!materials.has(&key));
    assert_eq!(materials.keys().len(), before);
}

#[test]
fn uploads_are_asked_for_once() {
    let mut materials = Materials::new();
    let key = materials.default_key().to_string();
    assert!(matches!(materials.material_need(&key), GpuNeed::Upload));
    materials.store_material_gpu(&key, 4);
    assert!(matches!(materials.material_need(&key), GpuNeed::Ready));
    assert!(matches!(materials.material_need("nothing"), GpuNeed::Missing));
    assert!(matches!(materials.texture_need("nothing", true), GpuNeed::Missing));
}

#[test]
fn rows_of_textures_are_padded() {
    assert_eq!(padded_bytes_per_row(1), 256);
    assert_eq!(padded_bytes_per_row(64), 256);
    assert_eq!(padded_bytes_per_row(65), 512);
    let mut scratch = Vec::new();
    let (padded, bytes) = prepare_texture_upload(&vec![7; 8], 1, 2, &mut scratch);
    assert!(padded);
    assert_eq!(bytes, 256);
    assert_eq!(scratch.len(), 512);
    assert_eq!(&scratch[0..5], &[7, 7, 7, 7, 0]);
    assert_eq!(&scratch[256..260], &[7, 7, 7, 7]);
}

#[test]
fn the_preview_keeps_what_it_shows() {
    let (mut registry, mut materials) = registries();
    registry.load_from_path("temp", &demo_document(), &mut materials).ok().unwrap();
    let material = first_material(registry.mesh_subsets("temp").unwrap()).unwrap();
    let mut preview = PreviewAssets::new();
    preview.preview_mesh_key = "cube".to_string();
    preview.ensure_preview_assets(&mut registry, &mut materials).ok().unwrap();
    assert_eq!(registry.mesh_ref_count("cube"), Some(1));
    let used = materials.ref_count(&material).unwrap();

    let none = TextMap::new();
    assert!(preview.set_preview_mesh(&mut registry, &mut materials, &none, "temp".to_string()));
    assert_eq!(registry.mesh_ref_count("cube"), Some(0));
    assert_eq!(registry.mesh_ref_count("temp"), Some(1));
    assert_eq!(materials.ref_count(&material), Some(used + 1));
    assert_eq!(preview.mesh_status(), Some("Preview mesh: temp"));

    assert!(!preview.set_preview_mesh(&mut registry, &mut materials, &none, "temp".to_string()));
    assert!(!preview.set_preview_mesh(&mut registry, &mut materials, &none, "gone".to_string()));
    assert_eq!(
        preview.mesh_status(),
        Some("Mesh 'gone' unavailable: Mesh 'gone' not registered and no path provided")
    );

    preview.shutdown(&mut registry, &mut materials);
    assert!(!registry.has("temp"));
    assert_eq!(preview.persistent_meshes.len(), 0);
    assert!(matches!(
        preview.ensure_preview_assets(&mut registry, &mut materials),
        Err(PreviewError::Mesh { error: MeshError::NoPath { .. } })
    ));
}

#[test]
fn mesh_errors_say_what_is_wrong() {
    let key = || "m".to_string();
    assert_eq!(
        MeshError::NoPath { key: key() }.message(""),
        "Mesh 'm' not registered and no path provided"
    );
    assert_eq!(
        MeshError::NotRegistered { key: key() }.message(""),
        "Mesh 'm' not registered in registry"
    );
    assert_eq!(
        MeshError::Import { error: ImportError::NoMeshes }.message("p"),
        "No meshes found in p"
    );
    let (mut registry, _m) = registries();
    assert!(matches!(registry.ensure_mesh("none", None), MeshStep::NoPath));
    assert!(matches!(registry.ensure_mesh("none", Some("p.gltf")), MeshStep::Load { .. }));
}

#[test]
fn meshes_that_share_materials_let_go_one_by_one() {
    let (mut registry, mut materials) = registries();
    let default = materials.default_key().to_string();
    for key in ["first", "second"] {
        let loaded = registry.load_from_path(key, &demo_document(), &mut materials);
        assert!(loaded.is_ok());
    }
    let shared: Vec<String> = registry
        .mesh_subsets("first")
        .unwrap()
        .iter()
        .filter_map(|subset| subset.material.clone())
        .collect();
    assert!(!shared.is_empty());
    registry.release_mesh("first", &mut materials);
    assert!(shared.iter().all(|key| materials.has(key)));
    registry.release_mesh("second", &mut materials);
    assert!(shared.iter().all(|key| !materials.has(key)));
    assert_eq!(materials.default_key(), default);
    assert!(materials.has(&default));
}

#[test]
fn parts_have_to_fit_their_indices() {
    let mut mesh = demo_document().mesh.unwrap();
    assert!(check_parts(&mesh.primitives));
    mesh.primitives[0].indices = Some(vec![0, u32::MAX, 2]);
    assert!(check_parts(&mesh.primitives));
    let again = demo_document().mesh.unwrap().primitives.remove(0);
    mesh.primitives.insert(0, again);
    assert!(!check_parts(&mesh.primitives));
    mesh.primitives[1].triangles = false;
    assert!(check_parts(&mesh.primitives));
    assert!(check_parts::<Num>(&Vec::new()));
}
