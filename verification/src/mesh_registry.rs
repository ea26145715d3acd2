//! Meshes: who uses them, and the materials that go with them.
use vstd::prelude::*;
use crate::material_registry::{
    lemma_leaving_keeps_materials, lemma_taking_keeps_materials, texts, MaterialRegistry, Stock,
};
use crate::mesh::{Mesh, MeshBounds, MeshSubset};
use crate::mesh_import::{
    load_gltf_with_materials, ImportDocument, ImportError, ImportedMaterial, ImportedTexture,
    MeshImport,
};
use crate::scalar::Scalar;
use crate::text::join3;
use crate::text_map::TextMap;

verus! {

/// A mesh; `M` is what of it is on the GPU.
pub struct MeshEntry<S, M> {
    pub mesh: Mesh<S>,
    pub gpu: Option<M>,
    pub source: Option<String>,
    pub ref_count: usize,
    pub permanent: bool,
    pub material_keys: Vec<String>,
}

pub struct MeshRegistry<S, M> {
    pub entries: TextMap<MeshEntry<S, M>>,
    pub default: String,
    pub revision: u64,
}

/// Why a mesh cannot be had.
pub enum MeshError {
    AlreadyRegistered { key: String },
    NoPath { key: String },
    NotRegistered { key: String },
    Import { error: ImportError },
}

impl MeshError {
    /// `path` is where the mesh was read from.
    pub open spec fn text(self, path: Seq<char>) -> Seq<char> {
        match self {
            MeshError::AlreadyRegistered { key } => "Mesh '"@ + key@
                + "' already registered in registry"@,
            MeshError::NoPath { key } => "Mesh '"@ + key@
                + "' not registered and no path provided"@,
            MeshError::NotRegistered { key } => "Mesh '"@ + key@ + "' not registered in registry"@,
            MeshError::Import { error } => error.text(path),
        }
    }

    pub fn message(&self, path: &str) -> (r: String)
        ensures
            r@ == self.text(path@),
    {
        match self {
            MeshError::AlreadyRegistered { key } => join3(
                "Mesh '",
                key.as_str(),
                "' already registered in registry",
            ),
            MeshError::NoPath { key } => join3(
                "Mesh '",
                key.as_str(),
                "' not registered and no path provided",
            ),
            MeshError::NotRegistered { key } => join3(
                "Mesh '",
                key.as_str(),
                "' not registered in registry",
            ),
            MeshError::Import { error } => error.message(path),
        }
    }
}

/// What is left to do to have a mesh.
pub enum MeshStep {
    Ready,
    /// It has to be loaded from this path.
    Load { path: String },
    NoPath,
}

pub open spec fn material_texts<S>(materials: Seq<ImportedMaterial<S>>) -> Seq<Seq<char>> {
    materials.map_values(|m: ImportedMaterial<S>| m.key@)
}

fn list_material_keys<S>(materials: &Vec<ImportedMaterial<S>>) -> (r: Vec<String>)
    ensures
        texts(r@) == material_texts(materials@),
        r@.len() == materials@.len(),
{
    let mut out: Vec<String> = Vec::new();
    let mut i: usize = 0;
    while i < materials.len()
        invariant
            i <= materials@.len(),
            out@.len() == i,
            forall|j: int| 0 <= j < i ==> (#[trigger] out@[j])@ == materials@[j].key@,
        decreases materials@.len() - i,
    {
        out.push(materials[i].key.clone());
        i = i + 1;
    }
    assert(texts(out@) =~= material_texts(materials@));
    out
}

impl<S: Scalar, M> MeshRegistry<S, M> {
    pub open spec fn wf(self) -> bool {
        self.entries.wf()
    }

    pub open spec fn bumped(self) -> u64 {
        crate::counts::wrapping_sum(self.revision, 1)
    }

    /// Puts a mesh in under a key that is free.
    fn insert_entry(
        &mut self,
        key: &str,
        mesh: Mesh<S>,
        source: Option<String>,
        material_keys: Vec<String>,
        permanent: bool,
    ) -> (r: Result<(), MeshError>)
        requires
            old(self).wf(),
        ensures
            final(self).wf(),
            final(self).default == old(self).default,
            match r {
                Ok(_) => {
                    &&& !old(self).entries@.contains_key(key@)
                    &&& final(self).revision == old(self).bumped()
                    &&& final(self).entries@ == old(self).entries@.insert(
                        key@,
                        MeshEntry {
                            mesh,
                            gpu: None,
                            source,
                            ref_count: 0,
                            permanent,
                            material_keys,
                        },
                    )
                },
                Err(e) => {
                    &&& old(self).entries@.contains_key(key@)
                    &&& *final(self) == *old(self)
                    &&& e is AlreadyRegistered && e->AlreadyRegistered_key@ == key@
                },
            },
    {
        if self.entries.contains_key(key) {
            return Err(MeshError::AlreadyRegistered { key: key.to_owned() });
        }
        self.entries.insert(
            key.to_owned(),
            MeshEntry { mesh, gpu: None, source, ref_count: 0, permanent, material_keys },
        );
        self.revision = self.revision.wrapping_add(1);
        Ok(())
    }

    /// A registry with a cube and, where it could be had, the demo mesh; that one is the default
    /// then.
    pub fn new<G, T>(
        demo: Option<(MeshImport<S>, String)>,
        materials: &mut MaterialRegistry<S, G, T>,
    ) -> (r: Self)
        requires
            old(materials).wf(),
        ensures
            r.wf(),
            final(materials).wf(),
            final(materials).default_material == old(materials).default_material,
            ({
                let cube = r.entries@["cube"@];
                &&& r.entries@.contains_key("cube"@)
                &&& cube.mesh.vertices@ == crate::mesh::with_tangents(
                    crate::mesh::cube_vertices(S::one_spec()),
                    crate::mesh::cube_indices(),
                )
                &&& cube.mesh.indices@ == crate::mesh::cube_indices()
                &&& cube.permanent && cube.ref_count == 0 && cube.source is None && cube.gpu is None
                &&& cube.material_keys@.len() == 0
                &&& match demo {
                    Some((import, path)) => {
                        let triangle = r.entries@["demo_triangle"@];
                        &&& r.entries@.dom() =~= set!["cube"@, "demo_triangle"@]
                        &&& triangle.mesh == import.mesh
                        &&& triangle.source == Some(path)
                        &&& triangle.permanent && triangle.ref_count == 0 && triangle.gpu is None
                        &&& texts(triangle.material_keys@) == material_texts(import.materials@)
                        &&& r.default@ == "demo_triangle"@
                        &&& r.revision == 2
                        &&& final(materials).stock() == old(materials).stock().imported(
                            import.materials@,
                            import.textures@,
                        )
                    },
                    None => {
                        &&& r.entries@.dom() =~= set!["cube"@]
                        &&& r.default@ == "cube"@
                        &&& r.revision == 1
                        &&& final(materials).stock() == old(materials).stock()
                    },
                }
            }),
    {
        proof {
            reveal_strlit("cube");
            reveal_strlit("demo_triangle");
            assert("cube"@.len() != "demo_triangle"@.len());
        }
        let mut registry: MeshRegistry<S, M> = MeshRegistry {
            entries: TextMap::new(),
            default: "cube".to_owned(),
            revision: 0,
        };
        let _ = registry.insert_entry("cube", Mesh::cube(S::one()), None, Vec::new(), true);
        if let Some((import, path)) = demo {
            let MeshImport { mesh, materials: imported, textures } = import;
            let keys = list_material_keys(&imported);
            materials.register_gltf_import(imported, textures);
            let _ = registry.insert_entry("demo_triangle", mesh, Some(path), keys, true);
            registry.default = "demo_triangle".to_owned();
        }
        registry
    }

    pub fn default_key(&self) -> (r: &str)
        ensures
            r@ == self.default@,
    {
        self.default.as_str()
    }

    pub fn keys(&self) -> (r: Vec<String>)
        ensures
            texts(r@) == self.entries.key_seq(),
    {
        let keys = self.entries.keys();
        assert(texts(keys@) =~= self.entries.key_seq());
        keys
    }

    pub fn has(&self, key: &str) -> (r: bool)
        requires
            self.wf(),
        ensures
            r == self.entries@.contains_key(key@),
    {
        self.entries.contains_key(key)
    }

    /// A mesh that is there takes a path as its source if it has none; one that is not has to be
    /// loaded.
    pub fn ensure_mesh(&mut self, key: &str, path: Option<&str>) -> (r: MeshStep)
        requires
            old(self).wf(),
        ensures
            final(self).wf(),
            final(self).default == old(self).default,
            ({
                let e = old(self).entries@[key@];
                if !old(self).entries@.contains_key(key@) {
                    &&& *final(self) == *old(self)
                    &&& match path {
                        Some(p) => r is Load && r->path@ == p@,
                        None => r is NoPath,
                    }
                } else if e.source is None && path is Some {
                    &&& r is Ready
                    &&& final(self).revision == old(self).bumped()
                    &&& final(self).entries@.contains_key(key@)
                    &&& ({
                        let now = final(self).entries@[key@];
                        &&& now.source is Some && now.source->0@ == path->0@
                        &&& now == (MeshEntry { source: now.source, ..e })
                        &&& final(self).entries@ == old(self).entries@.insert(key@, now)
                    })
                } else {
                    &&& r is Ready
                    &&& final(self).entries@ == old(self).entries@
                    &&& final(self).revision == old(self).revision
                }
            }),
    {
        match self.entries.get_mut(key) {
            Some(entry) => {
                if entry.source.is_none() {
                    if let Some(p) = path {
                        entry.source = Some(p.to_owned());
                        self.revision = self.revision.wrapping_add(1);
                    }
                }
                assert(old(self).entries@[key@].source is Some || path is None ==> self.entries@
                    =~= old(self).entries@);
                MeshStep::Ready
            },
            None => match path {
                Some(p) => MeshStep::Load { path: p.to_owned() },
                None => MeshStep::NoPath,
            },
        }
    }

    /// Puts a mesh that was read from a file in, with its materials, which it uses. A key that is
    /// taken and a file without a mesh are errors, and change nothing.
    pub fn load_from_path<G, T>(
        &mut self,
        key: &str,
        document: &ImportDocument<S>,
        materials: &mut MaterialRegistry<S, G, T>,
    ) -> (r: Result<(), MeshError>)
        requires
            old(self).wf(),
            old(materials).wf(),
            document.mesh is Some ==> crate::mesh_import::parts_fit(document.mesh->0.primitives@),
        ensures
            final(self).wf(),
            final(materials).wf(),
            final(self).default == old(self).default,
            final(materials).default_material == old(materials).default_material,
            match r {
                Ok(_) => {
                    let e = final(self).entries@[key@];
                    &&& !old(self).entries@.contains_key(key@)
                    &&& crate::mesh_import::importable(*document)
                    &&& final(self).entries@ == old(self).entries@.insert(key@, e)
                    &&& final(self).revision == old(self).bumped()
                    &&& e.gpu is None && e.ref_count == 0 && !e.permanent
                    &&& e.source is Some && e.source->0@ == document.path@
                    &&& exists|import: MeshImport<S>|
                        {
                            &&& #[trigger] crate::mesh_import::import_is(
                                import,
                                *document,
                                document.mesh->0,
                            )
                            &&& e.mesh == import.mesh
                            &&& texts(e.material_keys@) == material_texts(import.materials@)
                            &&& final(materials).stock() == old(materials).stock().imported(
                                import.materials@,
                                import.textures@,
                            ).all_retained(
                                material_texts(import.materials@),
                                import.materials@.len() as int,
                            )
                        }
                },
                Err(e) => {
                    &&& *final(self) == *old(self)
                    &&& *final(materials) == *old(materials)
                    &&& if old(self).entries@.contains_key(key@) {
                        e is AlreadyRegistered && e->AlreadyRegistered_key@ == key@
                    } else {
                        e is Import && !crate::mesh_import::importable(*document)
                            && crate::mesh_import::import_error(*document, e->error)
                    }
                },
            },
    {
        if self.entries.contains_key(key) {
            return Err(MeshError::AlreadyRegistered { key: key.to_owned() });
        }
        let import = match load_gltf_with_materials(document) {
            Ok(import) => import,
            Err(error) => {
                return Err(MeshError::Import { error });
            },
        };
        let ghost whole = import;
        let MeshImport { mesh, materials: imported, textures } = import;
        let keys = list_material_keys(&imported);
        materials.register_gltf_import(imported, textures);
        let ghost stock = materials.stock();
        let mut i: usize = 0;
        while i < keys.len()
            invariant
                i <= keys@.len(),
                materials.wf(),
                materials.default_material == old(materials).default_material,
                materials.stock() == stock.all_retained(texts(keys@), i as int),
            decreases keys@.len() - i,
        {
            let _ = materials.retain(keys[i].as_str());
            i = i + 1;
        }
        assert(crate::mesh_import::import_is(whole, *document, document.mesh->0));
        self.insert_entry(key, mesh, Some(document.path.clone()), keys, false)
    }

    /// One more user of a mesh that is there.
    pub fn retain_ready(&mut self, key: &str)
        requires
            old(self).wf(),
        ensures
            final(self).wf(),
            final(self).default == old(self).default,
            final(self).revision == old(self).revision,
            final(self).entries@ == (if old(self).entries@.contains_key(key@) {
                old(self).entries@.insert(key@, Self::retained_entry(old(self).entries@[key@]))
            } else {
                old(self).entries@
            }),
    {
        if let Some(entry) = self.entries.get_mut(key) {
            entry.ref_count = entry.ref_count.saturating_add(1);
        }
    }

    pub open spec fn retained_entry(e: MeshEntry<S, M>) -> MeshEntry<S, M> {
        MeshEntry { ref_count: crate::material_registry::one_more(e.ref_count), ..e }
    }

    /// The users left of a mesh after one has gone.
    pub open spec fn users_left(e: MeshEntry<S, M>) -> usize {
        if e.ref_count > 0 {
            (e.ref_count - 1) as usize
        } else {
            0
        }
    }

    /// Whether a mesh goes with the user that leaves.
    pub open spec fn goes(self, key: Seq<char>) -> bool {
        &&& self.entries@.contains_key(key)
        &&& Self::users_left(self.entries@[key]) == 0
        &&& !self.entries@[key].permanent
    }

    /// One user less of a mesh: the last one takes it along, and the use of its materials, unless
    /// it is there for good.
    pub fn release_mesh<G, T>(&mut self, key: &str, materials: &mut MaterialRegistry<S, G, T>)
        requires
            old(self).wf(),
            old(materials).wf(),
        ensures
            final(self).wf(),
            final(materials).wf(),
            final(self).default == old(self).default,
            final(materials).default_material == old(materials).default_material,
            ({
                let e = old(self).entries@[key@];
                if old(self).goes(key@) {
                    &&& final(self).entries@ == old(self).entries@.remove(key@)
                    &&& final(self).revision == old(self).bumped()
                    &&& final(materials).stock() == old(materials).stock().all_released(
                        texts(e.material_keys@),
                        e.material_keys@.len() as int,
                    )
                } else {
                    &&& final(self).entries@ == (if old(self).entries@.contains_key(key@) {
                        old(self).entries@.insert(
                            key@,
                            MeshEntry { ref_count: Self::users_left(e), ..e },
                        )
                    } else {
                        old(self).entries@
                    })
                    &&& final(self).revision == old(self).revision
                    &&& final(materials).stock() == old(materials).stock()
                }
            }),
    {
        let mut goes: bool = false;
        if let Some(entry) = self.entries.get_mut(key) {
            if entry.ref_count > 0 {
                entry.ref_count = entry.ref_count - 1;
            }
            goes = entry.ref_count == 0 && !entry.permanent;
        }
        if goes {
            if let Some(entry) = self.entries.remove(key) {
                assert(self.entries@ =~= old(self).entries@.remove(key@));
                let ghost stock = materials.stock();
                let keys = entry.material_keys;
                let mut i: usize = 0;
                while i < keys.len()
                    invariant
                        i <= keys@.len(),
                        materials.wf(),
                        materials.default_material == old(materials).default_material,
                        materials.stock() == stock.all_released(texts(keys@), i as int),
                    decreases keys@.len() - i,
                {
                    materials.release(keys[i].as_str());
                    i = i + 1;
                }
            }
            self.revision = self.revision.wrapping_add(1);
        }
    }

    pub fn mesh_ref_count(&self, key: &str) -> (r: Option<usize>)
        requires
            self.wf(),
        ensures
            r == (if self.entries@.contains_key(key@) {
                Some(self.entries@[key@].ref_count)
            } else {
                None
            }),
    {
        match self.entries.get(key) {
            Some(entry) => Some(entry.ref_count),
            None => None,
        }
    }

    pub fn mesh_source(&self, key: &str) -> (r: Option<&str>)
        requires
            self.wf(),
        ensures
            match r {
                Some(source) => self.entries@.contains_key(key@) && self.entries@[key@].source is Some
                    && source@ == self.entries@[key@].source->0@,
                None => self.entries@.contains_key(key@) ==> self.entries@[key@].source is None,
            },
    {
        match self.entries.get(key) {
            Some(entry) => match &entry.source {
                Some(source) => Some(source.as_str()),
                None => None,
            },
            None => None,
        }
    }

    pub fn mesh(&self, key: &str) -> (r: Option<&Mesh<S>>)
        requires
            self.wf(),
        ensures
            match r {
                Some(mesh) => self.entries@.contains_key(key@) && *mesh == self.entries@[key@].mesh,
                None => !self.entries@.contains_key(key@),
            },
    {
        match self.entries.get(key) {
            Some(entry) => Some(&entry.mesh),
            None => None,
        }
    }

    pub fn mesh_subsets(&self, key: &str) -> (r: Option<&Vec<MeshSubset>>)
        requires
            self.wf(),
        ensures
            match r {
                Some(subsets) => self.entries@.contains_key(key@) && *subsets
                    == self.entries@[key@].mesh.subsets,
                None => !self.entries@.contains_key(key@),
            },
    {
        match self.entries.get(key) {
            Some(entry) => Some(&entry.mesh.subsets),
            None => None,
        }
    }

    pub fn mesh_bounds(&self, key: &str) -> (r: Option<&MeshBounds<S>>)
        requires
            self.wf(),
        ensures
            match r {
                Some(bounds) => self.entries@.contains_key(key@) && *bounds
                    == self.entries@[key@].mesh.bounds,
                None => !self.entries@.contains_key(key@),
            },
    {
        match self.entries.get(key) {
            Some(entry) => Some(&entry.mesh.bounds),
            None => None,
        }
    }

    pub fn gpu_mesh(&self, key: &str) -> (r: Option<&M>)
        requires
            self.wf(),
        ensures
            match r {
                Some(gpu) => self.entries@.contains_key(key@) && self.entries@[key@].gpu == Some(
                    *gpu,
                ),
                None => self.entries@.contains_key(key@) ==> self.entries@[key@].gpu is None,
            },
    {
        match self.entries.get(key) {
            Some(entry) => entry.gpu.as_ref(),
            None => None,
        }
    }

    pub fn store_gpu(&mut self, key: &str, gpu: M)
        requires
            old(self).wf(),
        ensures
            final(self).wf(),
            final(self).default == old(self).default,
            final(self).revision == old(self).revision,
            final(self).entries@ == (if old(self).entries@.contains_key(key@) {
                old(self).entries@.insert(
                    key@,
                    MeshEntry { gpu: Some(gpu), ..old(self).entries@[key@] },
                )
            } else {
                old(self).entries@
            }),
    {
        if let Some(entry) = self.entries.get_mut(key) {
            entry.gpu = Some(gpu);
        }
    }

    pub fn version(&self) -> (r: u64)
        ensures
            r == self.revision,
    {
        self.revision
    }
}

/// A mesh that has users is as it was after one more user came and went.
pub proof fn law_mesh_release_undoes_retain<S: Scalar, M>(e: MeshEntry<S, M>)
    requires
        e.ref_count < usize::MAX,
    ensures
        ({
            let retained = MeshRegistry::<S, M>::retained_entry(e);
            MeshEntry {
                ref_count: MeshRegistry::<S, M>::users_left(retained),
                ..retained
            } == e
        }),
{
}

/// How many users a material has; none where there is no such material.
pub open spec fn material_users<S, G, T>(stock: Stock<S, G, T>, key: Seq<char>) -> int {
    if stock.materials.contains_key(key) {
        stock.materials[key].ref_count as int
    } else {
        0
    }
}

/// Whether a material is there for good.
pub open spec fn there_for_good<S, G, T>(stock: Stock<S, G, T>, key: Seq<char>) -> bool {
    stock.materials.contains_key(key) && stock.materials[key].permanent
}

/// How often a key stands among the first `n`.
pub open spec fn times_among(keys: Seq<Seq<char>>, key: Seq<char>, n: int) -> int
    decreases n,
{
    if n <= 0 {
        0
    } else {
        times_among(keys, key, n - 1) + (if keys[n - 1] == key {
            1int
        } else {
            0
        })
    }
}

proof fn lemma_times_among(keys: Seq<Seq<char>>, key: Seq<char>, n: int)
    requires
        0 <= n <= keys.len(),
    ensures
        0 <= times_among(keys, key, n) <= n,
        times_among(keys, key, n) > 0 <==> keys.take(n).contains(key),
    decreases n,
{
    if n > 0 {
        lemma_times_among(keys, key, n - 1);
        let (head, now) = (keys.take(n - 1), keys.take(n));
        assert(now =~= head.push(keys[n - 1]));
        if keys[n - 1] == key {
            assert(now[n - 1] == key);
        }
        if head.contains(key) {
            let i = choose|i: int| 0 <= i < head.len() && head[i] == key;
            assert(now[i] == key);
        }
        if now.contains(key) && keys[n - 1] != key {
            let i = choose|i: int| 0 <= i < now.len() && now[i] == key;
            assert(head[i] == key);
        }
    }
}

/// Putting a material in keeps its users, and whether it is there for good; other materials stay.
proof fn lemma_import_keeps_users<S, G, T>(
    stock: Stock<S, G, T>,
    materials: Seq<ImportedMaterial<S>>,
    key: Seq<char>,
    n: int,
)
    requires
        0 <= n <= materials.len(),
    ensures
        ({
            let after = stock.with_materials(materials, n);
            &&& material_users(after, key) == material_users(stock, key)
            &&& there_for_good(after, key) == there_for_good(stock, key)
            &&& !material_texts(materials).take(n).contains(key) ==> after.materials.contains_key(
                key,
            ) == stock.materials.contains_key(key)
        }),
    decreases n,
{
    if n > 0 {
        lemma_import_keeps_users(stock, materials, key, n - 1);
        let before = stock.with_materials(materials, n - 1);
        let m = materials[n - 1];
        let d = crate::material_registry::definition_of(m);
        let keys = material_texts(materials);
        let head = keys.take(n - 1);
        assert(keys.take(n)[n - 1] == m.key@);
        if head.contains(key) {
            let i = choose|i: int| 0 <= i < head.len() && head[i] == key;
            assert(keys.take(n)[i] == key);
        }
        if before.materials.contains_key(m.key@) {
            let entry = before.materials[m.key@];
            let without = Stock { materials: before.materials.remove(m.key@), ..before };
            let former = entry.texture_keys();
            lemma_leaving_keeps_materials(without, former, former.len() as int);
            lemma_taking_keeps_materials(
                without.all_used_less(former, former.len() as int),
                d.texture_keys(),
                d.texture_keys().len() as int,
            );
        } else {
            lemma_taking_keeps_materials(before, d.texture_keys(), d.texture_keys().len() as int);
        }
    }
}

proof fn lemma_textures_keep_materials<S, G, T>(
    stock: Stock<S, G, T>,
    textures: Seq<ImportedTexture>,
    n: int,
)
    ensures
        stock.with_textures(textures, n).materials == stock.materials,
    decreases n,
{
    if n > 0 {
        lemma_textures_keep_materials(stock, textures, n - 1);
    }
}

proof fn lemma_retaining_counts<S, G, T>(
    stock: Stock<S, G, T>,
    keys: Seq<Seq<char>>,
    key: Seq<char>,
    n: int,
)
    requires
        0 <= n <= keys.len(),
        material_users(stock, key) + keys.len() <= usize::MAX,
    ensures
        ({
            let after = stock.all_retained(keys, n);
            &&& after.materials.contains_key(key) == stock.materials.contains_key(key)
            &&& there_for_good(after, key) == there_for_good(stock, key)
            &&& stock.materials.contains_key(key) ==> material_users(after, key) == material_users(
                stock,
                key,
            ) + times_among(keys, key, n)
        }),
    decreases n,
{
    if n > 0 {
        lemma_retaining_counts(stock, keys, key, n - 1);
        lemma_times_among(keys, key, n - 1);
    }
}

proof fn lemma_releasing_counts<S, G, T>(
    stock: Stock<S, G, T>,
    keys: Seq<Seq<char>>,
    key: Seq<char>,
    n: int,
)
    requires
        0 <= n <= keys.len(),
    ensures
        ({
            let after = stock.all_released(keys, n);
            let times = times_among(keys, key, n);
            let users = material_users(stock, key);
            &&& there_for_good(after, key) == there_for_good(stock, key)
            &&& after.materials.contains_key(key) <==> stock.materials.contains_key(key) && (times
                == 0 || times < users || there_for_good(stock, key))
            &&& after.materials.contains_key(key) ==> material_users(after, key) == (if times
                < users {
                users - times
            } else {
                0
            })
        }),
    decreases n,
{
    if n > 0 {
        lemma_releasing_counts(stock, keys, key, n - 1);
        lemma_times_among(keys, key, n - 1);
        let before = stock.all_released(keys, n - 1);
        if before.materials.contains_key(keys[n - 1]) {
            let entry = before.materials[keys[n - 1]];
            let without = Stock { materials: before.materials.remove(keys[n - 1]), ..before };
            let used = entry.texture_keys();
            lemma_leaving_keeps_materials(without, used, used.len() as int);
        }
    }
}

/// A mesh that was loaded and then goes takes its materials along: those that nobody used before
/// are gone, unless they are there for good, and those that others use, or that belong to other
/// meshes, have as many users as before. Counts that cannot go up any further are left out.
pub proof fn law_mesh_takes_its_materials_along<S, G, T>(
    stock: Stock<S, G, T>,
    materials: Seq<ImportedMaterial<S>>,
    textures: Seq<ImportedTexture>,
    key: Seq<char>,
)
    requires
        material_users(stock, key) + materials.len() <= usize::MAX,
    ensures
        ({
            let keys = material_texts(materials);
            let n = materials.len() as int;
            let loaded = stock.imported(materials, textures).all_retained(keys, n);
            let after = loaded.all_released(keys, n);
            &&& material_users(after, key) == material_users(stock, key)
            &&& keys.contains(key) ==> loaded.materials.contains_key(key)
            &&& after.materials.contains_key(key) <==> (if keys.contains(key) {
                material_users(stock, key) > 0 || there_for_good(stock, key)
            } else {
                stock.materials.contains_key(key)
            })
        }),
{
    let keys = material_texts(materials);
    let n = materials.len() as int;
    let m = textures.len() as int;
    let with_textures = stock.with_textures(textures, m);
    let imported = stock.imported(materials, textures);
    assert(keys.take(n) =~= keys);
    lemma_textures_keep_materials(stock, textures, m);
    lemma_import_keeps_users(with_textures, materials, key, n);
    lemma_times_among(keys, key, n);
    lemma_retaining_counts(imported, keys, key, n);
    lemma_releasing_counts(imported.all_retained(keys, n), keys, key, n);
    if keys.contains(key) {
        let i = choose|i: int| 0 <= i < keys.len() && keys[i] == key;
        crate::material_registry::law_imported_materials_are_there(with_textures, materials, n, i);
    }
}

} // verus!
