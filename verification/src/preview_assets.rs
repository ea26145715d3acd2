//! Which meshes and materials the preview keeps while it shows a mesh.
use vstd::prelude::*;
use crate::material_registry::{texts, MaterialError, MaterialRegistry, Stock};
use crate::mesh::MeshSubset;
use crate::mesh_registry::{MeshEntry, MeshError, MeshRegistry};
use crate::scalar::Scalar;
use crate::text::join3;
use crate::text_map::{same_text, TextMap};

verus! {

/// The materials of the first `n` parts of a mesh, in order.
pub open spec fn materials_of(subsets: Seq<MeshSubset>, n: int) -> Seq<Seq<char>>
    decreases n,
{
    if n <= 0 {
        Seq::empty()
    } else {
        match subsets[n - 1].material {
            Some(key) => materials_of(subsets, n - 1).push(key@),
            None => materials_of(subsets, n - 1),
        }
    }
}

fn list_materials(subsets: &Vec<MeshSubset>) -> (r: Vec<String>)
    ensures
        texts(r@) == materials_of(subsets@, subsets@.len() as int),
{
    let mut out: Vec<String> = Vec::new();
    assert(texts(out@) =~= Seq::<Seq<char>>::empty());
    let mut i: usize = 0;
    while i < subsets.len()
        invariant
            i <= subsets@.len(),
            texts(out@) == materials_of(subsets@, i as int),
        decreases subsets@.len() - i,
    {
        let ghost had = out@;
        if let Some(key) = &subsets[i].material {
            out.push(key.clone());
            assert(texts(out@) =~= texts(had).push(key@));
        }
        i = i + 1;
    }
    out
}

/// The material of the first part that has one.
pub fn first_material(subsets: &Vec<MeshSubset>) -> (r: Option<String>)
    ensures
        ({
            let all = materials_of(subsets@, subsets@.len() as int);
            match r {
                Some(key) => all.len() > 0 && key@ == all[0],
                None => all.len() == 0,
            }
        }),
{
    let all = list_materials(subsets);
    assert(texts(all@).len() == all@.len());
    if all.len() == 0 {
        None
    } else {
        Some(all[0].clone())
    }
}

/// The meshes and the materials as plain values.
pub struct Stores<S, M, G, T> {
    pub meshes: Map<Seq<char>, MeshEntry<S, M>>,
    pub revision: u64,
    pub stock: Stock<S, G, T>,
}

pub open spec fn stores_of<S: Scalar, M, G, T>(
    meshes: MeshRegistry<S, M>,
    materials: MaterialRegistry<S, G, T>,
) -> Stores<S, M, G, T> {
    Stores { meshes: meshes.entries@, revision: meshes.revision, stock: materials.stock() }
}

impl<S: Scalar, M, G, T> Stores<S, M, G, T> {
    /// The parts of a mesh; none where there is no such mesh.
    pub open spec fn parts(self, key: Seq<char>) -> Seq<MeshSubset> {
        if self.meshes.contains_key(key) {
            self.meshes[key].mesh.subsets@
        } else {
            Seq::empty()
        }
    }

    pub open spec fn mesh_materials(self, key: Seq<char>) -> Seq<Seq<char>> {
        materials_of(self.parts(key), self.parts(key).len() as int)
    }

    /// One more user of a mesh.
    pub open spec fn mesh_retained(self, key: Seq<char>) -> Self {
        if self.meshes.contains_key(key) {
            Stores {
                meshes: self.meshes.insert(
                    key,
                    MeshRegistry::<S, M>::retained_entry(self.meshes[key]),
                ),
                ..self
            }
        } else {
            self
        }
    }

    /// One user less of a mesh.
    pub open spec fn mesh_released(self, key: Seq<char>) -> Self {
        if !self.meshes.contains_key(key) {
            self
        } else {
            let e = self.meshes[key];
            let left = MeshRegistry::<S, M>::users_left(e);
            if left == 0 && !e.permanent {
                Stores {
                    meshes: self.meshes.remove(key),
                    revision: crate::counts::wrapping_sum(self.revision, 1),
                    stock: self.stock.all_released(
                        texts(e.material_keys@),
                        e.material_keys@.len() as int,
                    ),
                }
            } else {
                Stores {
                    meshes: self.meshes.insert(key, MeshEntry { ref_count: left, ..e }),
                    ..self
                }
            }
        }
    }

    /// The first `n` meshes released one after the other.
    pub open spec fn all_meshes_released(self, keys: Seq<Seq<char>>, n: int) -> Self
        decreases n,
    {
        if n <= 0 {
            self
        } else {
            self.all_meshes_released(keys, n - 1).mesh_released(keys[n - 1])
        }
    }
}

fn release_mesh<S: Scalar, M, G, T>(
    meshes: &mut MeshRegistry<S, M>,
    materials: &mut MaterialRegistry<S, G, T>,
    key: &str,
)
    requires
        old(meshes).wf(),
        old(materials).wf(),
    ensures
        final(meshes).wf(),
        final(materials).wf(),
        final(materials).default_material == old(materials).default_material,
        final(meshes).default == old(meshes).default,
        stores_of(*final(meshes), *final(materials)) == stores_of(
            *old(meshes),
            *old(materials),
        ).mesh_released(key@),
{
    meshes.release_mesh(key, materials);
}

/// What the preview keeps after it asked for the first `n` materials: those that there are.
pub open spec fn noted<S, G, T>(
    kept: Set<Seq<char>>,
    stock: Stock<S, G, T>,
    keys: Seq<Seq<char>>,
    n: int,
) -> Set<Seq<char>>
    decreases n,
{
    if n <= 0 {
        kept
    } else {
        let before = noted(kept, stock, keys, n - 1);
        if stock.all_retained(keys, n - 1).materials.contains_key(keys[n - 1]) {
            before.insert(keys[n - 1])
        } else {
            before
        }
    }
}

/// The materials kept without the first `n`.
pub open spec fn without(kept: Set<Seq<char>>, keys: Seq<Seq<char>>, n: int) -> Set<Seq<char>>
    decreases n,
{
    if n <= 0 {
        kept
    } else {
        without(kept, keys, n - 1).remove(keys[n - 1])
    }
}

/// The materials after the first `n` were let go: each one that was kept and that the scene does
/// not need has one user less.
pub open spec fn let_go<S, G, T>(
    stock: Stock<S, G, T>,
    kept: Set<Seq<char>>,
    needed: Set<Seq<char>>,
    keys: Seq<Seq<char>>,
    n: int,
) -> Stock<S, G, T>
    decreases n,
{
    if n <= 0 {
        stock
    } else {
        let before = let_go(stock, kept, needed, keys, n - 1);
        let key = keys[n - 1];
        if without(kept, keys, n - 1).contains(key) && !needed.contains(key) {
            before.released(key)
        } else {
            before
        }
    }
}

/// Why the preview cannot show its mesh.
pub enum PreviewError {
    Mesh { error: MeshError },
    Material { error: MaterialError },
}

impl PreviewError {
    pub open spec fn text(self) -> Seq<char> {
        match self {
            PreviewError::Mesh { error } => error.text(""@),
            PreviewError::Material { error } => error.text(),
        }
    }

    pub fn message(&self) -> (r: String)
        ensures
            r@ == self.text(),
    {
        match self {
            PreviewError::Mesh { error } => error.message(""),
            PreviewError::Material { error } => error.message(),
        }
    }
}

/// The mesh that is shown, and what is kept for it.
pub struct PreviewAssets {
    pub preview_mesh_key: String,
    pub mesh_status: Option<String>,
    pub persistent_meshes: TextMap<()>,
    pub persistent_materials: TextMap<()>,
}

/// What is said while no such mesh can be had.
pub open spec fn unavailable_text(key: Seq<char>) -> Seq<char> {
    "Mesh '"@ + key + "' unavailable: "@ + ("Mesh '"@ + key
        + "' not registered and no path provided"@)
}

impl PreviewAssets {
    pub open spec fn wf(self) -> bool {
        self.persistent_meshes.wf() && self.persistent_materials.wf()
    }

    pub open spec fn says(self, text: Seq<char>) -> bool {
        self.mesh_status is Some && self.mesh_status->0@ == text
    }

    pub fn new() -> (r: Self)
        ensures
            r.wf(),
            r.preview_mesh_key@ == ""@,
            r.mesh_status is None,
            r.persistent_meshes@ == Map::<Seq<char>, ()>::empty(),
            r.persistent_materials@ == Map::<Seq<char>, ()>::empty(),
    {
        PreviewAssets {
            preview_mesh_key: "".to_owned(),
            mesh_status: None,
            persistent_meshes: TextMap::new(),
            persistent_materials: TextMap::new(),
        }
    }

    pub fn preview_mesh_key(&self) -> (r: &str)
        ensures
            r@ == self.preview_mesh_key@,
    {
        self.preview_mesh_key.as_str()
    }

    pub fn mesh_status(&self) -> (r: Option<&str>)
        ensures
            match r {
                Some(text) => self.says(text@),
                None => self.mesh_status is None,
            },
    {
        match &self.mesh_status {
            Some(text) => Some(text.as_str()),
            None => None,
        }
    }

    pub fn set_status(&mut self, message: String)
        ensures
            final(self).mesh_status == Some(message),
            final(self).preview_mesh_key == old(self).preview_mesh_key,
            final(self).persistent_meshes == old(self).persistent_meshes,
            final(self).persistent_materials == old(self).persistent_materials,
    {
        self.mesh_status = Some(message);
    }

    /// Keeps the materials that there are, with one more user each.
    fn take_materials<S: Scalar, G, T>(
        &mut self,
        materials: &mut MaterialRegistry<S, G, T>,
        keys: &Vec<String>,
    )
        requires
            old(self).wf(),
            old(materials).wf(),
        ensures
            final(self).wf(),
            final(materials).wf(),
            final(materials).default_material == old(materials).default_material,
            final(self).preview_mesh_key == old(self).preview_mesh_key,
            final(self).mesh_status == old(self).mesh_status,
            final(self).persistent_meshes == old(self).persistent_meshes,
            final(self).persistent_materials@.dom() == noted(
                old(self).persistent_materials@.dom(),
                old(materials).stock(),
                texts(keys@),
                keys@.len() as int,
            ),
            final(materials).stock() == old(materials).stock().all_retained(
                texts(keys@),
                keys@.len() as int,
            ),
    {
        let mut i: usize = 0;
        while i < keys.len()
            invariant
                i <= keys@.len(),
                self.wf(),
                materials.wf(),
                materials.default_material == old(materials).default_material,
                self.preview_mesh_key == old(self).preview_mesh_key,
                self.mesh_status == old(self).mesh_status,
                self.persistent_meshes == old(self).persistent_meshes,
                self.persistent_materials@.dom() == noted(
                    old(self).persistent_materials@.dom(),
                    old(materials).stock(),
                    texts(keys@),
                    i as int,
                ),
                materials.stock() == old(materials).stock().all_retained(texts(keys@), i as int),
            decreases keys@.len() - i,
        {
            let ghost kept = self.persistent_materials@;
            assert(texts(keys@)[i as int] == keys@[i as int]@);
            if materials.retain(keys[i].as_str()).is_ok() {
                self.persistent_materials.insert(keys[i].clone(), ());
                assert(self.persistent_materials@.dom() =~= kept.dom().insert(keys@[i as int]@));
            }
            i = i + 1;
        }
    }

    /// Lets materials go; those that the scene needs keep their users.
    fn leave_materials<S: Scalar, G, T>(
        &mut self,
        materials: &mut MaterialRegistry<S, G, T>,
        needed: &TextMap<()>,
        keys: &Vec<String>,
    )
        requires
            old(self).wf(),
            old(materials).wf(),
            needed.wf(),
        ensures
            final(self).wf(),
            final(materials).wf(),
            final(materials).default_material == old(materials).default_material,
            final(self).preview_mesh_key == old(self).preview_mesh_key,
            final(self).mesh_status == old(self).mesh_status,
            final(self).persistent_meshes == old(self).persistent_meshes,
            final(self).persistent_materials@.dom() == without(
                old(self).persistent_materials@.dom(),
                texts(keys@),
                keys@.len() as int,
            ),
            final(materials).stock() == let_go(
                old(materials).stock(),
                old(self).persistent_materials@.dom(),
                needed@.dom(),
                texts(keys@),
                keys@.len() as int,
            ),
    {
        let ghost kept = self.persistent_materials@.dom();
        let mut i: usize = 0;
        while i < keys.len()
            invariant
                i <= keys@.len(),
                self.wf(),
                materials.wf(),
                materials.default_material == old(materials).default_material,
                needed.wf(),
                self.preview_mesh_key == old(self).preview_mesh_key,
                self.mesh_status == old(self).mesh_status,
                self.persistent_meshes == old(self).persistent_meshes,
                self.persistent_materials@.dom() == without(kept, texts(keys@), i as int),
                materials.stock() == let_go(
                    old(materials).stock(),
                    kept,
                    needed@.dom(),
                    texts(keys@),
                    i as int,
                ),
            decreases keys@.len() - i,
        {
            let ghost before = self.persistent_materials@;
            let key = keys[i].as_str();
            assert(texts(keys@)[i as int] == key@);
            let had = self.persistent_materials.remove(key).is_some();
            assert(self.persistent_materials@.dom() =~= before.dom().remove(key@));
            if had && !needed.contains_key(key) {
                materials.release(key);
            }
            i = i + 1;
        }
    }

    /// What is in the stores after another mesh is shown, and what is kept: the new mesh has one
    /// user more and the one before one less, and so have their materials.
    pub open spec fn shown<S: Scalar, M, G, T>(
        self,
        stores: Stores<S, M, G, T>,
        needed: Set<Seq<char>>,
        new_key: Seq<char>,
    ) -> (Stores<S, M, G, T>, Set<Seq<char>>, Set<Seq<char>>) {
        let previous = self.preview_mesh_key@;
        let taken = stores.mesh_retained(new_key);
        let new_materials = taken.mesh_materials(new_key);
        let old_materials = taken.mesh_materials(previous);
        let with_new = self.persistent_meshes@.dom().insert(new_key);
        let left = if with_new.contains(previous) {
            taken.mesh_released(previous)
        } else {
            taken
        };
        let kept = noted(
            self.persistent_materials@.dom(),
            left.stock,
            new_materials,
            new_materials.len() as int,
        );
        let stock = left.stock.all_retained(new_materials, new_materials.len() as int);
        (
            Stores {
                stock: let_go(stock, kept, needed, old_materials, old_materials.len() as int),
                ..left
            },
            with_new.remove(previous),
            without(kept, old_materials, old_materials.len() as int),
        )
    }

    fn parts_of<S: Scalar, M>(meshes: &MeshRegistry<S, M>, key: &str) -> (r: Vec<String>)
        requires
            meshes.wf(),
        ensures
            texts(r@) == (if meshes.entries@.contains_key(key@) {
                materials_of(
                    meshes.entries@[key@].mesh.subsets@,
                    meshes.entries@[key@].mesh.subsets@.len() as int,
                )
            } else {
                Seq::empty()
            }),
    {
        match meshes.mesh_subsets(key) {
            Some(subsets) => list_materials(subsets),
            None => {
                let none: Vec<String> = Vec::new();
                assert(texts(none@) =~= Seq::<Seq<char>>::empty());
                none
            },
        }
    }

    /// Shows another mesh. Whether it is now due on the GPU; a mesh that there is not is said to
    /// be unavailable.
    pub fn set_preview_mesh<S: Scalar, M, G, T>(
        &mut self,
        meshes: &mut MeshRegistry<S, M>,
        materials: &mut MaterialRegistry<S, G, T>,
        scene_material_refs: &TextMap<()>,
        new_key: String,
    ) -> (r: bool)
        requires
            old(self).wf(),
            old(meshes).wf(),
            old(materials).wf(),
            scene_material_refs.wf(),
        ensures
            final(self).wf(),
            final(meshes).wf(),
            final(materials).wf(),
            final(materials).default_material == old(materials).default_material,
            final(meshes).default == old(meshes).default,
            r == (new_key@ != old(self).preview_mesh_key@ && old(meshes).entries@.contains_key(
                new_key@,
            )),
            if r {
                let (stores, kept_meshes, kept_materials) = old(self).shown(
                    stores_of(*old(meshes), *old(materials)),
                    scene_material_refs@.dom(),
                    new_key@,
                );
                &&& stores_of(*final(meshes), *final(materials)) == stores
                &&& final(self).persistent_meshes@.dom() == kept_meshes
                &&& final(self).persistent_materials@.dom() == kept_materials
                &&& final(self).preview_mesh_key@ == new_key@
                &&& final(self).says("Preview mesh: "@ + new_key@)
            } else {
                &&& stores_of(*final(meshes), *final(materials)) == stores_of(
                    *old(meshes),
                    *old(materials),
                )
                &&& final(self).persistent_meshes == old(self).persistent_meshes
                &&& final(self).persistent_materials == old(self).persistent_materials
                &&& final(self).preview_mesh_key == old(self).preview_mesh_key
                &&& if new_key@ == old(self).preview_mesh_key@ {
                    final(self).mesh_status == old(self).mesh_status
                } else {
                    final(self).says(unavailable_text(new_key@))
                }
            },
    {
        if same_text(new_key.as_str(), self.preview_mesh_key.as_str()) {
            return false;
        }
        if !meshes.has(new_key.as_str()) {
            let start = join3("Mesh '", new_key.as_str(), "' unavailable: ");
            let reason = join3(
                "Mesh '",
                new_key.as_str(),
                "' not registered and no path provided",
            );
            let text = join3(start.as_str(), reason.as_str(), "");
            proof {
                reveal_strlit("");
                assert(text@ =~= unavailable_text(new_key@));
            }
            self.mesh_status = Some(text);
            return false;
        }
        let ghost before = stores_of(*meshes, *materials);
        meshes.retain_ready(new_key.as_str());
        assert(stores_of(*meshes, *materials) == before.mesh_retained(new_key@));
        let previous = self.preview_mesh_key.clone();
        self.preview_mesh_key = new_key.clone();
        let old_materials = Self::parts_of(&*meshes, previous.as_str());
        let new_materials = Self::parts_of(&*meshes, new_key.as_str());
        proof {
            let taken = before.mesh_retained(new_key@);
            assert(texts(old_materials@) =~= taken.mesh_materials(previous@));
            assert(texts(new_materials@) =~= taken.mesh_materials(new_key@));
            assert(texts(old_materials@).len() == old_materials@.len());
            assert(texts(new_materials@).len() == new_materials@.len());
        }
        self.persistent_meshes.insert(new_key.clone(), ());
        assert(self.persistent_meshes@.dom() =~= old(self).persistent_meshes@.dom().insert(
            new_key@,
        ));
        let ghost with_new = self.persistent_meshes@.dom();
        if self.persistent_meshes.remove(previous.as_str()).is_some() {
            release_mesh(meshes, materials, previous.as_str());
        }
        assert(self.persistent_meshes@.dom() =~= with_new.remove(previous@));
        self.take_materials(materials, &new_materials);
        self.leave_materials(materials, scene_material_refs, &old_materials);
        let text = join3("Preview mesh: ", new_key.as_str(), "");
        proof {
            reveal_strlit("");
            assert(text@ =~= "Preview mesh: "@ + new_key@);
        }
        self.mesh_status = Some(text);
        true
    }

    /// Keeps the mesh that is shown and its materials. Stops at the first material that there is
    /// not.
    pub fn ensure_preview_assets<S: Scalar, M, G, T>(
        &mut self,
        meshes: &mut MeshRegistry<S, M>,
        materials: &mut MaterialRegistry<S, G, T>,
    ) -> (r: Result<(), PreviewError>)
        requires
            old(self).wf(),
            old(meshes).wf(),
            old(materials).wf(),
        ensures
            final(self).wf(),
            final(meshes).wf(),
            final(materials).wf(),
            final(materials).default_material == old(materials).default_material,
            final(meshes).default == old(meshes).default,
            final(self).preview_mesh_key == old(self).preview_mesh_key,
            final(self).mesh_status == old(self).mesh_status,
            ({
                let key = old(self).preview_mesh_key@;
                let taken = stores_of(*old(meshes), *old(materials)).mesh_retained(key);
                let wanted = taken.mesh_materials(key);
                let n = found_before(taken.stock, wanted, 0);
                if !old(meshes).entries@.contains_key(key) {
                    &&& r is Err && r->Err_0 is Mesh && r->Err_0->Mesh_error is NoPath
                    &&& r->Err_0->Mesh_error->NoPath_key@ == key
                    &&& stores_of(*final(meshes), *final(materials)) == taken
                    &&& final(self).persistent_meshes == old(self).persistent_meshes
                    &&& final(self).persistent_materials == old(self).persistent_materials
                } else {
                    &&& stores_of(*final(meshes), *final(materials)) == (Stores {
                        stock: taken.stock.all_retained(wanted, n),
                        ..taken
                    })
                    &&& final(self).persistent_meshes@.dom() == old(self).persistent_meshes@.dom().insert(key)
                    &&& final(self).persistent_materials@.dom() == noted(
                        old(self).persistent_materials@.dom(),
                        taken.stock,
                        wanted,
                        n,
                    )
                    &&& if n == wanted.len() {
                        r is Ok
                    } else {
                        &&& r is Err && r->Err_0 is Material
                        &&& r->Err_0->Material_error is NotRegistered
                        &&& r->Err_0->Material_error->NotRegistered_key@ == wanted[n]
                    }
                }
            }),
    {
        if !meshes.has(self.preview_mesh_key.as_str()) {
            return Err(
                PreviewError::Mesh {
                    error: MeshError::NoPath { key: self.preview_mesh_key.clone() },
                },
            );
        }
        let ghost key = self.preview_mesh_key@;
        let ghost taken = stores_of(*meshes, *materials).mesh_retained(key);
        meshes.retain_ready(self.preview_mesh_key.as_str());
        self.persistent_meshes.insert(self.preview_mesh_key.clone(), ());
        assert(self.persistent_meshes@.dom() =~= old(self).persistent_meshes@.dom().insert(key));
        let keys = Self::parts_of(&*meshes, self.preview_mesh_key.as_str());
        let ghost wanted = taken.mesh_materials(key);
        assert(texts(keys@) =~= wanted);
        let ghost stock = materials.stock();
        let mut i: usize = 0;
        while i < keys.len()
            invariant
                i <= keys@.len(),
                self.wf(),
                meshes.wf(),
                materials.wf(),
                materials.default_material == old(materials).default_material,
                meshes.default == old(meshes).default,
                texts(keys@) == wanted,
                wanted.len() == keys@.len(),
                self.preview_mesh_key == old(self).preview_mesh_key,
                self.mesh_status == old(self).mesh_status,
                self.persistent_meshes@.dom() == old(self).persistent_meshes@.dom().insert(key),
                key == old(self).preview_mesh_key@,
                wanted == taken.mesh_materials(key),
                taken == stores_of(*old(meshes), *old(materials)).mesh_retained(key),
                taken.stock == stock,
                old(meshes).entries@.contains_key(key),
                stores_of(*meshes, *materials) == (Stores {
                    stock: stock.all_retained(wanted, i as int),
                    ..taken
                }),
                self.persistent_materials@.dom() == noted(
                    old(self).persistent_materials@.dom(),
                    stock,
                    wanted,
                    i as int,
                ),
                found_before(stock, wanted, 0) == found_before(stock, wanted, i as int),
            decreases keys@.len() - i,
        {
            let ghost kept = self.persistent_materials@;
            assert(wanted[i as int] == keys@[i as int]@);
            match materials.retain(keys[i].as_str()) {
                Ok(_) => {
                    self.persistent_materials.insert(keys[i].clone(), ());
                    assert(self.persistent_materials@.dom() =~= kept.dom().insert(
                        keys@[i as int]@,
                    ));
                },
                Err(error) => {
                    return Err(PreviewError::Material { error });
                },
            }
            i = i + 1;
        }
        Ok(())
    }

    /// Lets go of all that is kept.
    pub fn shutdown<S: Scalar, M, G, T>(
        &mut self,
        meshes: &mut MeshRegistry<S, M>,
        materials: &mut MaterialRegistry<S, G, T>,
    )
        requires
            old(self).wf(),
            old(meshes).wf(),
            old(materials).wf(),
        ensures
            final(self).wf(),
            final(meshes).wf(),
            final(materials).wf(),
            final(materials).default_material == old(materials).default_material,
            final(meshes).default == old(meshes).default,
            final(self).preview_mesh_key == old(self).preview_mesh_key,
            final(self).mesh_status == old(self).mesh_status,
            final(self).persistent_meshes@ == Map::<Seq<char>, ()>::empty(),
            final(self).persistent_materials@ == Map::<Seq<char>, ()>::empty(),
            ({
                let mesh_keys = old(self).persistent_meshes.key_seq();
                let material_keys = old(self).persistent_materials.key_seq();
                let left = stores_of(*old(meshes), *old(materials)).all_meshes_released(
                    mesh_keys,
                    mesh_keys.len() as int,
                );
                stores_of(*final(meshes), *final(materials)) == (Stores {
                    stock: left.stock.all_released(material_keys, material_keys.len() as int),
                    ..left
                })
            }),
    {
        let mesh_keys = self.persistent_meshes.keys();
        let material_keys = self.persistent_materials.keys();
        assert(texts(mesh_keys@) =~= self.persistent_meshes.key_seq());
        assert(texts(material_keys@) =~= self.persistent_materials.key_seq());
        self.persistent_meshes = TextMap::new();
        self.persistent_materials = TextMap::new();
        let ghost before = stores_of(*meshes, *materials);
        let mut i: usize = 0;
        while i < mesh_keys.len()
            invariant
                i <= mesh_keys@.len(),
                meshes.wf(),
                materials.wf(),
                materials.default_material == old(materials).default_material,
                meshes.default == old(meshes).default,
                stores_of(*meshes, *materials) == before.all_meshes_released(
                    texts(mesh_keys@),
                    i as int,
                ),
            decreases mesh_keys@.len() - i,
        {
            release_mesh(meshes, materials, mesh_keys[i].as_str());
            i = i + 1;
        }
        let ghost left = materials.stock();
        let mut k: usize = 0;
        while k < material_keys.len()
            invariant
                k <= material_keys@.len(),
                materials.wf(),
                materials.default_material == old(materials).default_material,
                materials.stock() == left.all_released(texts(material_keys@), k as int),
            decreases material_keys@.len() - k,
        {
            materials.release(material_keys[k].as_str());
            k = k + 1;
        }
    }
}

/// How many materials there are before the first one that there is not, from the `i`-th on.
pub open spec fn found_before<S, G, T>(stock: Stock<S, G, T>, keys: Seq<Seq<char>>, i: int) -> int
    decreases keys.len() - i,
{
    if i < 0 || i >= keys.len() {
        keys.len() as int
    } else if stock.all_retained(keys, i).materials.contains_key(keys[i]) {
        found_before(stock, keys, i + 1)
    } else {
        i
    }
}

/// A mesh that gains a user and loses it again is as it was.
pub proof fn law_mesh_stores_come_back<S: Scalar, M, G, T>(
    stores: Stores<S, M, G, T>,
    key: Seq<char>,
)
    requires
        stores.meshes.contains_key(key),
        stores.meshes[key].ref_count < usize::MAX,
        stores.meshes[key].ref_count > 0 || stores.meshes[key].permanent,
    ensures
        stores.mesh_retained(key).mesh_released(key) == stores,
{
    let e = stores.meshes[key];
    let back = stores.mesh_retained(key).mesh_released(key);
    assert(back.meshes =~= stores.meshes);
    assert(back.stock == stores.stock);
}

} // verus!
