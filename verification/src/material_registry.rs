//! Materials and textures: who uses them, and what is kept of them.
use std::sync::Arc;
use vstd::prelude::*;
use crate::mesh_import::{ImportedMaterial, ImportedTexture, MaterialTextureBinding};
use crate::scalar::Scalar;
use crate::text::join3;
use crate::text_map::TextMap;
use crate::vectors::{Vec3, Vec4};

verus! {

pub struct MaterialDefinition<S> {
    pub key: String,
    pub label: String,
    pub base_color_factor: Vec4<S>,
    pub metallic_factor: S,
    pub roughness_factor: S,
    pub emissive_factor: Vec3<S>,
    pub base_color_texture: Option<MaterialTextureBinding<S>>,
    pub metallic_roughness_texture: Option<MaterialTextureBinding<S>>,
    pub normal_texture: Option<MaterialTextureBinding<S>>,
    pub emissive_texture: Option<MaterialTextureBinding<S>>,
    pub source: Option<String>,
}

/// The definition that an imported material gives.
pub open spec fn definition_of<S>(m: ImportedMaterial<S>) -> MaterialDefinition<S> {
    MaterialDefinition {
        key: m.key,
        label: m.label,
        base_color_factor: m.base_color_factor,
        metallic_factor: m.metallic_factor,
        roughness_factor: m.roughness_factor,
        emissive_factor: m.emissive_factor,
        base_color_texture: m.base_color_texture,
        metallic_roughness_texture: m.metallic_roughness_texture,
        normal_texture: m.normal_texture,
        emissive_texture: m.emissive_texture,
        source: m.source,
    }
}

fn define<S>(m: ImportedMaterial<S>) -> (r: MaterialDefinition<S>)
    ensures
        r == definition_of(m),
{
    MaterialDefinition {
        key: m.key,
        label: m.label,
        base_color_factor: m.base_color_factor,
        metallic_factor: m.metallic_factor,
        roughness_factor: m.roughness_factor,
        emissive_factor: m.emissive_factor,
        base_color_texture: m.base_color_texture,
        metallic_roughness_texture: m.metallic_roughness_texture,
        normal_texture: m.normal_texture,
        emissive_texture: m.emissive_texture,
        source: m.source,
    }
}

/// A material; `G` is what of it is on the GPU.
pub struct MaterialEntry<S, G> {
    pub definition: Arc<MaterialDefinition<S>>,
    pub gpu: Option<G>,
    pub ref_count: usize,
    pub permanent: bool,
}

impl<S, G> MaterialEntry<S, G> {
    pub open spec fn texture_keys(self) -> Seq<Seq<char>> {
        self.definition.texture_keys()
    }
}

/// A texture; `T` is what of it is on the GPU, once for colours and once for numbers.
pub struct TextureEntry<T> {
    pub width: u32,
    pub height: u32,
    pub data: Vec<u8>,
    pub gpu_srgb: Option<T>,
    pub gpu_linear: Option<T>,
}

pub struct MaterialRegistry<S, G, T> {
    pub materials: TextMap<MaterialEntry<S, G>>,
    pub textures: TextMap<TextureEntry<T>>,
    /// How many materials use a texture.
    pub texture_material_refs: TextMap<usize>,
    pub default_material: String,
}

/// A registry as plain values.
pub struct Stock<S, G, T> {
    pub materials: Map<Seq<char>, MaterialEntry<S, G>>,
    pub textures: Map<Seq<char>, TextureEntry<T>>,
    pub refs: Map<Seq<char>, usize>,
}

pub open spec fn binding_key<S>(binding: Option<MaterialTextureBinding<S>>) -> Seq<Seq<char>> {
    match binding {
        Some(b) => seq![b.texture_key@],
        None => Seq::empty(),
    }
}

impl<S> MaterialDefinition<S> {
    /// The textures that a material uses: of its colour, metal and roughness, normals and glow.
    pub open spec fn texture_keys(self) -> Seq<Seq<char>> {
        binding_key(self.base_color_texture) + binding_key(self.metallic_roughness_texture)
            + binding_key(self.normal_texture) + binding_key(self.emissive_texture)
    }
}

pub open spec fn one_more(count: usize) -> usize {
    if count == usize::MAX {
        count
    } else {
        (count + 1) as usize
    }
}

impl<S, G, T> Stock<S, G, T> {
    /// One more material uses a texture.
    pub open spec fn used_more(self, key: Seq<char>) -> Self {
        Stock {
            refs: self.refs.insert(
                key,
                one_more(
                    if self.refs.contains_key(key) {
                        self.refs[key]
                    } else {
                        0
                    },
                ),
            ),
            ..self
        }
    }

    /// One material less uses a texture; the last one takes it along.
    pub open spec fn used_less(self, key: Seq<char>) -> Self {
        if !self.refs.contains_key(key) {
            self
        } else if self.refs[key] <= 1 {
            Stock { refs: self.refs.remove(key), textures: self.textures.remove(key), ..self }
        } else {
            Stock { refs: self.refs.insert(key, (self.refs[key] - 1) as usize), ..self }
        }
    }

    /// The first `n` keys used once more.
    pub open spec fn all_used_more(self, keys: Seq<Seq<char>>, n: int) -> Self
        decreases n,
    {
        if n <= 0 {
            self
        } else {
            self.all_used_more(keys, n - 1).used_more(keys[n - 1])
        }
    }

    pub open spec fn all_used_less(self, keys: Seq<Seq<char>>, n: int) -> Self
        decreases n,
    {
        if n <= 0 {
            self
        } else {
            self.all_used_less(keys, n - 1).used_less(keys[n - 1])
        }
    }

    pub open spec fn textures_taken(self, d: MaterialDefinition<S>) -> Self {
        self.all_used_more(d.texture_keys(), d.texture_keys().len() as int)
    }

    pub open spec fn textures_left(self, d: MaterialDefinition<S>) -> Self {
        self.all_used_less(d.texture_keys(), d.texture_keys().len() as int)
    }

    pub open spec fn with_texture(self, t: ImportedTexture) -> Self {
        Stock {
            textures: self.textures.insert(
                t.key@,
                TextureEntry {
                    width: t.width,
                    height: t.height,
                    data: t.data,
                    gpu_srgb: None,
                    gpu_linear: None,
                },
            ),
            ..self
        }
    }

    /// A material put in. One of the same key keeps its users, and gives its textures back first.
    pub open spec fn with_material(self, m: ImportedMaterial<S>) -> Self {
        let key = m.key@;
        let d = definition_of(m);
        if self.materials.contains_key(key) {
            let entry = self.materials[key];
            let without = Stock { materials: self.materials.remove(key), ..self };
            let taken = without.textures_left(*entry.definition).textures_taken(d);
            Stock {
                materials: taken.materials.insert(
                    key,
                    MaterialEntry { definition: Arc::new(d), gpu: None, ..entry },
                ),
                ..taken
            }
        } else {
            let taken = self.textures_taken(d);
            Stock {
                materials: taken.materials.insert(
                    key,
                    MaterialEntry {
                        definition: Arc::new(d),
                        gpu: None,
                        ref_count: 0,
                        permanent: false,
                    },
                ),
                ..taken
            }
        }
    }

    pub open spec fn with_textures(self, textures: Seq<ImportedTexture>, n: int) -> Self
        decreases n,
    {
        if n <= 0 {
            self
        } else {
            self.with_textures(textures, n - 1).with_texture(textures[n - 1])
        }
    }

    pub open spec fn with_materials(self, materials: Seq<ImportedMaterial<S>>, n: int) -> Self
        decreases n,
    {
        if n <= 0 {
            self
        } else {
            self.with_materials(materials, n - 1).with_material(materials[n - 1])
        }
    }

    /// An import taken in: textures first.
    pub open spec fn imported(self, materials: Seq<ImportedMaterial<S>>, textures: Seq<ImportedTexture>) -> Self {
        self.with_textures(textures, textures.len() as int).with_materials(
            materials,
            materials.len() as int,
        )
    }

    pub open spec fn retained(self, key: Seq<char>) -> Self {
        if self.materials.contains_key(key) {
            let entry = self.materials[key];
            Stock {
                materials: self.materials.insert(
                    key,
                    MaterialEntry { ref_count: one_more(entry.ref_count), ..entry },
                ),
                ..self
            }
        } else {
            self
        }
    }

    /// One user less of a material: the last one takes what is on the GPU along, and the material
    /// too unless it is there for good.
    pub open spec fn released(self, key: Seq<char>) -> Self {
        if !self.materials.contains_key(key) {
            self
        } else {
            let entry = self.materials[key];
            let left = if entry.ref_count > 0 {
                (entry.ref_count - 1) as usize
            } else {
                0
            };
            if left == 0 && !entry.permanent {
                Stock { materials: self.materials.remove(key), ..self }.textures_left(
                    *entry.definition,
                )
            } else {
                Stock {
                    materials: self.materials.insert(
                        key,
                        MaterialEntry {
                            ref_count: left,
                            gpu: if left == 0 {
                                None
                            } else {
                                entry.gpu
                            },
                            ..entry
                        },
                    ),
                    ..self
                }
            }
        }
    }

    /// The first `n` keys retained one after the other.
    pub open spec fn all_retained(self, keys: Seq<Seq<char>>, n: int) -> Self
        decreases n,
    {
        if n <= 0 {
            self
        } else {
            self.all_retained(keys, n - 1).retained(keys[n - 1])
        }
    }

    pub open spec fn all_released(self, keys: Seq<Seq<char>>, n: int) -> Self
        decreases n,
    {
        if n <= 0 {
            self
        } else {
            self.all_released(keys, n - 1).released(keys[n - 1])
        }
    }
}

/// Why a material cannot be had.
pub enum MaterialError {
    NotRegistered { key: String },
    TextureNotRegistered { key: String },
}

impl MaterialError {
    pub open spec fn text(self) -> Seq<char> {
        match self {
            MaterialError::NotRegistered { key } => "Material '"@ + key@ + "' not registered"@,
            MaterialError::TextureNotRegistered { key } => "Texture '"@ + key@
                + "' not registered for materials"@,
        }
    }

    pub fn message(&self) -> (r: String)
        ensures
            r@ == self.text(),
    {
        match self {
            MaterialError::NotRegistered { key } => join3(
                "Material '",
                key.as_str(),
                "' not registered",
            ),
            MaterialError::TextureNotRegistered { key } => join3(
                "Texture '",
                key.as_str(),
                "' not registered for materials",
            ),
        }
    }
}

impl<S: Scalar, G, T> MaterialRegistry<S, G, T> {
    pub open spec fn wf(self) -> bool {
        &&& self.materials.wf()
        &&& self.textures.wf()
        &&& self.texture_material_refs.wf()
    }

    pub open spec fn stock(self) -> Stock<S, G, T> {
        Stock {
            materials: self.materials@,
            textures: self.textures@,
            refs: self.texture_material_refs@,
        }
    }

    pub fn new() -> (r: Self)
        ensures
            r.wf(),
            r.default_material@ == "material::default"@,
            r.stock().textures == Map::<Seq<char>, TextureEntry<T>>::empty(),
            r.stock().refs == Map::<Seq<char>, usize>::empty(),
            r.stock().materials.dom() =~= set!["material::default"@],
            ({
                let e = r.stock().materials["material::default"@];
                let d = *e.definition;
                let zero = S::zero_spec();
                let one = S::one_spec();
                &&& e.gpu is None && e.ref_count == 0 && e.permanent
                &&& d.key@ == "material::default"@
                &&& d.label@ == "Default"@
                &&& d.base_color_factor == (Vec4 { x: one, y: one, z: one, w: one })
                &&& d.metallic_factor == zero
                &&& d.roughness_factor == one
                &&& d.emissive_factor == (Vec3 { x: zero, y: zero, z: zero })
                &&& d.texture_keys() == Seq::<Seq<char>>::empty()
                &&& d.source is None
            }),
    {
        let zero = S::zero();
        let one = S::one();
        let definition = MaterialDefinition {
            key: "material::default".to_owned(),
            label: "Default".to_owned(),
            base_color_factor: Vec4 { x: one, y: one, z: one, w: one },
            metallic_factor: zero,
            roughness_factor: one,
            emissive_factor: Vec3 { x: zero, y: zero, z: zero },
            base_color_texture: None,
            metallic_roughness_texture: None,
            normal_texture: None,
            emissive_texture: None,
            source: None,
        };
        assert(definition.texture_keys() =~= Seq::<Seq<char>>::empty());
        let mut materials: TextMap<MaterialEntry<S, G>> = TextMap::new();
        materials.insert(
            "material::default".to_owned(),
            MaterialEntry {
                definition: Arc::new(definition),
                gpu: None,
                ref_count: 0,
                permanent: true,
            },
        );
        MaterialRegistry {
            materials,
            textures: TextMap::new(),
            texture_material_refs: TextMap::new(),
            default_material: "material::default".to_owned(),
        }
    }

    fn use_more(&mut self, key: &str)
        requires
            old(self).wf(),
        ensures
            final(self).wf(),
            final(self).default_material == old(self).default_material,
            final(self).stock() == old(self).stock().used_more(key@),
    {
        let count: usize = match self.texture_material_refs.get(key) {
            Some(count) => *count,
            None => 0,
        };
        self.texture_material_refs.insert(key.to_owned(), count.saturating_add(1));
    }

    fn use_less(&mut self, key: &str)
        requires
            old(self).wf(),
        ensures
            final(self).wf(),
            final(self).default_material == old(self).default_material,
            final(self).stock() == old(self).stock().used_less(key@),
    {
        let count: usize = match self.texture_material_refs.get(key) {
            Some(count) => *count,
            None => {
                return ;
            },
        };
        if count <= 1 {
            self.texture_material_refs.remove(key);
            self.textures.remove(key);
        } else {
            self.texture_material_refs.insert(key.to_owned(), count - 1);
        }
    }

    fn take_textures(&mut self, keys: &Vec<String>)
        requires
            old(self).wf(),
        ensures
            final(self).wf(),
            final(self).default_material == old(self).default_material,
            final(self).stock() == old(self).stock().all_used_more(
                texts(keys@),
                keys@.len() as int,
            ),
    {
        let mut i: usize = 0;
        while i < keys.len()
            invariant
                i <= keys@.len(),
                self.wf(),
                self.default_material == old(self).default_material,
                self.stock() == old(self).stock().all_used_more(texts(keys@), i as int),
            decreases keys@.len() - i,
        {
            self.use_more(keys[i].as_str());
            i = i + 1;
        }
    }

    fn leave_textures(&mut self, keys: &Vec<String>)
        requires
            old(self).wf(),
        ensures
            final(self).wf(),
            final(self).default_material == old(self).default_material,
            final(self).stock() == old(self).stock().all_used_less(
                texts(keys@),
                keys@.len() as int,
            ),
    {
        let mut i: usize = 0;
        while i < keys.len()
            invariant
                i <= keys@.len(),
                self.wf(),
                self.default_material == old(self).default_material,
                self.stock() == old(self).stock().all_used_less(texts(keys@), i as int),
            decreases keys@.len() - i,
        {
            self.use_less(keys[i].as_str());
            i = i + 1;
        }
    }

    fn put_texture(&mut self, t: ImportedTexture) -> (r: Option<TextureEntry<T>>)
        requires
            old(self).wf(),
        ensures
            final(self).wf(),
            final(self).default_material == old(self).default_material,
            final(self).stock() == old(self).stock().with_texture(t),
            r == (if old(self).stock().textures.contains_key(t.key@) {
                Some(old(self).stock().textures[t.key@])
            } else {
                None
            }),
    {
        let before = self.textures.remove(t.key.as_str());
        self.textures.insert(
            t.key,
            TextureEntry {
                width: t.width,
                height: t.height,
                data: t.data,
                gpu_srgb: None,
                gpu_linear: None,
            },
        );
        assert(self.textures@ =~= old(self).stock().with_texture(t).textures);
        before
    }

    fn put_material(&mut self, m: ImportedMaterial<S>) -> (r: Option<MaterialEntry<S, G>>)
        requires
            old(self).wf(),
        ensures
            final(self).wf(),
            final(self).default_material == old(self).default_material,
            final(self).stock() == old(self).stock().with_material(m),
            r == (if old(self).stock().materials.contains_key(m.key@) {
                Some(old(self).stock().materials[m.key@])
            } else {
                None
            }),
    {
        let key = m.key.clone();
        let definition = Arc::new(define(m));
        let keys = list_texture_keys(&definition);
        match self.materials.remove(key.as_str()) {
            Some(entry) => {
                let former = list_texture_keys(&entry.definition);
                self.leave_textures(&former);
                self.take_textures(&keys);
                self.materials.insert(
                    key,
                    MaterialEntry {
                        definition,
                        gpu: None,
                        ref_count: entry.ref_count,
                        permanent: entry.permanent,
                    },
                );
                Some(entry)
            },
            None => {
                self.take_textures(&keys);
                self.materials.insert(
                    key,
                    MaterialEntry { definition, gpu: None, ref_count: 0, permanent: false },
                );
                None
            },
        }
    }
}

pub open spec fn texts(list: Seq<String>) -> Seq<Seq<char>> {
    list.map_values(|t: String| t@)
}

fn push_binding<S>(binding: &Option<MaterialTextureBinding<S>>, out: &mut Vec<String>)
    ensures
        texts(final(out)@) == texts(old(out)@) + binding_key(*binding),
{
    if let Some(b) = binding {
        out.push(b.texture_key.clone());
    }
    assert(texts(out@) =~= texts(old(out)@) + binding_key(*binding));
}

fn list_texture_keys<S>(d: &MaterialDefinition<S>) -> (r: Vec<String>)
    ensures
        texts(r@) == d.texture_keys(),
        r@.len() == d.texture_keys().len(),
{
    let mut out: Vec<String> = Vec::new();
    push_binding(&d.base_color_texture, &mut out);
    push_binding(&d.metallic_roughness_texture, &mut out);
    push_binding(&d.normal_texture, &mut out);
    push_binding(&d.emissive_texture, &mut out);
    assert(texts(out@) =~= d.texture_keys());
    assert(texts(out@).len() == out@.len());
    out
}

/// What an import replaced and what it added, so that it can be taken back.
pub struct ImportSnapshot<S, G, T> {
    pub overwritten_materials: TextMap<MaterialEntry<S, G>>,
    pub new_materials: Vec<String>,
    pub overwritten_textures: TextMap<TextureEntry<T>>,
    pub new_textures: Vec<String>,
}

impl<S, G, T> ImportSnapshot<S, G, T> {
    pub open spec fn wf(self) -> bool {
        self.overwritten_materials.wf() && self.overwritten_textures.wf()
    }

    /// What is noted of textures after the first `n` were put into `stock`.
    pub open spec fn textures_noted(
        self,
        stock: Stock<S, G, T>,
        textures: Seq<ImportedTexture>,
        n: int,
    ) -> bool {
        &&& self.overwritten_textures@ == overwritten_by(stock, textures, n)
        &&& texts(self.new_textures@) == added_by(stock, textures, n)
    }

    pub open spec fn materials_noted(
        self,
        stock: Stock<S, G, T>,
        materials: Seq<ImportedMaterial<S>>,
        n: int,
    ) -> bool {
        &&& self.overwritten_materials@ == replaced_by(stock, materials, n)
        &&& texts(self.new_materials@) == introduced_by(stock, materials, n)
    }
}

/// The textures that the first `n` of an import replaced.
pub open spec fn overwritten_by<S, G, T>(
    stock: Stock<S, G, T>,
    textures: Seq<ImportedTexture>,
    n: int,
) -> Map<Seq<char>, TextureEntry<T>>
    decreases n,
{
    if n <= 0 {
        Map::empty()
    } else {
        let before = stock.with_textures(textures, n - 1);
        let key = textures[n - 1].key@;
        if before.textures.contains_key(key) {
            overwritten_by(stock, textures, n - 1).insert(key, before.textures[key])
        } else {
            overwritten_by(stock, textures, n - 1)
        }
    }
}

/// The keys of the textures that the first `n` of an import added.
pub open spec fn added_by<S, G, T>(
    stock: Stock<S, G, T>,
    textures: Seq<ImportedTexture>,
    n: int,
) -> Seq<Seq<char>>
    decreases n,
{
    if n <= 0 {
        Seq::empty()
    } else {
        let key = textures[n - 1].key@;
        if stock.with_textures(textures, n - 1).textures.contains_key(key) {
            added_by(stock, textures, n - 1)
        } else {
            added_by(stock, textures, n - 1).push(key)
        }
    }
}

/// The materials that the first `n` of an import replaced.
pub open spec fn replaced_by<S, G, T>(
    stock: Stock<S, G, T>,
    materials: Seq<ImportedMaterial<S>>,
    n: int,
) -> Map<Seq<char>, MaterialEntry<S, G>>
    decreases n,
{
    if n <= 0 {
        Map::empty()
    } else {
        let before = stock.with_materials(materials, n - 1);
        let key = materials[n - 1].key@;
        if before.materials.contains_key(key) {
            replaced_by(stock, materials, n - 1).insert(key, before.materials[key])
        } else {
            replaced_by(stock, materials, n - 1)
        }
    }
}

/// The keys of the materials that the first `n` of an import added.
pub open spec fn introduced_by<S, G, T>(
    stock: Stock<S, G, T>,
    materials: Seq<ImportedMaterial<S>>,
    n: int,
) -> Seq<Seq<char>>
    decreases n,
{
    if n <= 0 {
        Seq::empty()
    } else {
        let key = materials[n - 1].key@;
        if stock.with_materials(materials, n - 1).materials.contains_key(key) {
            introduced_by(stock, materials, n - 1)
        } else {
            introduced_by(stock, materials, n - 1).push(key)
        }
    }
}

proof fn lemma_texts_push(list: Seq<String>, text: String)
    ensures
        texts(list.push(text)) == texts(list).push(text@),
{
    assert(texts(list.push(text)) =~= texts(list).push(text@));
}

impl<S: Scalar, G, T> MaterialRegistry<S, G, T> {
    fn register_textures(
        &mut self,
        textures: Vec<ImportedTexture>,
        snapshot: &mut ImportSnapshot<S, G, T>,
    )
        requires
            old(self).wf(),
            old(snapshot).wf(),
            old(snapshot).textures_noted(old(self).stock(), textures@, 0),
        ensures
            final(self).wf(),
            final(snapshot).wf(),
            final(self).default_material == old(self).default_material,
            final(self).stock() == old(self).stock().with_textures(
                textures@,
                textures@.len() as int,
            ),
            final(snapshot).overwritten_materials == old(snapshot).overwritten_materials,
            final(snapshot).new_materials == old(snapshot).new_materials,
            final(snapshot).textures_noted(
                old(self).stock(),
                textures@,
                textures@.len() as int,
            ),
    {
        let ghost all = textures@;
        let mut rest = textures;
        let ghost mut i: int = 0;
        while rest.len() > 0
            invariant
                0 <= i <= all.len(),
                rest@ == all.skip(i),
                self.wf(),
                snapshot.wf(),
                self.default_material == old(self).default_material,
                self.stock() == old(self).stock().with_textures(all, i),
                snapshot.overwritten_materials == old(snapshot).overwritten_materials,
                snapshot.new_materials == old(snapshot).new_materials,
                snapshot.textures_noted(old(self).stock(), all, i),
            decreases rest@.len(),
        {
            let texture = rest.remove(0);
            assert(texture == all[i]);
            let key = texture.key.clone();
            match self.put_texture(texture) {
                Some(existing) => {
                    snapshot.overwritten_textures.insert(key, existing);
                },
                None => {
                    proof {
                        lemma_texts_push(snapshot.new_textures@, key);
                    }
                    snapshot.new_textures.push(key);
                },
            }
            proof {
                assert(rest@ =~= all.skip(i + 1));
                i = i + 1;
            }
        }
    }

    fn register_materials(
        &mut self,
        materials: Vec<ImportedMaterial<S>>,
        snapshot: &mut ImportSnapshot<S, G, T>,
    )
        requires
            old(self).wf(),
            old(snapshot).wf(),
            old(snapshot).materials_noted(old(self).stock(), materials@, 0),
        ensures
            final(self).wf(),
            final(snapshot).wf(),
            final(self).default_material == old(self).default_material,
            final(self).stock() == old(self).stock().with_materials(
                materials@,
                materials@.len() as int,
            ),
            final(snapshot).overwritten_textures == old(snapshot).overwritten_textures,
            final(snapshot).new_textures == old(snapshot).new_textures,
            final(snapshot).materials_noted(
                old(self).stock(),
                materials@,
                materials@.len() as int,
            ),
    {
        let ghost all = materials@;
        let mut rest = materials;
        let ghost mut i: int = 0;
        while rest.len() > 0
            invariant
                0 <= i <= all.len(),
                rest@ == all.skip(i),
                self.wf(),
                snapshot.wf(),
                self.default_material == old(self).default_material,
                self.stock() == old(self).stock().with_materials(all, i),
                snapshot.overwritten_textures == old(snapshot).overwritten_textures,
                snapshot.new_textures == old(snapshot).new_textures,
                snapshot.materials_noted(old(self).stock(), all, i),
            decreases rest@.len(),
        {
            let material = rest.remove(0);
            assert(material == all[i]);
            let key = material.key.clone();
            match self.put_material(material) {
                Some(existing) => {
                    snapshot.overwritten_materials.insert(key, existing);
                },
                None => {
                    proof {
                        lemma_texts_push(snapshot.new_materials@, key);
                    }
                    snapshot.new_materials.push(key);
                },
            }
            proof {
                assert(rest@ =~= all.skip(i + 1));
                i = i + 1;
            }
        }
    }

    /// Takes an import in, and notes what it replaced and added.
    pub fn register_gltf_import_with_snapshot(
        &mut self,
        materials: Vec<ImportedMaterial<S>>,
        textures: Vec<ImportedTexture>,
    ) -> (snapshot: ImportSnapshot<S, G, T>)
        requires
            old(self).wf(),
        ensures
            final(self).wf(),
            snapshot.wf(),
            final(self).default_material == old(self).default_material,
            final(self).stock() == old(self).stock().imported(materials@, textures@),
            snapshot.textures_noted(old(self).stock(), textures@, textures@.len() as int),
            snapshot.materials_noted(
                old(self).stock().with_textures(textures@, textures@.len() as int),
                materials@,
                materials@.len() as int,
            ),
    {
        let mut snapshot = ImportSnapshot {
            overwritten_materials: TextMap::new(),
            new_materials: Vec::new(),
            overwritten_textures: TextMap::new(),
            new_textures: Vec::new(),
        };
        assert(texts(snapshot.new_materials@) =~= Seq::empty());
        assert(texts(snapshot.new_textures@) =~= Seq::empty());
        self.register_textures(textures, &mut snapshot);
        self.register_materials(materials, &mut snapshot);
        snapshot
    }

    /// Takes an import in.
    pub fn register_gltf_import(
        &mut self,
        materials: Vec<ImportedMaterial<S>>,
        textures: Vec<ImportedTexture>,
    )
        requires
            old(self).wf(),
        ensures
            final(self).wf(),
            final(self).default_material == old(self).default_material,
            final(self).stock() == old(self).stock().imported(materials@, textures@),
    {
        let _ = self.register_gltf_import_with_snapshot(materials, textures);
    }

    pub fn default_key(&self) -> (r: &str)
        ensures
            r@ == self.default_material@,
    {
        self.default_material.as_str()
    }

    pub fn has(&self, key: &str) -> (r: bool)
        requires
            self.wf(),
        ensures
            r == self.stock().materials.contains_key(key@),
    {
        self.materials.contains_key(key)
    }

    pub fn keys(&self) -> (r: Vec<String>)
        ensures
            texts(r@) == self.materials.key_seq(),
    {
        let keys = self.materials.keys();
        assert(texts(keys@) =~= self.materials.key_seq());
        keys
    }

    pub fn definition(&self, key: &str) -> (r: Option<&MaterialDefinition<S>>)
        requires
            self.wf(),
        ensures
            match r {
                Some(d) => self.stock().materials.contains_key(key@) && *d
                    == *self.stock().materials[key@].definition,
                None => !self.stock().materials.contains_key(key@),
            },
    {
        match self.materials.get(key) {
            Some(entry) => Some(&*entry.definition),
            None => None,
        }
    }

    pub fn material_source(&self, key: &str) -> (r: Option<&str>)
        requires
            self.wf(),
        ensures
            match r {
                Some(source) => self.stock().materials.contains_key(key@)
                    && self.stock().materials[key@].definition.source is Some && source@
                    == self.stock().materials[key@].definition.source->0@,
                None => self.stock().materials.contains_key(key@)
                    ==> self.stock().materials[key@].definition.source is None,
            },
    {
        match self.materials.get(key) {
            Some(entry) => match &entry.definition.source {
                Some(source) => Some(source.as_str()),
                None => None,
            },
            None => None,
        }
    }

    pub fn ref_count(&self, key: &str) -> (r: Option<usize>)
        requires
            self.wf(),
        ensures
            r == (if self.stock().materials.contains_key(key@) {
                Some(self.stock().materials[key@].ref_count)
            } else {
                None
            }),
    {
        match self.materials.get(key) {
            Some(entry) => Some(entry.ref_count),
            None => None,
        }
    }

    /// One more user of a material; an error where there is no such material.
    pub fn retain(&mut self, key: &str) -> (r: Result<(), MaterialError>)
        requires
            old(self).wf(),
        ensures
            final(self).wf(),
            final(self).default_material == old(self).default_material,
            final(self).stock() == old(self).stock().retained(key@),
            match r {
                Ok(_) => old(self).stock().materials.contains_key(key@),
                Err(e) => !old(self).stock().materials.contains_key(key@)
                    && e is NotRegistered && e->NotRegistered_key@ == key@,
            },
    {
        match self.materials.get_mut(key) {
            Some(entry) => {
                entry.ref_count = entry.ref_count.saturating_add(1);
                Ok(())
            },
            None => Err(MaterialError::NotRegistered { key: key.to_owned() }),
        }
    }

    /// One user less of a material.
    pub fn release(&mut self, key: &str)
        requires
            old(self).wf(),
        ensures
            final(self).wf(),
            final(self).default_material == old(self).default_material,
            final(self).stock() == old(self).stock().released(key@),
    {
        let mut gone: bool = false;
        if let Some(entry) = self.materials.get_mut(key) {
            if entry.ref_count > 0 {
                entry.ref_count = entry.ref_count - 1;
            }
            if entry.ref_count == 0 {
                entry.gpu = None;
                gone = !entry.permanent;
            }
        }
        if gone {
            if let Some(entry) = self.materials.remove(key) {
                assert(self.materials@ =~= old(self).materials@.remove(key@));
                let keys = list_texture_keys(&entry.definition);
                self.leave_textures(&keys);
            }
        }
    }
}

/// A material that was replaced put back; it keeps the users that the one in its place has.
pub open spec fn put_back<S, G, T>(
    stock: Stock<S, G, T>,
    key: Seq<char>,
    previous: MaterialEntry<S, G>,
) -> Stock<S, G, T> {
    if stock.materials.contains_key(key) {
        let entry = stock.materials[key];
        let without = Stock { materials: stock.materials.remove(key), ..stock };
        let taken = without.textures_left(*entry.definition).textures_taken(*previous.definition);
        Stock {
            materials: taken.materials.insert(
                key,
                MaterialEntry {
                    ref_count: entry.ref_count,
                    permanent: entry.permanent,
                    ..previous
                },
            ),
            ..taken
        }
    } else {
        stock
    }
}

/// A material that was added taken out again.
pub open spec fn taken_out<S, G, T>(stock: Stock<S, G, T>, key: Seq<char>) -> Stock<S, G, T> {
    if stock.materials.contains_key(key) {
        Stock { materials: stock.materials.remove(key), ..stock }.textures_left(
            *stock.materials[key].definition,
        )
    } else {
        stock
    }
}

pub open spec fn all_taken_out<S, G, T>(stock: Stock<S, G, T>, keys: Seq<Seq<char>>, n: int) -> Stock<
    S,
    G,
    T,
>
    decreases n,
{
    if n <= 0 {
        stock
    } else {
        taken_out(all_taken_out(stock, keys, n - 1), keys[n - 1])
    }
}

pub open spec fn all_put_back<S, G, T>(
    stock: Stock<S, G, T>,
    previous: Seq<(String, MaterialEntry<S, G>)>,
    n: int,
) -> Stock<S, G, T>
    decreases n,
{
    if n <= 0 {
        stock
    } else {
        put_back(
            all_put_back(stock, previous, n - 1),
            previous[n - 1].0@,
            previous[n - 1].1,
        )
    }
}

/// The first `n` textures and the counts of their users dropped.
pub open spec fn all_dropped<S, G, T>(stock: Stock<S, G, T>, keys: Seq<Seq<char>>, n: int) -> Stock<
    S,
    G,
    T,
>
    decreases n,
{
    if n <= 0 {
        stock
    } else {
        let before = all_dropped(stock, keys, n - 1);
        Stock {
            textures: before.textures.remove(keys[n - 1]),
            refs: before.refs.remove(keys[n - 1]),
            ..before
        }
    }
}

pub open spec fn all_restored<S, G, T>(
    stock: Stock<S, G, T>,
    previous: Seq<(String, TextureEntry<T>)>,
    n: int,
) -> Stock<S, G, T>
    decreases n,
{
    if n <= 0 {
        stock
    } else {
        let before = all_restored(stock, previous, n - 1);
        Stock {
            textures: before.textures.insert(previous[n - 1].0@, previous[n - 1].1),
            ..before
        }
    }
}

/// An import taken back: what it added goes, what it replaced comes back; materials first.
pub open spec fn rolled_back<S, G, T>(stock: Stock<S, G, T>, snapshot: ImportSnapshot<S, G, T>) -> Stock<
    S,
    G,
    T,
> {
    let new_materials = texts(snapshot.new_materials@);
    let new_textures = texts(snapshot.new_textures@);
    let old_materials = snapshot.overwritten_materials.entries@;
    let old_textures = snapshot.overwritten_textures.entries@;
    let out = all_taken_out(stock, new_materials, new_materials.len() as int);
    let back = all_put_back(out, old_materials, old_materials.len() as int);
    let dropped = all_dropped(back, new_textures, new_textures.len() as int);
    all_restored(dropped, old_textures, old_textures.len() as int)
}

impl<S: Scalar, G, T> MaterialRegistry<S, G, T> {
    fn take_out(&mut self, key: &str)
        requires
            old(self).wf(),
        ensures
            final(self).wf(),
            final(self).default_material == old(self).default_material,
            final(self).stock() == taken_out(old(self).stock(), key@),
    {
        if let Some(entry) = self.materials.remove(key) {
            let keys = list_texture_keys(&entry.definition);
            self.leave_textures(&keys);
        }
    }

    fn put_back_material(&mut self, key: String, previous: MaterialEntry<S, G>)
        requires
            old(self).wf(),
        ensures
            final(self).wf(),
            final(self).default_material == old(self).default_material,
            final(self).stock() == put_back(old(self).stock(), key@, previous),
    {
        if let Some(entry) = self.materials.remove(key.as_str()) {
            let former = list_texture_keys(&entry.definition);
            self.leave_textures(&former);
            let keys = list_texture_keys(&previous.definition);
            self.take_textures(&keys);
            self.materials.insert(
                key,
                MaterialEntry {
                    definition: previous.definition,
                    gpu: previous.gpu,
                    ref_count: entry.ref_count,
                    permanent: entry.permanent,
                },
            );
        }
    }
}

impl<S: Scalar, G, T> ImportSnapshot<S, G, T> {
    /// Takes an import back.
    pub fn rollback(self, registry: &mut MaterialRegistry<S, G, T>)
        requires
            old(registry).wf(),
        ensures
            final(registry).wf(),
            final(registry).default_material == old(registry).default_material,
            final(registry).stock() == rolled_back(old(registry).stock(), self),
    {
        let ghost start = registry.stock();
        let ImportSnapshot {
            overwritten_materials,
            new_materials,
            overwritten_textures,
            new_textures,
        } = self;
        let mut i: usize = 0;
        while i < new_materials.len()
            invariant
                i <= new_materials@.len(),
                registry.wf(),
                registry.default_material == old(registry).default_material,
                registry.stock() == all_taken_out(start, texts(new_materials@), i as int),
            decreases new_materials@.len() - i,
        {
            registry.take_out(new_materials[i].as_str());
            i = i + 1;
        }
        let ghost out = registry.stock();
        let ghost replaced = overwritten_materials.entries@;
        let mut rest = overwritten_materials.entries;
        let ghost mut k: int = 0;
        while rest.len() > 0
            invariant
                0 <= k <= replaced.len(),
                rest@ == replaced.skip(k),
                registry.wf(),
                registry.default_material == old(registry).default_material,
                registry.stock() == all_put_back(out, replaced, k),
            decreases rest@.len(),
        {
            let (key, previous) = rest.remove(0);
            assert((key, previous) == replaced[k]);
            registry.put_back_material(key, previous);
            proof {
                assert(rest@ =~= replaced.skip(k + 1));
                k = k + 1;
            }
        }
        let ghost back = registry.stock();
        let mut j: usize = 0;
        while j < new_textures.len()
            invariant
                j <= new_textures@.len(),
                registry.wf(),
                registry.default_material == old(registry).default_material,
                registry.stock() == all_dropped(back, texts(new_textures@), j as int),
            decreases new_textures@.len() - j,
        {
            registry.textures.remove(new_textures[j].as_str());
            registry.texture_material_refs.remove(new_textures[j].as_str());
            j = j + 1;
        }
        let ghost dropped = registry.stock();
        let ghost covered = overwritten_textures.entries@;
        let mut rest = overwritten_textures.entries;
        let ghost mut m: int = 0;
        while rest.len() > 0
            invariant
                0 <= m <= covered.len(),
                rest@ == covered.skip(m),
                registry.wf(),
                registry.default_material == old(registry).default_material,
                registry.stock() == all_restored(dropped, covered, m),
            decreases rest@.len(),
        {
            let (key, previous) = rest.remove(0);
            assert((key, previous) == covered[m]);
            registry.textures.insert(key, previous);
            proof {
                assert(rest@ =~= covered.skip(m + 1));
                m = m + 1;
            }
        }
    }
}

/// A texture that a material takes and leaves again is as it was: its count, and whether it is
/// there. Only a texture that was there without a user goes with its first one.
pub proof fn law_leaving_undoes_taking<S, G, T>(stock: Stock<S, G, T>, key: Seq<char>)
    requires
        stock.refs.contains_key(key) ==> 0 < stock.refs[key] < usize::MAX,
        stock.refs.contains_key(key) || !stock.textures.contains_key(key),
    ensures
        stock.used_more(key).used_less(key) == stock,
{
    let r = stock.used_more(key).used_less(key);
    assert(r.refs =~= stock.refs);
    assert(r.textures =~= stock.textures);
}

/// Releasing undoes retaining for a material that has users and can still gain one.
pub proof fn law_release_undoes_retain<S, G, T>(stock: Stock<S, G, T>, key: Seq<char>)
    requires
        stock.materials.contains_key(key),
        0 < stock.materials[key].ref_count < usize::MAX,
    ensures
        stock.retained(key).released(key) == stock,
{
    let r = stock.retained(key).released(key);
    assert(r.materials =~= stock.materials);
}

/// A material that is not there for good is gone after its last release.
pub proof fn law_last_release_removes<S, G, T>(stock: Stock<S, G, T>, key: Seq<char>)
    requires
        stock.materials.contains_key(key),
        stock.materials[key].ref_count <= 1,
        !stock.materials[key].permanent,
    ensures
        !stock.released(key).materials.contains_key(key),
{
    let entry = stock.materials[key];
    let without = Stock { materials: stock.materials.remove(key), ..stock };
    let keys = entry.texture_keys();
    lemma_leaving_keeps_materials(without, keys, keys.len() as int);
}

pub proof fn lemma_leaving_keeps_materials<S, G, T>(
    stock: Stock<S, G, T>,
    keys: Seq<Seq<char>>,
    n: int,
)
    ensures
        stock.all_used_less(keys, n).materials == stock.materials,
    decreases n,
{
    if n > 0 {
        lemma_leaving_keeps_materials(stock, keys, n - 1);
    }
}

pub proof fn lemma_taking_keeps_materials<S, G, T>(
    stock: Stock<S, G, T>,
    keys: Seq<Seq<char>>,
    n: int,
)
    ensures
        stock.all_used_more(keys, n).materials == stock.materials,
    decreases n,
{
    if n > 0 {
        lemma_taking_keeps_materials(stock, keys, n - 1);
    }
}

/// Every material of an import is there once the import is in.
pub proof fn law_imported_materials_are_there<S, G, T>(
    stock: Stock<S, G, T>,
    materials: Seq<ImportedMaterial<S>>,
    n: int,
    i: int,
)
    requires
        0 <= i < n <= materials.len(),
    ensures
        stock.with_materials(materials, n).materials.contains_key(materials[i].key@),
    decreases n,
{
    let before = stock.with_materials(materials, n - 1);
    let m = materials[n - 1];
    let d = definition_of(m);
    if before.materials.contains_key(m.key@) {
        let entry = before.materials[m.key@];
        let without = Stock { materials: before.materials.remove(m.key@), ..before };
        let former = entry.texture_keys();
        lemma_leaving_keeps_materials(without, former, former.len() as int);
        lemma_taking_keeps_materials(
            without.all_used_less(former, former.len() as int),
            d.texture_keys(),
            d.texture_keys().len() as int,
        );
    } else {
        lemma_taking_keeps_materials(before, d.texture_keys(), d.texture_keys().len() as int);
    }
    if i < n - 1 {
        law_imported_materials_are_there(stock, materials, n - 1, i);
    }
}

/// What of a material a shader reads.
#[derive(Clone, Copy)]
pub struct MaterialUniform<S> {
    pub base_color_factor: Vec4<S>,
    pub emissive_factor: Vec4<S>,
    /// Metal, roughness, the scale of the normals, and nothing.
    pub params: Vec4<S>,
    /// Which of the four textures there are.
    pub texture_flags: Vec4<S>,
}

pub open spec fn flag<S: Scalar>(on: bool) -> S {
    if on {
        S::one_spec()
    } else {
        S::zero_spec()
    }
}

fn as_flag<S: Scalar>(on: bool) -> (r: S)
    ensures
        r == flag::<S>(on),
{
    if on {
        S::one()
    } else {
        S::zero()
    }
}

impl<S: Scalar> MaterialDefinition<S> {
    pub open spec fn shader_values(self) -> MaterialUniform<S> {
        MaterialUniform {
            base_color_factor: self.base_color_factor,
            emissive_factor: Vec4 {
                x: self.emissive_factor.x,
                y: self.emissive_factor.y,
                z: self.emissive_factor.z,
                w: S::one_spec(),
            },
            params: Vec4 {
                x: self.metallic_factor,
                y: self.roughness_factor,
                z: match self.normal_texture {
                    Some(b) => b.scale,
                    None => S::one_spec(),
                },
                w: S::zero_spec(),
            },
            texture_flags: Vec4 {
                x: flag(self.base_color_texture is Some),
                y: flag(self.metallic_roughness_texture is Some),
                z: flag(self.normal_texture is Some),
                w: flag(self.emissive_texture is Some),
            },
        }
    }

    pub fn uniform(&self) -> (r: MaterialUniform<S>)
        ensures
            r == self.shader_values(),
    {
        let scale = match &self.normal_texture {
            Some(b) => b.scale,
            None => S::one(),
        };
        MaterialUniform {
            base_color_factor: self.base_color_factor,
            emissive_factor: Vec4 {
                x: self.emissive_factor.x,
                y: self.emissive_factor.y,
                z: self.emissive_factor.z,
                w: S::one(),
            },
            params: Vec4 {
                x: self.metallic_factor,
                y: self.roughness_factor,
                z: scale,
                w: S::zero(),
            },
            texture_flags: Vec4 {
                x: as_flag(self.base_color_texture.is_some()),
                y: as_flag(self.metallic_roughness_texture.is_some()),
                z: as_flag(self.normal_texture.is_some()),
                w: as_flag(self.emissive_texture.is_some()),
            },
        }
    }
}

/// What a texture of a material is for.
#[derive(Clone, Copy, Debug, PartialEq, Eq, Structural)]
pub enum TextureSlot {
    BaseColor,
    MetallicRoughness,
    Normal,
    Emissive,
}

impl TextureSlot {
    /// Whether the texture holds colours as they are seen.
    pub fn srgb(self) -> (r: bool)
        ensures
            r == (self == TextureSlot::BaseColor || self == TextureSlot::Emissive),
    {
        match self {
            TextureSlot::BaseColor | TextureSlot::Emissive => true,
            _ => false,
        }
    }

    /// The one texel of the texture that a material without one gets: white, straight up, or
    /// black.
    pub open spec fn plain_texel(self) -> Seq<u8> {
        match self {
            TextureSlot::Normal => seq![128u8, 128u8, 255u8, 255u8],
            TextureSlot::Emissive => seq![0u8, 0u8, 0u8, 255u8],
            _ => seq![255u8, 255u8, 255u8, 255u8],
        }
    }

    pub fn default_texel(self) -> (r: Vec<u8>)
        ensures
            r@ == self.plain_texel(),
    {
        let mut out: Vec<u8> = Vec::new();
        let (x, y, z): (u8, u8, u8) = match self {
            TextureSlot::Normal => (128, 128, 255),
            TextureSlot::Emissive => (0, 0, 0),
            _ => (255, 255, 255),
        };
        out.push(x);
        out.push(y);
        out.push(z);
        out.push(255);
        assert(out@ =~= self.plain_texel());
        out
    }
}

impl<S> MaterialDefinition<S> {
    /// The key of the texture in a slot.
    pub open spec fn slot_key(self, slot: TextureSlot) -> Option<Seq<char>> {
        let binding = match slot {
            TextureSlot::BaseColor => self.base_color_texture,
            TextureSlot::MetallicRoughness => self.metallic_roughness_texture,
            TextureSlot::Normal => self.normal_texture,
            TextureSlot::Emissive => self.emissive_texture,
        };
        match binding {
            Some(b) => Some(b.texture_key@),
            None => None,
        }
    }

    pub fn texture_in(&self, slot: TextureSlot) -> (r: Option<&str>)
        ensures
            match r {
                Some(key) => self.slot_key(slot) == Some(key@),
                None => self.slot_key(slot) is None,
            },
    {
        let binding = match slot {
            TextureSlot::BaseColor => &self.base_color_texture,
            TextureSlot::MetallicRoughness => &self.metallic_roughness_texture,
            TextureSlot::Normal => &self.normal_texture,
            TextureSlot::Emissive => &self.emissive_texture,
        };
        match binding {
            Some(b) => Some(b.texture_key.as_str()),
            None => None,
        }
    }
}

/// What is left to do to have something on the GPU.
#[derive(Clone, Copy, PartialEq, Eq, Structural)]
pub enum GpuNeed {
    Ready,
    Upload,
    Missing,
}

impl<S: Scalar, G, T> MaterialRegistry<S, G, T> {
    pub fn material_need(&self, key: &str) -> (r: GpuNeed)
        requires
            self.wf(),
        ensures
            r == (if !self.stock().materials.contains_key(key@) {
                GpuNeed::Missing
            } else if self.stock().materials[key@].gpu is Some {
                GpuNeed::Ready
            } else {
                GpuNeed::Upload
            }),
    {
        match self.materials.get(key) {
            Some(entry) => if entry.gpu.is_some() {
                GpuNeed::Ready
            } else {
                GpuNeed::Upload
            },
            None => GpuNeed::Missing,
        }
    }

    pub fn store_material_gpu(&mut self, key: &str, gpu: G)
        requires
            old(self).wf(),
        ensures
            final(self).wf(),
            final(self).default_material == old(self).default_material,
            final(self).stock() == (if old(self).stock().materials.contains_key(key@) {
                Stock {
                    materials: old(self).stock().materials.insert(
                        key@,
                        MaterialEntry { gpu: Some(gpu), ..old(self).stock().materials[key@] },
                    ),
                    ..old(self).stock()
                }
            } else {
                old(self).stock()
            }),
    {
        if let Some(entry) = self.materials.get_mut(key) {
            entry.gpu = Some(gpu);
        }
    }

    /// Colours and numbers are held apart.
    pub fn texture_need(&self, key: &str, srgb: bool) -> (r: GpuNeed)
        requires
            self.wf(),
        ensures
            ({
                let e = self.stock().textures[key@];
                r == (if !self.stock().textures.contains_key(key@) {
                    GpuNeed::Missing
                } else if (srgb && e.gpu_srgb is Some) || (!srgb && e.gpu_linear is Some) {
                    GpuNeed::Ready
                } else {
                    GpuNeed::Upload
                })
            }),
    {
        match self.textures.get(key) {
            Some(entry) => {
                let there = if srgb {
                    entry.gpu_srgb.is_some()
                } else {
                    entry.gpu_linear.is_some()
                };
                if there {
                    GpuNeed::Ready
                } else {
                    GpuNeed::Upload
                }
            },
            None => GpuNeed::Missing,
        }
    }

    pub fn store_texture_gpu(&mut self, key: &str, srgb: bool, gpu: T)
        requires
            old(self).wf(),
        ensures
            final(self).wf(),
            final(self).default_material == old(self).default_material,
            ({
                let s = old(self).stock();
                let e = s.textures[key@];
                final(self).stock() == (if s.textures.contains_key(key@) {
                    Stock {
                        textures: s.textures.insert(
                            key@,
                            if srgb {
                                TextureEntry { gpu_srgb: Some(gpu), ..e }
                            } else {
                                TextureEntry { gpu_linear: Some(gpu), ..e }
                            },
                        ),
                        ..s
                    }
                } else {
                    s
                })
            }),
    {
        if let Some(entry) = self.textures.get_mut(key) {
            if srgb {
                entry.gpu_srgb = Some(gpu);
            } else {
                entry.gpu_linear = Some(gpu);
            }
        }
    }
}

/// `wgpu::COPY_BYTES_PER_ROW_ALIGNMENT`: rows of a texture are uploaded in multiples of 256 bytes.
#[verifier::external_body]
fn row_alignment() -> (r: u32)
    ensures
        r == 256,
{
    wgpu::COPY_BYTES_PER_ROW_ALIGNMENT
}

/// The bytes of a row of pixels.
pub open spec fn row_bytes(width: u32) -> int {
    if width * 4 > u32::MAX {
        u32::MAX as int
    } else {
        width * 4
    }
}

/// The bytes of a row with what fills it up.
pub open spec fn padded_row(width: u32) -> int {
    let bytes = row_bytes(width);
    if bytes % 256 == 0 {
        bytes
    } else {
        bytes + 256 - bytes % 256
    }
}

/// A padded row holds the row, and is the shortest that can be uploaded.
pub proof fn law_padded_row_is_tight(width: u32)
    ensures
        padded_row(width) % 256 == 0,
        row_bytes(width) <= padded_row(width) < row_bytes(width) + 256,
{
}

fn row_length(width: u32) -> (r: u32)
    ensures
        r == row_bytes(width),
{
    if width > 0x3fff_ffff {
        u32::MAX
    } else {
        width * 4
    }
}

pub fn padded_bytes_per_row(width: u32) -> (r: u32)
    requires
        row_bytes(width) + 256 <= u32::MAX,
    ensures
        r == padded_row(width),
{
    let unpadded: u32 = row_length(width);
    let align: u32 = row_alignment();
    let remainder: u32 = unpadded % align;
    if remainder == 0 {
        unpadded
    } else {
        unpadded + (align - remainder)
    }
}

/// A byte of an upload: of a row that the data holds in whole, or whatever stood there.
pub open spec fn upload_byte(data: Seq<u8>, width: u32, height: u32, before: Seq<u8>, i: int) -> u8 {
    let row = i / padded_row(width);
    let column = i % padded_row(width);
    let bytes = row_bytes(width);
    if row < height && column < bytes && (row + 1) * bytes <= data.len() {
        data[row * bytes + column]
    } else if i < before.len() {
        before[i]
    } else {
        0
    }
}

fn copy_row(data: &Vec<u8>, from: usize, n: usize, scratch: &mut Vec<u8>, to: usize)
    requires
        from + n <= data@.len(),
        to + n <= old(scratch)@.len(),
    ensures
        final(scratch)@ == Seq::new(
            old(scratch)@.len(),
            |i: int|
                if to <= i < to + n {
                    data@[from + (i - to)]
                } else {
                    old(scratch)@[i]
                },
        ),
{
    let mut k: usize = 0;
    while k < n
        invariant
            k <= n,
            from + n <= data@.len(),
            scratch@.len() == old(scratch)@.len(),
            to + n <= scratch@.len(),
            forall|i: int|
                0 <= i < scratch@.len() ==> #[trigger] scratch@[i] == (if to <= i < to + k {
                    data@[from + (i - to)]
                } else {
                    old(scratch)@[i]
                }),
        decreases n - k,
    {
        assert(data.len() >= from + n);
        assert(scratch.len() >= to + n);
        scratch.set(to + k, data[from + k]);
        k = k + 1;
    }
    assert(scratch@ =~= Seq::new(
        old(scratch)@.len(),
        |i: int|
            if to <= i < to + n {
                data@[from + (i - to)]
            } else {
                old(scratch)@[i]
            },
    ));
}

/// The upload after its first `n` rows were copied.
spec fn upload_upto(data: Seq<u8>, width: u32, n: int, before: Seq<u8>, len: nat) -> Seq<u8> {
    Seq::new(len, |i: int| upload_byte(data, width, n as u32, before, i))
}

proof fn lemma_row_place(i: int, row: int, padded: int)
    requires
        padded > 0,
        0 <= i,
        row >= 0,
    ensures
        i / padded == row <==> row * padded <= i < (row + 1) * padded,
        i / padded == row ==> i % padded == i - row * padded,
        0 <= i % padded < padded,
{
    vstd::arithmetic::div_mod::lemma_fundamental_div_mod(i, padded);
    vstd::arithmetic::div_mod::lemma_mod_bound(i, padded);
    let q = i / padded;
    assert(padded * q == q * padded) by (nonlinear_arith);
    if q < row {
        assert((q + 1) * padded <= row * padded) by (nonlinear_arith)
            requires
                q + 1 <= row,
                padded > 0,
        ;
        assert((q + 1) * padded == q * padded + padded) by (nonlinear_arith);
    } else if q > row {
        assert((row + 1) * padded <= q * padded) by (nonlinear_arith)
            requires
                row + 1 <= q,
                padded > 0,
        ;
    } else {
        assert((row + 1) * padded == row * padded + padded) by (nonlinear_arith);
    }
}

/// Makes pixels ready for upload. Rows that are a multiple of the alignment are taken as they are;
/// else every row that the data holds in whole is copied to where it has to stand, and `scratch`
/// holds the upload. What fills rows up is whatever stood there. Says whether the upload is in
/// `scratch`, and how long its rows are.
pub fn prepare_texture_upload(data: &Vec<u8>, width: u32, height: u32, scratch: &mut Vec<u8>) -> (r: (
    bool,
    u32,
))
    requires
        row_bytes(width) + 256 <= u32::MAX,
        padded_row(width) * height <= u32::MAX,
    ensures
        r.0 == (padded_row(width) != row_bytes(width)),
        r.1 == padded_row(width),
        final(scratch)@ == (if r.0 {
            Seq::new(
                if old(scratch)@.len() < padded_row(width) * height {
                    (padded_row(width) * height) as nat
                } else {
                    old(scratch)@.len()
                },
                |i: int| upload_byte(data@, width, height, old(scratch)@, i),
            )
        } else {
            old(scratch)@
        }),
{
    let bytes: u32 = row_length(width);
    let padded: u32 = padded_bytes_per_row(width);
    if padded == bytes {
        return (false, bytes);
    }
    let required: usize = (padded as u64 * height as u64) as usize;
    while scratch.len() < required
        invariant
            old(scratch)@.len() <= scratch@.len(),
            scratch@.len() <= required || scratch@.len() == old(scratch)@.len(),
            forall|i: int|
                0 <= i < scratch@.len() ==> #[trigger] scratch@[i] == (if i < old(scratch)@.len() {
                    old(scratch)@[i]
                } else {
                    0
                }),
        decreases required - scratch@.len(),
    {
        scratch.push(0);
    }
    let ghost before = old(scratch)@;
    let ghost len = scratch@.len();
    proof {
        assert forall|i: int| 0 <= i < len implies #[trigger] scratch@[i] == upload_byte(
            data@,
            width,
            0,
            before,
            i,
        ) by {
            lemma_row_place(i, 0, padded as int);
            vstd::arithmetic::div_mod::lemma_div_pos_is_pos(i, padded as int);
        }
        assert(scratch@ =~= upload_upto(data@, width, 0, before, len));
    }
    let mut row: u32 = 0;
    while row < height
        invariant
            row <= height,
            bytes == row_bytes(width),
            padded == padded_row(width),
            0 < bytes < padded,
            padded * height <= u32::MAX,
            len == scratch@.len(),
            padded * height <= len,
            scratch@ == upload_upto(data@, width, row as int, before, len),
        decreases height - row,
    {
        proof {
            assert(bytes * row <= padded * height) by (nonlinear_arith)
                requires
                    0 <= bytes <= padded,
                    0 <= row <= height,
            ;
            assert(padded * row + padded <= padded * height) by (nonlinear_arith)
                requires
                    row + 1 <= height,
                    padded >= 0,
            ;
            assert((row + 1) * bytes == bytes * row + bytes) by (nonlinear_arith);
            assert(row * bytes == bytes * row) by (nonlinear_arith);
            assert(row * padded == padded * row) by (nonlinear_arith);
            assert((row + 1) * padded == padded * row + padded) by (nonlinear_arith);
        }
        let from: u64 = bytes as u64 * row as u64;
        let to: u64 = padded as u64 * row as u64;
        let ghost copied = scratch@;
        if from + bytes as u64 <= data.len() as u64 && to + bytes as u64 <= scratch.len() as u64 {
            copy_row(data, from as usize, bytes as usize, scratch, to as usize);
        }
        proof {
            let next = upload_upto(data@, width, row + 1, before, len);
            assert forall|i: int| 0 <= i < len implies #[trigger] scratch@[i] == next[i] by {
                lemma_row_place(i, row as int, padded as int);
                vstd::arithmetic::div_mod::lemma_div_pos_is_pos(i, padded as int);
                assert(copied[i] == upload_byte(data@, width, row, before, i));
                if i / (padded as int) == row {
                    assert(upload_byte(data@, width, row, before, i) == (if i < before.len() {
                        before[i]
                    } else {
                        0
                    }));
                }
            }
            assert(scratch@ =~= next);
        }
        row = row + 1;
    }
    (true, padded)
}

} // verus!
