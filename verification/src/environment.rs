//! Environments that light a scene: their keys, who uses them, and what is kept of them.
use vstd::prelude::*;
use vstd::string::StrSliceExecFns;
use crate::paths::{extension, file_name, stem};
use crate::text::{is_ascii_alphanumeric, join3, push_char, to_ascii_lower, to_ascii_lower_char};
use crate::text_map::{same_text, TextMap};

verus! {

pub struct EnvironmentDefinition {
    pub key: String,
    pub label: String,
    pub source: Option<String>,
}

impl EnvironmentDefinition {
    pub fn key(&self) -> (r: &str)
        ensures
            r@ == self.key@,
    {
        self.key.as_str()
    }

    pub fn label(&self) -> (r: &str)
        ensures
            r@ == self.label@,
    {
        self.label.as_str()
    }

    pub open spec fn source_text(self) -> Option<Seq<char>> {
        match self.source {
            Some(path) => Some(path@),
            None => None,
        }
    }

    pub fn source(&self) -> (r: Option<&str>)
        ensures
            match r {
                Some(path) => self.source_text() == Some(path@),
                None => self.source_text() is None,
            },
    {
        match &self.source {
            Some(path) => Some(path.as_str()),
            None => None,
        }
    }

    pub fn set_source(&mut self, source: Option<String>)
        ensures
            *final(self) == (EnvironmentDefinition { source, ..*old(self) }),
    {
        self.source = source;
    }
}

pub open spec fn supported_extension(ext: Seq<char>) -> bool {
    let lower = crate::text::ascii_lower(ext);
    lower == "hdr"@ || lower == "exr"@ || lower == "png"@
}

pub open spec fn supported_file(path: Seq<char>) -> bool {
    match crate::paths::file_name_of(path) {
        Some(name) => match crate::paths::extension_of(name) {
            Some(ext) => supported_extension(ext),
            None => false,
        },
        None => false,
    }
}

/// Whether a file can hold an environment, by its extension in whatever case.
pub fn is_supported_environment_file(path: &str) -> (r: bool)
    ensures
        r == supported_file(path@),
{
    match file_name(path) {
        Some(name) => match extension(name.as_str()) {
            Some(ext) => {
                let lower = to_ascii_lower(ext.as_str());
                same_text(lower.as_str(), "hdr") || same_text(lower.as_str(), "exr") || same_text(
                    lower.as_str(),
                    "png",
                )
            },
            None => false,
        },
        None => false,
    }
}

/// A character of a key: ASCII letters and digits in lower case, all else as `_`.
pub open spec fn key_char(c: char) -> char {
    if crate::text::ascii_alphanumeric_char(c) {
        crate::text::ascii_lower_char(c)
    } else {
        '_'
    }
}

pub open spec fn sanitized(stem: Seq<char>) -> Seq<char> {
    stem.map_values(|c: char| key_char(c))
}

/// The key of the environment in a file, if the path names a file.
pub open spec fn key_of_path(path: Seq<char>) -> Option<Seq<char>> {
    match crate::paths::file_name_of(path) {
        Some(name) => {
            let clean = sanitized(crate::paths::stem_of(name));
            if clean.len() == 0 {
                None
            } else {
                Some("environment::"@ + clean)
            }
        },
        None => None,
    }
}

fn sanitize(text: &str) -> (r: String)
    ensures
        r@ == sanitized(text@),
{
    let mut out = String::new();
    let n: usize = text.unicode_len();
    let mut i: usize = 0;
    while i < n
        invariant
            n == text@.len(),
            i <= n,
            out@ == sanitized(text@.take(i as int)),
        decreases n - i,
    {
        let c = text.get_char(i);
        if is_ascii_alphanumeric(c) {
            push_char(&mut out, to_ascii_lower_char(c));
        } else {
            push_char(&mut out, '_');
        }
        proof {
            assert(text@.take(i + 1) =~= text@.take(i as int).push(c));
            assert(out@ =~= sanitized(text@.take(i + 1)));
        }
        i = i + 1;
    }
    assert(text@.take(n as int) =~= text@);
    out
}

pub fn environment_key_from_path(path: &str) -> (r: Option<String>)
    ensures
        match r {
            Some(key) => key_of_path(path@) == Some(key@),
            None => key_of_path(path@) is None,
        },
{
    match file_name(path) {
        Some(name) => {
            let clean = sanitize(stem(name.as_str()).as_str());
            if clean.as_str().unicode_len() == 0 {
                None
            } else {
                let key = join3("environment::", clean.as_str(), "");
                proof {
                    reveal_strlit("");
                    assert(key@ =~= "environment::"@ + clean@);
                }
                Some(key)
            }
        },
        None => None,
    }
}

/// One environment: `M` are its maps, `G` what of it is on the GPU.
pub struct EnvironmentEntry<M, G> {
    pub definition: EnvironmentDefinition,
    pub maps: Option<M>,
    pub gpu: Option<G>,
    pub ref_count: usize,
    pub permanent: bool,
}

pub struct EnvironmentRegistry<M, G> {
    pub environments: TextMap<EnvironmentEntry<M, G>>,
    pub default_key: String,
    pub revision: u64,
}

/// What is left to do to retain an environment.
pub enum RetainStep {
    Retained,
    /// It is not there yet and has to be loaded from this path.
    Load { path: String },
    /// It is not there and nothing says where it could be loaded from.
    NoSource,
}

/// What is left to do to have an environment on the GPU.
pub enum GpuStep {
    Ready,
    Upload,
    Reload { path: String },
    NoSource,
    NotRetained,
}

pub open spec fn held_up(count: usize) -> usize {
    if count == usize::MAX {
        usize::MAX
    } else {
        (count + 1) as usize
    }
}

/// The label of an environment: the stem of its file, or its key where the path names no file.
pub open spec fn label_of(key: Seq<char>, path: Seq<char>) -> Seq<char> {
    match crate::paths::file_name_of(path) {
        Some(name) => crate::paths::stem_of(name),
        None => key,
    }
}

/// Why an environment cannot be had.
pub enum EnvironmentError {
    NotLoaded { key: String },
    NotRetained { key: String },
    NoSource { key: String },
}

impl EnvironmentError {
    pub open spec fn text(self) -> Seq<char> {
        match self {
            EnvironmentError::NotLoaded { key } => "Environment '"@ + key@
                + "' not loaded and no source provided."@,
            EnvironmentError::NotRetained { key } => "Environment '"@ + key@ + "' not retained"@,
            EnvironmentError::NoSource { key } => "Environment '"@ + key@
                + "' has no recorded source; cannot rebuild"@,
        }
    }

    pub fn message(&self) -> (r: String)
        ensures
            r@ == self.text(),
    {
        match self {
            EnvironmentError::NotLoaded { key } => join3(
                "Environment '",
                key.as_str(),
                "' not loaded and no source provided.",
            ),
            EnvironmentError::NotRetained { key } => join3(
                "Environment '",
                key.as_str(),
                "' not retained",
            ),
            EnvironmentError::NoSource { key } => join3(
                "Environment '",
                key.as_str(),
                "' has no recorded source; cannot rebuild",
            ),
        }
    }
}

impl<M, G> EnvironmentRegistry<M, G> {
    /// No key occurs twice, and the default environment is there for good.
    pub open spec fn wf(self) -> bool {
        &&& self.environments.wf()
        &&& self.environments@.contains_key(self.default_key@)
        &&& self.environments@[self.default_key@].permanent
    }

    pub open spec fn bumped(revision: u64) -> u64 {
        crate::counts::wrapping_sum(revision, 1)
    }

    pub fn new(default_maps: M) -> (r: Self)
        ensures
            r.wf(),
            r.default_key@ == "environment::default"@,
            r.revision == 1,
            ({
                let e = r.environments@["environment::default"@];
                &&& r.environments@.dom() =~= set!["environment::default"@]
                &&& e.definition.key@ == "environment::default"@
                &&& e.definition.label@ == "Neutral Gradient"@
                &&& e.definition.source is None
                &&& e.maps == Some(default_maps)
                &&& e.gpu is None
                &&& e.ref_count == 1
                &&& e.permanent
            }),
    {
        let mut environments: TextMap<EnvironmentEntry<M, G>> = TextMap::new();
        environments.insert(
            "environment::default".to_owned(),
            EnvironmentEntry {
                definition: EnvironmentDefinition {
                    key: "environment::default".to_owned(),
                    label: "Neutral Gradient".to_owned(),
                    source: None,
                },
                maps: Some(default_maps),
                gpu: None,
                ref_count: 1,
                permanent: true,
            },
        );
        EnvironmentRegistry {
            environments,
            default_key: "environment::default".to_owned(),
            revision: 1,
        }
    }

    pub fn default_key(&self) -> (r: &str)
        ensures
            r@ == self.default_key@,
    {
        self.default_key.as_str()
    }

    pub fn keys(&self) -> (r: Vec<String>)
        requires
            self.wf(),
        ensures
            r@.len() == self.environments.entries@.len(),
            forall|i: int|
                0 <= i < r@.len() ==> (#[trigger] r@[i])@ == self.environments.key_seq()[i],
    {
        self.environments.keys()
    }

    pub fn definition(&self, key: &str) -> (r: Option<&EnvironmentDefinition>)
        requires
            self.wf(),
        ensures
            match r {
                Some(found) => self.environments@.contains_key(key@) && *found
                    == self.environments@[key@].definition,
                None => !self.environments@.contains_key(key@),
            },
    {
        match self.environments.get(key) {
            Some(entry) => Some(&entry.definition),
            None => None,
        }
    }

    pub fn ref_count(&self, key: &str) -> (r: Option<usize>)
        requires
            self.wf(),
        ensures
            r == (if self.environments@.contains_key(key@) {
                Some(self.environments@[key@].ref_count)
            } else {
                None
            }),
    {
        match self.environments.get(key) {
            Some(entry) => Some(entry.ref_count),
            None => None,
        }
    }

    pub fn version(&self) -> (r: u64)
        ensures
            r == self.revision,
    {
        self.revision
    }

    /// The key under which a file of a directory is to be loaded; none for a file that holds no
    /// environment or whose environment is there already.
    pub fn admit_file(&self, path: &str) -> (r: Option<String>)
        requires
            self.wf(),
        ensures
            match r {
                Some(key) => supported_file(path@) && key_of_path(path@) == Some(key@)
                    && !self.environments@.contains_key(key@),
                None => !supported_file(path@) || key_of_path(path@) is None
                    || self.environments@.contains_key(key_of_path(path@)->0),
            },
    {
        if !is_supported_environment_file(path) {
            return None;
        }
        match environment_key_from_path(path) {
            Some(key) => if self.environments.contains_key(key.as_str()) {
                None
            } else {
                Some(key)
            },
            None => None,
        }
    }

    /// The entry that loaded maps give.
    pub open spec fn loaded_entry(e: EnvironmentEntry<M, G>, key: Seq<char>, path: Seq<char>, maps: M, ref_count: usize) -> bool {
        &&& e.definition.key@ == key
        &&& e.definition.label@ == label_of(key, path)
        &&& e.definition.source_text() == Some(path)
        &&& e.maps == Some(maps)
        &&& e.gpu is None
        &&& e.ref_count == ref_count
        &&& !e.permanent
    }

    /// Takes the maps of a loaded environment in; nobody uses it yet, or one user retains it.
    pub fn insert_loaded(&mut self, key: &str, path: &str, maps: M, retained: bool)
        requires
            old(self).wf(),
            !old(self).environments@.contains_key(key@),
        ensures
            final(self).wf(),
            final(self).default_key == old(self).default_key,
            final(self).revision == Self::bumped(old(self).revision),
            final(self).environments@.contains_key(key@),
            final(self).environments@ == old(self).environments@.insert(
                key@,
                final(self).environments@[key@],
            ),
            Self::loaded_entry(
                final(self).environments@[key@],
                key@,
                path@,
                maps,
                if retained { 1 } else { 0 },
            ),
    {
        let label = match file_name(path) {
            Some(name) => stem(name.as_str()),
            None => key.to_owned(),
        };
        self.environments.insert(
            key.to_owned(),
            EnvironmentEntry {
                definition: EnvironmentDefinition {
                    key: key.to_owned(),
                    label,
                    source: Some(path.to_owned()),
                },
                maps: Some(maps),
                gpu: None,
                ref_count: if retained {
                    1
                } else {
                    0
                },
                permanent: false,
            },
        );
        self.revision = self.revision.wrapping_add(1);
    }

    /// The entry after one more user: a new source drops what was made from the old one.
    pub open spec fn retained_entry(before: EnvironmentEntry<M, G>, after: EnvironmentEntry<M, G>, source: Option<Seq<char>>) -> bool {
        let moved = source is Some && before.definition.source_text() != source;
        &&& after.ref_count == held_up(before.ref_count)
        &&& after.permanent == before.permanent
        &&& after.definition.key == before.definition.key
        &&& after.definition.label == before.definition.label
        &&& if moved {
            after.definition.source_text() == source && after.maps is None && after.gpu is None
        } else {
            after.definition == before.definition && after.maps == before.maps && after.gpu
                == before.gpu
        }
    }

    /// One more user of an environment; says what is left to do where it is not there.
    pub fn retain(&mut self, key: &str, source: Option<&str>) -> (r: RetainStep)
        requires
            old(self).wf(),
        ensures
            final(self).wf(),
            final(self).default_key == old(self).default_key,
            final(self).revision == old(self).revision,
            ({
                let text = match source {
                    Some(path) => Some(path@),
                    None => None,
                };
                if old(self).environments@.contains_key(key@) {
                    &&& r is Retained
                    &&& final(self).environments@ == old(self).environments@.insert(
                        key@,
                        final(self).environments@[key@],
                    )
                    &&& Self::retained_entry(
                        old(self).environments@[key@],
                        final(self).environments@[key@],
                        text,
                    )
                } else {
                    &&& *final(self) == *old(self)
                    &&& match text {
                        Some(path) => r is Load && r->path@ == path,
                        None => r is NoSource,
                    }
                }
            }),
    {
        match self.environments.get_mut(key) {
            Some(entry) => {
                entry.ref_count = entry.ref_count.saturating_add(1);
                if let Some(path) = source {
                    let moved = match entry.definition.source() {
                        Some(current) => !same_text(current, path),
                        None => true,
                    };
                    if moved {
                        entry.definition.set_source(Some(path.to_owned()));
                        entry.maps = None;
                        entry.gpu = None;
                    }
                }
                RetainStep::Retained
            },
            None => match source {
                Some(path) => RetainStep::Load { path: path.to_owned() },
                None => RetainStep::NoSource,
            },
        }
    }

    /// The entry after one user less: the last one takes the maps along.
    pub open spec fn released_entry(e: EnvironmentEntry<M, G>) -> EnvironmentEntry<M, G> {
        if e.permanent {
            e
        } else {
            let left = if e.ref_count > 0 {
                (e.ref_count - 1) as usize
            } else {
                0
            };
            EnvironmentEntry {
                ref_count: left,
                maps: if left == 0 {
                    None
                } else {
                    e.maps
                },
                gpu: if left == 0 {
                    None
                } else {
                    e.gpu
                },
                ..e
            }
        }
    }

    /// One user less; says whether the environment is there.
    pub fn release(&mut self, key: &str) -> (r: bool)
        requires
            old(self).wf(),
        ensures
            final(self).wf(),
            final(self).default_key == old(self).default_key,
            final(self).revision == old(self).revision,
            r == old(self).environments@.contains_key(key@),
            final(self).environments@ == (if r {
                old(self).environments@.insert(
                    key@,
                    Self::released_entry(old(self).environments@[key@]),
                )
            } else {
                old(self).environments@
            }),
    {
        match self.environments.get_mut(key) {
            Some(entry) => {
                if !entry.permanent {
                    if entry.ref_count > 0 {
                        entry.ref_count = entry.ref_count - 1;
                    }
                    if entry.ref_count == 0 {
                        entry.gpu = None;
                        entry.maps = None;
                    }
                }
                true
            },
            None => false,
        }
    }

    /// What has to be done to have an environment on the GPU.
    pub fn gpu_step(&self, key: &str) -> (r: GpuStep)
        requires
            self.wf(),
        ensures
            ({
                let e = self.environments@[key@];
                if !self.environments@.contains_key(key@) {
                    r is NotRetained
                } else if e.gpu is Some {
                    r is Ready
                } else if e.maps is Some {
                    r is Upload
                } else {
                    match e.definition.source_text() {
                        Some(path) => r is Reload && r->path@ == path,
                        None => r is NoSource,
                    }
                }
            }),
    {
        match self.environments.get(key) {
            None => GpuStep::NotRetained,
            Some(entry) => if entry.gpu.is_some() {
                GpuStep::Ready
            } else if entry.maps.is_some() {
                GpuStep::Upload
            } else {
                match entry.definition.source() {
                    Some(path) => GpuStep::Reload { path: path.to_owned() },
                    None => GpuStep::NoSource,
                }
            },
        }
    }

    /// The maps of an environment, if it has any.
    pub fn maps(&self, key: &str) -> (r: Option<&M>)
        requires
            self.wf(),
        ensures
            match r {
                Some(m) => self.environments@.contains_key(key@)
                    && self.environments@[key@].maps == Some(*m),
                None => self.environments@.contains_key(key@) ==> self.environments@[key@].maps is None,
            },
    {
        match self.environments.get(key) {
            Some(entry) => entry.maps.as_ref(),
            None => None,
        }
    }

    /// What of an environment is on the GPU.
    pub fn gpu(&self, key: &str) -> (r: Option<&G>)
        requires
            self.wf(),
        ensures
            match r {
                Some(g) => self.environments@.contains_key(key@)
                    && self.environments@[key@].gpu == Some(*g),
                None => self.environments@.contains_key(key@) ==> self.environments@[key@].gpu is None,
            },
    {
        match self.environments.get(key) {
            Some(entry) => entry.gpu.as_ref(),
            None => None,
        }
    }

    pub fn store_maps(&mut self, key: &str, maps: M)
        requires
            old(self).wf(),
            old(self).environments@.contains_key(key@),
        ensures
            final(self).wf(),
            final(self).default_key == old(self).default_key,
            final(self).revision == old(self).revision,
            final(self).environments@ == old(self).environments@.insert(
                key@,
                EnvironmentEntry { maps: Some(maps), ..old(self).environments@[key@] },
            ),
    {
        if let Some(entry) = self.environments.get_mut(key) {
            entry.maps = Some(maps);
        }
    }

    pub fn store_gpu(&mut self, key: &str, gpu: G)
        requires
            old(self).wf(),
            old(self).environments@.contains_key(key@),
        ensures
            final(self).wf(),
            final(self).default_key == old(self).default_key,
            final(self).revision == old(self).revision,
            final(self).environments@ == old(self).environments@.insert(
                key@,
                EnvironmentEntry { gpu: Some(gpu), ..old(self).environments@[key@] },
            ),
    {
        if let Some(entry) = self.environments.get_mut(key) {
            entry.gpu = Some(gpu);
        }
    }
}

/// Retaining and then releasing an environment brings its count back, as long as the count can
/// still grow and the environment is not there for good.
pub proof fn law_release_undoes_retain<M, G>(
    before: EnvironmentEntry<M, G>,
    retained: EnvironmentEntry<M, G>,
)
    requires
        EnvironmentRegistry::<M, G>::retained_entry(before, retained, None),
        !before.permanent,
        before.ref_count < usize::MAX,
    ensures
        ({
            let after = EnvironmentRegistry::<M, G>::released_entry(retained);
            &&& after.ref_count == before.ref_count
            &&& before.ref_count > 0 ==> after == before
        }),
{
}

/// The last release of an environment drops its maps and what of it is on the GPU.
pub proof fn law_last_release_drops_maps<M, G>(e: EnvironmentEntry<M, G>)
    requires
        !e.permanent,
        e.ref_count <= 1,
    ensures
        ({
            let after = EnvironmentRegistry::<M, G>::released_entry(e);
            after.ref_count == 0 && after.maps is None && after.gpu is None
        }),
{
}

/// The key of a path holds only lower-case ASCII letters, digits and `_` behind its prefix.
pub proof fn law_keys_are_clean(path: Seq<char>, i: int)
    requires
        key_of_path(path) is Some,
        "environment::"@.len() <= i < key_of_path(path)->0.len(),
    ensures
        ({
            let c = key_of_path(path)->0[i];
            c == '_' || ('a' <= c && c <= 'z') || ('0' <= c && c <= '9')
        }),
{
    let name = crate::paths::file_name_of(path)->0;
    let stem = crate::paths::stem_of(name);
    let k = i - "environment::"@.len();
    assert(key_of_path(path)->0[i] == sanitized(stem)[k]);
    let c = stem[k];
    assert(sanitized(stem)[k] == key_char(c));
    if crate::text::ascii_upper_char(c) {
        assert('A' as int == 65 && 'Z' as int == 90 && 'a' as int == 97 && 'z' as int == 122);
        let lower = ((c as u8) + 32) as u8;
        assert(97 <= lower <= 122);
        assert(lower as char as int == lower as int);
    }
}

} // verus!
