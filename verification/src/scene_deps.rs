//! What a scene needs before it can be loaded.
use vstd::prelude::*;
use vstd::string::StringExecFns;
use crate::text::join3;
use crate::text_map::TextMap;

verus! {

/// The first key that is not there, at `from` or later.
pub open spec fn first_missing(keys: Seq<String>, there: Set<Seq<char>>, from: int) -> int
    decreases keys.len() - from,
{
    if from < 0 || from >= keys.len() {
        keys.len() as int
    } else if !there.contains(keys[from]@) {
        from
    } else {
        first_missing(keys, there, from + 1)
    }
}

/// What is said of an atlas that is not loaded.
pub open spec fn missing_atlas_text(key: Seq<char>) -> Seq<char> {
    "Scene requires atlas '"@ + key
        + "' which is not loaded. Call AssetManager::load_atlas before loading the scene."@
}

/// Whether all atlases of a scene are loaded; if not, what is said of the first that is not.
pub fn check_atlases(keys: &Vec<String>, loaded: &TextMap<()>) -> (r: Result<(), String>)
    requires
        loaded.wf(),
    ensures
        ({
            let i = first_missing(keys@, loaded@.dom(), 0);
            match r {
                Ok(_) => i == keys@.len(),
                Err(text) => i < keys@.len() && text@ == missing_atlas_text(keys@[i]@),
            }
        }),
{
    let mut i: usize = 0;
    while i < keys.len()
        invariant
            i <= keys@.len(),
            loaded.wf(),
            first_missing(keys@, loaded@.dom(), 0) == first_missing(
                keys@,
                loaded@.dom(),
                i as int,
            ),
        decreases keys@.len() - i,
    {
        if !loaded.contains_key(keys[i].as_str()) {
            return Err(
                join3(
                    "Scene requires atlas '",
                    keys[i].as_str(),
                    "' which is not loaded. Call AssetManager::load_atlas before loading the scene.",
                ),
            );
        }
        i = i + 1;
    }
    Ok(())
}

/// A mesh that could not be had, and why.
pub struct MissingMesh {
    pub key: String,
    pub path: Option<String>,
    pub reason: String,
}

impl MissingMesh {
    pub open spec fn text(self) -> Seq<char> {
        self.key@ + " ("@ + (match self.path {
            Some(path) => path@,
            None => "no path provided"@,
        }) + ") : "@ + self.reason@
    }
}

/// The first `n` missing meshes, one after the other.
pub open spec fn missing_listed(missing: Seq<MissingMesh>, n: int) -> Seq<char>
    decreases n,
{
    if n <= 0 {
        Seq::empty()
    } else if n == 1 {
        missing[0].text()
    } else {
        missing_listed(missing, n - 1) + ", "@ + missing[n - 1].text()
    }
}

fn list_missing(head: &str, missing: &Vec<MissingMesh>) -> (r: String)
    ensures
        r@ == head@ + missing_listed(missing@, missing@.len() as int),
{
    let mut out = head.to_owned();
    let mut i: usize = 0;
    assert(out@ =~= head@ + missing_listed(missing@, 0));
    while i < missing.len()
        invariant
            i <= missing@.len(),
            out@ == head@ + missing_listed(missing@, i as int),
        decreases missing@.len() - i,
    {
        let m = &missing[i];
        if i > 0 {
            out.append(", ");
        }
        let path = match &m.path {
            Some(path) => path.as_str(),
            None => "no path provided",
        };
        let mut text = join3(m.key.as_str(), " (", path);
        text.append(") : ");
        text.append(m.reason.as_str());
        assert(text@ =~= m.text());
        out.append(text.as_str());
        assert(out@ =~= head@ + missing_listed(missing@, i + 1));
        i = i + 1;
    }
    out
}

/// Whether all meshes of a scene could be had; if not, what is said of those that could not.
pub fn check_meshes(missing: &Vec<MissingMesh>) -> (r: Result<(), String>)
    ensures
        match r {
            Ok(_) => missing@.len() == 0,
            Err(text) => missing@.len() > 0 && text@
                == "Scene requires meshes that are unavailable: "@ + missing_listed(
                missing@,
                missing@.len() as int,
            ),
        },
{
    if missing.len() == 0 {
        return Ok(());
    }
    Err(list_missing("Scene requires meshes that are unavailable: ", missing))
}

/// The same for a scene that comes from a file, whose meshes are prepared before it is loaded.
pub fn check_prepared_meshes(missing: &Vec<MissingMesh>) -> (r: Result<(), String>)
    ensures
        match r {
            Ok(_) => missing@.len() == 0,
            Err(text) => missing@.len() > 0 && text@
                == "Scene requires meshes that could not be prepared: "@ + missing_listed(
                missing@,
                missing@.len() as int,
            ),
        },
{
    if missing.len() == 0 {
        return Ok(());
    }
    Err(list_missing("Scene requires meshes that could not be prepared: ", missing))
}

/// What is to be done for an atlas that a scene from a file needs.
#[derive(Clone, Copy, Debug, PartialEq, Eq, Structural)]
pub enum AtlasStep {
    There,
    Load,
    NoPath,
}

pub fn atlas_step(key: &str, path: &Option<String>, loaded: &TextMap<()>) -> (r: AtlasStep)
    requires
        loaded.wf(),
    ensures
        r == (if loaded@.contains_key(key@) {
            AtlasStep::There
        } else if path is Some {
            AtlasStep::Load
        } else {
            AtlasStep::NoPath
        }),
{
    if loaded.contains_key(key) {
        AtlasStep::There
    } else if path.is_some() {
        AtlasStep::Load
    } else {
        AtlasStep::NoPath
    }
}

/// An atlas that could not be loaded: where it was looked for and why it was not loaded, or
/// nothing where it had no path.
pub struct MissingAtlas {
    pub key: String,
    pub tried: Option<(String, String)>,
}

impl MissingAtlas {
    pub open spec fn text(self) -> Seq<char> {
        match self.tried {
            Some((path, reason)) => self.key@ + " ("@ + path@ + "): "@ + reason@,
            None => self.key@ + " (no path provided)"@,
        }
    }
}

/// The first `n` missing atlases, one after the other.
pub open spec fn atlases_listed(missing: Seq<MissingAtlas>, n: int) -> Seq<char>
    decreases n,
{
    if n <= 0 {
        Seq::empty()
    } else if n == 1 {
        missing[0].text()
    } else {
        atlases_listed(missing, n - 1) + ", "@ + missing[n - 1].text()
    }
}

/// Whether all atlases of a scene from a file could be loaded; if not, what is said of those that
/// could not.
pub fn check_loaded_atlases(missing: &Vec<MissingAtlas>) -> (r: Result<(), String>)
    ensures
        match r {
            Ok(_) => missing@.len() == 0,
            Err(text) => missing@.len() > 0 && text@
                == "Scene requires atlases that could not be loaded: "@ + atlases_listed(
                missing@,
                missing@.len() as int,
            ),
        },
{
    if missing.len() == 0 {
        return Ok(());
    }
    let head = "Scene requires atlases that could not be loaded: ";
    let mut out = head.to_owned();
    let mut i: usize = 0;
    assert(out@ =~= head@ + atlases_listed(missing@, 0));
    while i < missing.len()
        invariant
            i <= missing@.len(),
            out@ == head@ + atlases_listed(missing@, i as int),
        decreases missing@.len() - i,
    {
        let m = &missing[i];
        if i > 0 {
            out.append(", ");
        }
        let text = match &m.tried {
            Some((path, reason)) => {
                let mut text = join3(m.key.as_str(), " (", path.as_str());
                text.append("): ");
                text.append(reason.as_str());
                text
            },
            None => join3(m.key.as_str(), " (no path provided)", ""),
        };
        proof {
            reveal_strlit("");
            assert(text@ =~= m.text());
        }
        out.append(text.as_str());
        assert(out@ =~= head@ + atlases_listed(missing@, i + 1));
        i = i + 1;
    }
    Err(out)
}

/// The first `n` keys, one after the other.
pub open spec fn keys_listed(keys: Seq<String>, n: int) -> Seq<char>
    decreases n,
{
    if n <= 0 {
        Seq::empty()
    } else if n == 1 {
        keys[0]@
    } else {
        keys_listed(keys, n - 1) + ", "@ + keys[n - 1]@
    }
}

/// Whether a scene can be written without the paths of its meshes, which it can where it has none;
/// if not, what is said of them.
pub fn check_mesh_sources(keys: &Vec<String>) -> (r: Result<(), String>)
    ensures
        match r {
            Ok(_) => keys@.len() == 0,
            Err(text) => keys@.len() > 0 && text@ == "Scene references meshes ("@ + keys_listed(
                keys@,
                keys@.len() as int,
            )
                + ") but no mesh source exporter was provided. Use save_scene_to_path_with_mesh_source to record mesh paths."@,
        },
{
    if keys.len() == 0 {
        return Ok(());
    }
    let head = "Scene references meshes (";
    let mut out = head.to_owned();
    let mut i: usize = 0;
    assert(out@ =~= head@ + keys_listed(keys@, 0));
    while i < keys.len()
        invariant
            i <= keys@.len(),
            out@ == head@ + keys_listed(keys@, i as int),
        decreases keys@.len() - i,
    {
        if i > 0 {
            out.append(", ");
        }
        out.append(keys[i].as_str());
        assert(out@ =~= head@ + keys_listed(keys@, i + 1));
        i = i + 1;
    }
    out.append(
        ") but no mesh source exporter was provided. Use save_scene_to_path_with_mesh_source to record mesh paths.",
    );
    Err(out)
}

} // verus!
