//! Mod loaders (Fabric, Quilt): their metadata, where their files live and
//! which of the published versions are picked.
use vstd::prelude::*;
use crate::paths::{join_path, maven_path_spec, maven_to_path, path_join};
use crate::text::{
    ends_with, extend_str, has_substring, lowercase_of, starts_with, str_contains, str_ends_with,
    str_eq, str_starts_with, string_from_chars, to_lowercase,
};
use crate::version::{first_set_indices, json_string_field_of, recorded_version_id, true_indices, usize_ints};

verus! {

// ------------------------------------------------------------------
// Records
// ------------------------------------------------------------------

/// One entry of the loader list for a game version.
pub struct FabricLoaderResponse {
    pub loader: FabricLoader,
}

pub struct FabricLoader {
    pub version: String,
    pub stable: bool,
}

/// One entry of the list of all Fabric loader versions.
pub struct FabricLoaderVersion {
    pub version: String,
    pub stable: bool,
}

/// One entry of the list of all Quilt loader versions.
pub struct QuiltLoaderVersion {
    pub version: String,
    pub maven: String,
}

/// What the loader adds to a launch: its main class and libraries.
pub struct FabricProfile {
    pub main_class: String,
    pub libraries: Vec<FabricLibrary>,
}

/// A library by maven coordinate and the repository it is fetched from.
pub struct FabricLibrary {
    pub name: String,
    pub url: String,
}

/// A directory entry as the file system listed it.
pub struct EntryInfo {
    pub name: String,
    pub is_file: bool,
    pub is_dir: bool,
}

// ------------------------------------------------------------------
// Addresses
// ------------------------------------------------------------------

pub open spec fn fabric_meta_loader_url() -> Seq<char> {
    "https://meta.fabricmc.net/v2/versions/loader/"@
}

/// The list of loaders published for a game version.
pub fn fabric_loaders_url(game_version: &str) -> (r: String)
    ensures
        r@ == fabric_meta_loader_url() + game_version@,
{
    let mut u: Vec<char> = Vec::new();
    extend_str(&mut u, "https://meta.fabricmc.net/v2/versions/loader/");
    extend_str(&mut u, game_version);
    string_from_chars(u.as_slice())
}

/// The list of all Fabric loader versions.
pub fn fabric_all_loaders_url() -> (r: String)
    ensures
        r@ == "https://meta.fabricmc.net/v2/versions/loader"@,
{
    String::from_str("https://meta.fabricmc.net/v2/versions/loader")
}

/// The Quilt loader versions: all of them, or those published for a game
/// version.
pub fn quilt_loaders_url(game_version: Option<&str>) -> (r: String)
    ensures
        r@ == match game_version {
            Some(g) => "https://meta.quiltmc.org/v3/versions/loader/"@ + g@,
            None => "https://meta.quiltmc.org/v3/versions/loader"@,
        },
{
    match game_version {
        Some(g) => {
            let mut u: Vec<char> = Vec::new();
            extend_str(&mut u, "https://meta.quiltmc.org/v3/versions/loader/");
            extend_str(&mut u, g);
            string_from_chars(u.as_slice())
        },
        None => String::from_str("https://meta.quiltmc.org/v3/versions/loader"),
    }
}

/// The launch profile of a loader version for a game version.
pub fn fabric_profile_url(game_version: &str, loader_version: &str) -> (r: String)
    ensures
        r@ == fabric_meta_loader_url() + game_version@ + seq!['/'] + loader_version@
            + "/profile/json"@,
{
    let mut u: Vec<char> = Vec::new();
    extend_str(&mut u, "https://meta.fabricmc.net/v2/versions/loader/");
    extend_str(&mut u, game_version);
    u.push('/');
    extend_str(&mut u, loader_version);
    extend_str(&mut u, "/profile/json");
    string_from_chars(u.as_slice())
}

/// The file a fetched profile is kept in, inside the instance directory.
pub fn fabric_profile_file_name(game_version: &str, loader_version: &str) -> (r: String)
    ensures
        r@ == "fabric_profile_"@ + game_version@ + seq!['_'] + loader_version@ + ".json"@,
{
    let mut u: Vec<char> = Vec::new();
    extend_str(&mut u, "fabric_profile_");
    extend_str(&mut u, game_version);
    u.push('_');
    extend_str(&mut u, loader_version);
    extend_str(&mut u, ".json");
    string_from_chars(u.as_slice())
}

/// Where a library is fetched from: the repository URL followed by the
/// library's maven path, and that path.
pub fn fabric_library_download(lib: &FabricLibrary) -> (r: (String, String))
    ensures
        r.1@ == maven_path_spec(lib.name@),
        r.0@ == lib.url@ + maven_path_spec(lib.name@),
{
    let rel = maven_to_path(lib.name.as_str());
    let mut u: Vec<char> = Vec::new();
    extend_str(&mut u, lib.url.as_str());
    extend_str(&mut u, rel.as_str());
    (string_from_chars(u.as_slice()), rel)
}

/// A shared library is stored once under `<clients>/<game>/objects` and
/// linked into `<clients>/<game>/libraries`: the link's path, then the
/// stored file's path.
pub fn pool_paths(clients_dir: &str, game_name: &str, rel: &str) -> (r: (String, String))
    ensures
        r.0@ == path_join(path_join(path_join(clients_dir@, game_name@), "libraries"@), rel@),
        r.1@ == path_join(path_join(path_join(clients_dir@, game_name@), "objects"@), rel@),
{
    let game = join_path(clients_dir, game_name);
    let libs = join_path(game.as_str(), "libraries");
    let objs = join_path(game.as_str(), "objects");
    (join_path(libs.as_str(), rel), join_path(objs.as_str(), rel))
}

// ------------------------------------------------------------------
// Choosing a loader version
// ------------------------------------------------------------------

pub open spec fn no_stable_loader_message() -> Seq<char> {
    "Cannot find latest stable Fabric Loader"@
}

/// The first stable loader of the list, which the server gives newest
/// first.
pub fn latest_stable_loader(resp: &Vec<FabricLoaderResponse>) -> (r: Result<String, String>)
    ensures
        match r {
            Ok(v) => exists|i: int| {
                &&& 0 <= i < resp.len()
                &&& #[trigger] resp@[i].loader.stable
                &&& v@ == resp@[i].loader.version@
                &&& forall|j: int| 0 <= j < i ==> !(#[trigger] resp@[j].loader.stable)
            },
            Err(m) => m@ == no_stable_loader_message() && forall|j: int|
                0 <= j < resp.len() ==> !(#[trigger] resp@[j].loader.stable),
        },
{
    let mut i: usize = 0;
    while i < resp.len()
        invariant
            i <= resp.len(),
            forall|j: int| 0 <= j < i ==> !(#[trigger] resp@[j].loader.stable),
        decreases resp.len() - i,
    {
        if resp[i].loader.stable {
            let v = resp[i].loader.version.clone();
            assert(resp@[i as int].loader.stable);
            return Ok(v);
        }
        i += 1;
    }
    Err(String::from_str("Cannot find latest stable Fabric Loader"))
}

pub open spec fn missing_game_id_message() -> Seq<char> {
    "Cannot find game id"@
}

/// The game version a loader is installed for: the ID recorded in the
/// instance's `version.json`; an error when the file is not JSON or has no
/// textual ID.
pub fn loader_game_version(version_json: &str) -> (r: Result<String, String>)
    ensures
        match json_string_field_of(version_json@, "id"@) {
            Err(e) => r matches Err(m) && m@ == e,
            Ok(None) => r matches Err(m) && m@ == missing_game_id_message(),
            Ok(Some(id)) => r matches Ok(v) && v@ == id,
        },
{
    match recorded_version_id(version_json) {
        Err(e) => Err(e),
        Ok(None) => Err(String::from_str("Cannot find game id")),
        Ok(Some(id)) => Ok(id),
    }
}

/// `search loader fabric`: the indices of the first `limit` versions,
/// only the stable ones if asked.
pub fn filter_fabric_versions(versions: &Vec<FabricLoaderVersion>, stable: bool, limit: usize) -> (r: Vec<usize>)
    ensures
        exists|flags: Seq<bool>| {
            &&& flags.len() == versions.len()
            &&& forall|i: int| 0 <= i < versions.len() ==> #[trigger] flags[i] == (!stable
                || versions@[i].stable)
            &&& usize_ints(r@) == true_indices(flags).take(
                if limit < true_indices(flags).len() { limit as int } else { true_indices(flags).len() as int },
            )
        },
{
    let mut flags: Vec<bool> = Vec::new();
    let mut i: usize = 0;
    while i < versions.len()
        invariant
            i <= versions.len(),
            flags.len() == i,
            forall|j: int| 0 <= j < i ==> #[trigger] flags@[j] == (!stable || versions@[j].stable),
        decreases versions.len() - i,
    {
        flags.push(!stable || versions[i].stable);
        i += 1;
    }
    first_set_indices(&flags, limit)
}

/// A Quilt version counts as stable when its lowercased name holds
/// neither `beta` nor `alpha`.
pub open spec fn quilt_version_stable(version: Seq<char>) -> bool {
    !has_substring(lowercase_of(version), "beta"@) && !has_substring(lowercase_of(version), "alpha"@)
}

/// `search loader quilt`: the indices of the first `limit` versions,
/// only the stable ones if asked.
pub fn filter_quilt_versions(versions: &Vec<QuiltLoaderVersion>, stable: bool, limit: usize) -> (r: Vec<usize>)
    ensures
        exists|flags: Seq<bool>| {
            &&& flags.len() == versions.len()
            &&& forall|i: int| 0 <= i < versions.len() ==> #[trigger] flags[i] == (!stable
                || quilt_version_stable(versions@[i].version@))
            &&& usize_ints(r@) == true_indices(flags).take(
                if limit < true_indices(flags).len() { limit as int } else { true_indices(flags).len() as int },
            )
        },
{
    let mut flags: Vec<bool> = Vec::new();
    let mut i: usize = 0;
    while i < versions.len()
        invariant
            i <= versions.len(),
            flags.len() == i,
            forall|j: int| 0 <= j < i ==> #[trigger] flags@[j] == (!stable || quilt_version_stable(
                versions@[j].version@,
            )),
        decreases versions.len() - i,
    {
        let keep = if stable {
            let lower = to_lowercase(versions[i].version.as_str());
            !str_contains(lower.as_str(), "beta") && !str_contains(lower.as_str(), "alpha")
        } else {
            true
        };
        flags.push(keep);
        i += 1;
    }
    first_set_indices(&flags, limit)
}

// ------------------------------------------------------------------
// Files of an instance
// ------------------------------------------------------------------

/// The first entry satisfying `p`, if any.
pub open spec fn first_entry(entries: Seq<EntryInfo>, r: Option<usize>, p: spec_fn(EntryInfo) -> bool) -> bool {
    match r {
        Some(i) => i < entries.len() && p(entries[i as int]) && forall|j: int|
            0 <= j < i ==> !p(#[trigger] entries[j]),
        None => forall|j: int| 0 <= j < entries.len() ==> !p(#[trigger] entries[j]),
    }
}

pub open spec fn is_game_json(e: EntryInfo) -> bool {
    e.is_file && e.name@ == "version.json"@
}

/// A loader profile: a file whose name starts with `fabric` and ends with
/// `.json`.
pub open spec fn is_fabric_json(e: EntryInfo) -> bool {
    e.is_file && starts_with(e.name@, "fabric"@) && ends_with(e.name@, ".json"@)
}

/// The version file of an instance among its directory entries.
pub fn find_game_json(entries: &Vec<EntryInfo>) -> (r: Option<usize>)
    ensures
        first_entry(entries@, r, |e: EntryInfo| is_game_json(e)),
{
    let mut i: usize = 0;
    while i < entries.len()
        invariant
            i <= entries.len(),
            forall|j: int| 0 <= j < i ==> !is_game_json(#[trigger] entries@[j]),
        decreases entries.len() - i,
    {
        if entries[i].is_file && str_eq(entries[i].name.as_str(), "version.json") {
            return Some(i);
        }
        i += 1;
    }
    None
}

/// The loader profile of an instance among its directory entries.
pub fn find_fabric_json(entries: &Vec<EntryInfo>) -> (r: Option<usize>)
    ensures
        first_entry(entries@, r, |e: EntryInfo| is_fabric_json(e)),
{
    let mut i: usize = 0;
    while i < entries.len()
        invariant
            i <= entries.len(),
            forall|j: int| 0 <= j < i ==> !is_fabric_json(#[trigger] entries@[j]),
        decreases entries.len() - i,
    {
        let name = entries[i].name.as_str();
        if entries[i].is_file && str_starts_with(name, "fabric") && str_ends_with(name, ".json") {
            return Some(i);
        }
        i += 1;
    }
    None
}

pub open spec fn missing_game_json_message(dir: Seq<char>) -> Seq<char> {
    "No JSON version file found in "@ + dir
}

pub fn missing_game_json(dir: &str) -> (r: String)
    ensures
        r@ == missing_game_json_message(dir@),
{
    let mut m: Vec<char> = Vec::new();
    extend_str(&mut m, "No JSON version file found in ");
    extend_str(&mut m, dir);
    string_from_chars(m.as_slice())
}

/// The loader a profile file belongs to, by the start of its name.
pub open spec fn loader_type_spec(stem: Seq<char>) -> Option<Seq<char>> {
    if starts_with(stem, "fabric"@) {
        Some("fabric"@)
    } else if starts_with(stem, "quilt"@) {
        Some("quilt"@)
    } else {
        None
    }
}

pub fn loader_type_of_stem(stem: &str) -> (r: Option<String>)
    ensures
        match r {
            Some(t) => loader_type_spec(stem@) == Some(t@),
            None => loader_type_spec(stem@) is None,
        },
{
    if str_starts_with(stem, "fabric") {
        Some(String::from_str("fabric"))
    } else if str_starts_with(stem, "quilt") {
        Some(String::from_str("quilt"))
    } else {
        None
    }
}

} // verus!
