//! Choices made when searching, installing and removing mods.
use vstd::prelude::*;
use crate::cli::{loader_name, ModArgs, SearchModArgs};
use crate::modrinth::{
    DepEntry, ListVersionsParams, ModDependency, ModEntry, ModHit, ModManifest, SearchParams,
    Version, VersionFile,
};
use crate::paths::{invalid_instance_message, path_join, valid_instance_name, join_path, validate_instance_name};
use crate::text::{
    contains_substring, extend_str, has_substring, lowercase_of, str_eq, string_from_chars,
    to_lowercase, chars_of,
};

verus! {

// ------------------------------------------------------------------
// First index satisfying a condition
// ------------------------------------------------------------------

pub open spec fn first_where_from(i: int, n: int, p: spec_fn(int) -> bool) -> Option<int>
    decreases n - i,
{
    if i >= n {
        None
    } else if p(i) {
        Some(i)
    } else {
        first_where_from(i + 1, n, p)
    }
}

/// The smallest index below `n` at which `p` holds.
pub open spec fn first_where(n: int, p: spec_fn(int) -> bool) -> Option<int> {
    first_where_from(0, n, p)
}

proof fn lemma_first_where_ext(i: int, n: int, p: spec_fn(int) -> bool, q: spec_fn(int) -> bool)
    requires
        forall|j: int| i <= j < n ==> #[trigger] p(j) == q(j),
    ensures
        first_where_from(i, n, p) == first_where_from(i, n, q),
    decreases n - i,
{
    if i < n {
        lemma_first_where_ext(i + 1, n, p, q);
    }
}

proof fn lemma_first_where_skip(i: int, n: int, p: spec_fn(int) -> bool)
    requires
        0 <= i,
        forall|j: int| 0 <= j < i ==> !#[trigger] p(j),
    ensures
        first_where_from(0, n, p) == first_where_from(i, n, p),
    decreases i,
{
    if i > 0 {
        lemma_first_where_skip(i - 1, n, p);
        if i - 1 < n {
            assert(!p(i - 1));
        }
    }
}

/// What `first_where_from` finds: the least index in `[i, n)` at which
/// `p` holds, and nothing when there is none.
proof fn lemma_first_where_found(i: int, n: int, p: spec_fn(int) -> bool)
    ensures
        match first_where_from(i, n, p) {
            Some(k) => i <= k < n && p(k) && forall|j: int| i <= j < k ==> !#[trigger] p(j),
            None => forall|j: int| i <= j < n ==> !#[trigger] p(j),
        },
    decreases n - i,
{
    if i < n && !p(i) {
        lemma_first_where_found(i + 1, n, p);
    }
}

/// The first `true` flag.
fn first_true(flags: &Vec<bool>) -> (r: Option<usize>)
    ensures
        r == (match first_where(flags.len() as int, |j: int| flags@[j]) {
            Some(j) => Some(j as usize),
            None => None::<usize>,
        }),
        r matches Some(i) ==> i < flags.len(),
{
    let ghost p = |j: int| flags@[j];
    let mut i: usize = 0;
    while i < flags.len()
        invariant
            i <= flags.len(),
            p == (|j: int| flags@[j]),
            forall|j: int| 0 <= j < i ==> !#[trigger] p(j),
        decreases flags.len() - i,
    {
        if flags[i] {
            proof {
                lemma_first_where_skip(i as int, flags.len() as int, p);
            }
            return Some(i);
        }
        i += 1;
    }
    proof {
        lemma_first_where_skip(i as int, flags.len() as int, p);
    }
    None
}

// ------------------------------------------------------------------
// Choosing a version and a file
// ------------------------------------------------------------------

/// Why no version could be chosen.
pub enum VersionChoiceError {
    /// No version has the requested release channel; the channels that
    /// were offered, in order.
    NoVersionOfType { wanted: String, available: Vec<String> },
    /// The project has no version matching the filters.
    NoMatchingVersion,
}

/// The version to install: the first of the requested release channel, or
/// the first one listed when no channel is requested.
pub fn select_version(versions: &Vec<Version>, version_type: Option<&str>) -> (r: Result<
    usize,
    VersionChoiceError,
>)
    ensures
        match version_type {
            Some(vt) => match first_where(
                versions.len() as int,
                |j: int| versions@[j].version_type@ == vt@,
            ) {
                Some(j) => r == Ok::<usize, VersionChoiceError>(j as usize),
                None => r matches Err(VersionChoiceError::NoVersionOfType { wanted, available }) && wanted@
                    == vt@ && available@.len() == versions.len() && forall|k: int|
                    0 <= k < versions.len() ==> #[trigger] available@[k]@ == versions@[k].version_type@,
            },
            None => if versions.len() > 0 {
                r == Ok::<usize, VersionChoiceError>(0)
            } else {
                r matches Err(VersionChoiceError::NoMatchingVersion)
            },
        },
{
    match version_type {
        Some(vt) => {
            let mut flags: Vec<bool> = Vec::new();
            let mut available: Vec<String> = Vec::new();
            let mut i: usize = 0;
            while i < versions.len()
                invariant
                    i <= versions.len(),
                    flags.len() == i,
                    available.len() == i,
                    forall|k: int| 0 <= k < i ==> #[trigger] flags@[k] == (versions@[k].version_type@ == vt@),
                    forall|k: int| 0 <= k < i ==> #[trigger] available@[k]@ == versions@[k].version_type@,
                decreases versions.len() - i,
            {
                flags.push(str_eq(versions[i].version_type.as_str(), vt));
                available.push(versions[i].version_type.clone());
                i += 1;
            }
            let r = first_true(&flags);
            proof {
                lemma_first_where_ext(
                    0,
                    versions.len() as int,
                    |j: int| flags@[j],
                    |j: int| versions@[j].version_type@ == vt@,
                );
            }
            match r {
                Some(j) => Ok(j),
                None => Err(
                    VersionChoiceError::NoVersionOfType {
                        wanted: String::from_str(vt),
                        available,
                    },
                ),
            }
        },
        None => {
            if versions.len() > 0 {
                Ok(0)
            } else {
                Err(VersionChoiceError::NoMatchingVersion)
            }
        },
    }
}

/// A file belongs to the loader when its lowercased name contains the
/// lowercased loader name; every file belongs when no loader is given.
pub open spec fn file_for_loader(f: VersionFile, loader: Option<Seq<char>>) -> bool {
    match loader {
        Some(l) => has_substring(lowercase_of(f.filename@), lowercase_of(l)),
        None => true,
    }
}

/// The positions of the primary files of the loader.
pub open spec fn primary_of_loader(files: Seq<VersionFile>, loader: Option<Seq<char>>) -> spec_fn(int) -> bool {
    |j: int| files[j].primary && file_for_loader(files[j], loader)
}

/// The positions of the files of the loader.
pub open spec fn of_loader(files: Seq<VersionFile>, loader: Option<Seq<char>>) -> spec_fn(int) -> bool {
    |j: int| file_for_loader(files[j], loader)
}

/// The positions of the primary files.
pub open spec fn primary_file(files: Seq<VersionFile>) -> spec_fn(int) -> bool {
    |j: int| files[j].primary
}

/// The file to download: the first primary file of the loader, else the
/// first file of the loader, else the first primary file, else the first
/// file.
pub open spec fn file_choice(files: Seq<VersionFile>, loader: Option<Seq<char>>) -> Option<int> {
    let ghost n = files.len() as int;
    match first_where(n, |j: int| files[j].primary && file_for_loader(files[j], loader)) {
        Some(j) => Some(j),
        None => match first_where(n, |j: int| file_for_loader(files[j], loader)) {
            Some(j) => Some(j),
            None => match first_where(n, |j: int| files[j].primary) {
                Some(j) => Some(j),
                None => if n > 0 {
                    Some(0)
                } else {
                    None
                },
            },
        },
    }
}

/// The file chosen for download: the first primary file of the loader
/// when there is one; else the first file of the loader when there is one
/// (a loader's file is preferred to another loader's primary file); else
/// the first primary file; else the first file. Only an empty list gives
/// no file.
pub proof fn law_file_choice(files: Seq<VersionFile>, loader: Option<Seq<char>>)
    ensures
        files.len() == 0 ==> file_choice(files, loader) is None,
        files.len() > 0 ==> (file_choice(files, loader) matches Some(i) && 0 <= i < files.len()),
        (exists|j: int| 0 <= j < files.len() && files[j].primary && #[trigger] file_for_loader(files[j], loader))
            ==> (file_choice(files, loader) matches Some(i) && files[i].primary && file_for_loader(files[i], loader)
            && forall|k: int| 0 <= k < i ==> !(files[k].primary && #[trigger] file_for_loader(files[k], loader))),
        (forall|j: int| 0 <= j < files.len() ==> !(files[j].primary && #[trigger] file_for_loader(files[j], loader)))
            && (exists|j: int| 0 <= j < files.len() && #[trigger] file_for_loader(files[j], loader))
            ==> (file_choice(files, loader) matches Some(i) && file_for_loader(files[i], loader)
            && forall|k: int| 0 <= k < i ==> !#[trigger] file_for_loader(files[k], loader)),
        (forall|j: int| 0 <= j < files.len() ==> !#[trigger] file_for_loader(files[j], loader))
            && (exists|j: int| 0 <= j < files.len() && #[trigger] files[j].primary)
            ==> (file_choice(files, loader) matches Some(i) && files[i].primary
            && forall|k: int| 0 <= k < i ==> !#[trigger] files[k].primary),
        (forall|j: int| 0 <= j < files.len() ==> !#[trigger] file_for_loader(files[j], loader))
            && (forall|j: int| 0 <= j < files.len() ==> !#[trigger] files[j].primary)
            && files.len() > 0 ==> file_choice(files, loader) == Some(0int),
{
    let n = files.len() as int;
    lemma_first_where_found(0, n, primary_of_loader(files, loader));
    lemma_first_where_found(0, n, of_loader(files, loader));
    lemma_first_where_found(0, n, primary_file(files));
    if exists|j: int| 0 <= j < files.len() && files[j].primary && #[trigger] file_for_loader(files[j], loader) {
        let j = choose|j: int| 0 <= j < files.len() && files[j].primary && #[trigger] file_for_loader(files[j], loader);
        assert(primary_of_loader(files, loader)(j));
    }
    if exists|j: int| 0 <= j < files.len() && #[trigger] file_for_loader(files[j], loader) {
        let j = choose|j: int| 0 <= j < files.len() && #[trigger] file_for_loader(files[j], loader);
        assert(of_loader(files, loader)(j));
    }
    if exists|j: int| 0 <= j < files.len() && #[trigger] files[j].primary {
        let j = choose|j: int| 0 <= j < files.len() && #[trigger] files[j].primary;
        assert(primary_file(files)(j));
    }
    match first_where(n, primary_of_loader(files, loader)) {
        Some(i) => {
            assert forall|k: int| 0 <= k < i implies !(files[k].primary && #[trigger] file_for_loader(files[k], loader)) by {
                assert(!primary_of_loader(files, loader)(k));
            }
        },
        None => {
            assert forall|j: int| 0 <= j < files.len() implies !(files[j].primary && #[trigger] file_for_loader(files[j], loader)) by {
                assert(!primary_of_loader(files, loader)(j));
            }
            match first_where(n, of_loader(files, loader)) {
                Some(i) => {
                    assert forall|k: int| 0 <= k < i implies !#[trigger] file_for_loader(files[k], loader) by {
                        assert(!of_loader(files, loader)(k));
                    }
                },
                None => {
                    match first_where(n, primary_file(files)) {
                        Some(i) => {
                            assert forall|k: int| 0 <= k < i implies !#[trigger] files[k].primary by {
                                assert(!primary_file(files)(k));
                            }
                        },
                        None => {},
                    }
                },
            }
        },
    }
}

pub open spec fn opt_view(o: Option<&str>) -> Option<Seq<char>> {
    match o {
        Some(s) => Some(s@),
        None => None,
    }
}

/// Chooses the file of a version to download (see `file_choice`).
pub fn select_file(files: &Vec<VersionFile>, loader: Option<&str>) -> (r: Option<usize>)
    ensures
        r == (match file_choice(files@, opt_view(loader)) {
            Some(j) => Some(j as usize),
            None => None::<usize>,
        }),
{
    let ghost lv = opt_view(loader);
    let lower_loader: Option<String> = match loader {
        Some(l) => Some(to_lowercase(l)),
        None => None,
    };
    let mut both: Vec<bool> = Vec::new();
    let mut matching: Vec<bool> = Vec::new();
    let mut primary: Vec<bool> = Vec::new();
    let mut i: usize = 0;
    while i < files.len()
        invariant
            i <= files.len(),
            lv == opt_view(loader),
            match lower_loader {
                Some(ll) => lv matches Some(l) && ll@ == lowercase_of(l),
                None => lv is None,
            },
            both.len() == i,
            matching.len() == i,
            primary.len() == i,
            forall|k: int| 0 <= k < i ==> #[trigger] matching@[k] == file_for_loader(files@[k], lv),
            forall|k: int| 0 <= k < i ==> #[trigger] primary@[k] == files@[k].primary,
            forall|k: int| 0 <= k < i ==> #[trigger] both@[k] == (files@[k].primary && file_for_loader(files@[k], lv)),
        decreases files.len() - i,
    {
        let m = match &lower_loader {
            Some(ll) => {
                let lf = to_lowercase(files[i].filename.as_str());
                let a = chars_of(lf.as_str());
                let b = chars_of(ll.as_str());
                contains_substring(a.as_slice(), b.as_slice())
            },
            None => true,
        };
        let p = files[i].primary;
        matching.push(m);
        primary.push(p);
        both.push(p && m);
        i += 1;
    }
    let ghost n = files.len() as int;
    proof {
        lemma_first_where_ext(0, n, |j: int| both@[j], |j: int| files@[j].primary && file_for_loader(files@[j], lv));
        lemma_first_where_ext(0, n, |j: int| matching@[j], |j: int| file_for_loader(files@[j], lv));
        lemma_first_where_ext(0, n, |j: int| primary@[j], |j: int| files@[j].primary);
    }
    match first_true(&both) {
        Some(j) => Some(j),
        None => match first_true(&matching) {
            Some(j) => Some(j),
            None => match first_true(&primary) {
                Some(j) => Some(j),
                None => if files.len() > 0 {
                    Some(0)
                } else {
                    None
                },
            },
        },
    }
}

// ------------------------------------------------------------------
// Request parameters for installing and searching
// ------------------------------------------------------------------

pub open spec fn mod_facet() -> Seq<char> {
    "project_type:mod"@
}

/// The search for the mod to install: the single most downloaded mod
/// project, restricted to the game version when one is given.
pub fn mod_search_params(query: &str, game_version: Option<&str>) -> (r: SearchParams)
    ensures
        r.query@ == query@,
        r.limit == Some(1i32),
        r.offset is None,
        r.index matches Some(i) && i@ == "downloads"@,
        r.facets matches Some(f) && f@.len() == (if game_version is Some { 2int } else { 1int })
            && f@[0]@.len() == 1 && f@[0]@[0]@ == mod_facet() && (game_version matches Some(gv) ==> f@[1]@.len()
            == 1 && f@[1]@[0]@ == "versions:"@ + gv@),
{
    let mut facets: Vec<Vec<String>> = Vec::new();
    let mut first: Vec<String> = Vec::new();
    first.push(String::from_str("project_type:mod"));
    facets.push(first);
    if let Some(gv) = game_version {
        let mut v: Vec<char> = Vec::new();
        extend_str(&mut v, "versions:");
        extend_str(&mut v, gv);
        let mut second: Vec<String> = Vec::new();
        second.push(string_from_chars(v.as_slice()));
        facets.push(second);
    }
    SearchParams {
        query: String::from_str(query),
        limit: Some(1),
        offset: None,
        index: Some(String::from_str("downloads")),
        facets: Some(facets),
    }
}

/// The version listing for the found project: filtered by loader and game
/// version when given, without changelogs.
pub fn mod_versions_params(project_id: &str, loader: Option<&str>, game_version: Option<&str>) -> (r:
    ListVersionsParams)
    ensures
        r.id_or_slug@ == project_id@,
        match loader {
            Some(l) => r.loaders matches Some(v) && v@.len() == 1 && v@[0]@ == l@,
            None => r.loaders is None,
        },
        match game_version {
            Some(g) => r.game_versions matches Some(v) && v@.len() == 1 && v@[0]@ == g@,
            None => r.game_versions is None,
        },
        r.featured is None,
        r.include_changelog == Some(false),
{
    let loaders = match loader {
        Some(l) => {
            let mut v: Vec<String> = Vec::new();
            v.push(String::from_str(l));
            Some(v)
        },
        None => None,
    };
    let game_versions = match game_version {
        Some(g) => {
            let mut v: Vec<String> = Vec::new();
            v.push(String::from_str(g));
            Some(v)
        },
        None => None,
    };
    ListVersionsParams {
        id_or_slug: String::from_str(project_id),
        loaders,
        game_versions,
        featured: None,
        include_changelog: Some(false),
    }
}

fn clone_opt(o: &Option<String>) -> (r: Option<String>)
    ensures
        r == *o,
{
    match o {
        Some(s) => Some(s.clone()),
        None => None,
    }
}

/// The search for `search mod`: the given limit, offset and sort order,
/// restricted to the game version when one is given.
pub fn search_mod_params(args: &SearchModArgs) -> (r: SearchParams)
    ensures
        r.query == args.query,
        r.limit == Some(args.limit),
        r.offset == args.offset,
        r.index == args.index,
        match args.game_version {
            Some(gv) => r.facets matches Some(f) && f@.len() == 1 && f@[0]@.len() == 1 && f@[0]@[0]@
                == "versions:"@ + gv@,
            None => r.facets is None,
        },
{
    let facets = match &args.game_version {
        Some(gv) => {
            let mut v: Vec<char> = Vec::new();
            extend_str(&mut v, "versions:");
            extend_str(&mut v, gv.as_str());
            let mut g: Vec<String> = Vec::new();
            g.push(string_from_chars(v.as_slice()));
            let mut f: Vec<Vec<String>> = Vec::new();
            f.push(g);
            Some(f)
        },
        None => None,
    };
    SearchParams {
        query: args.query.clone(),
        limit: Some(args.limit),
        offset: args.offset,
        index: clone_opt(&args.index),
        facets,
    }
}

/// What `install mod` is to do.
pub enum ModCommand {
    /// No query was given.
    Nothing,
    /// Search and list.
    Search(SearchParams),
    /// Download into an instance; the game version is read from the
    /// instance when not given.
    Download {
        query: String,
        instance: String,
        loader: String,
        game_version: Option<String>,
        version_type: Option<String>,
    },
}

pub open spec fn missing_instance_flag_message() -> Seq<char> {
    "--instance-name is required with --download"@
}

pub open spec fn missing_loader_message() -> Seq<char> {
    "--loader is required with --download"@
}

/// Decides `install mod` from its arguments. A download needs an instance
/// name, which must be valid, and a loader, checked in that order.
pub fn plan_mod_command(args: &ModArgs) -> (r: Result<ModCommand, String>)
    ensures
        match args.query {
            None => r matches Ok(ModCommand::Nothing),
            Some(q) => if !args.download {
                r matches Ok(ModCommand::Search(p)) && p.query == q && p.limit == args.limit
                    && p.offset is None && p.index is None && match args.game_version {
                    Some(gv) => p.facets matches Some(f) && f@.len() == 1 && f@[0]@.len() == 1
                        && f@[0]@[0]@ == "versions:"@ + gv@,
                    None => p.facets is None,
                }
            } else {
                match args.instance_name {
                    None => r matches Err(m) && m@ == missing_instance_flag_message(),
                    Some(inst) => if !valid_instance_name(inst@) {
                        r matches Err(m) && m@ == invalid_instance_message(inst@)
                    } else {
                        match args.loader {
                            None => r matches Err(m) && m@ == missing_loader_message(),
                            Some(l) => r matches Ok(
                                ModCommand::Download { query, instance, loader, game_version, version_type },
                            ) && query == q && instance == inst && loader@ == loader_name(l)
                                && game_version == args.game_version && version_type
                                == args.version_type,
                        }
                    }
                }
            },
        },
{
    match &args.query {
        None => Ok(ModCommand::Nothing),
        Some(query) => {
            if !args.download {
                let facets = match &args.game_version {
                    Some(gv) => {
                        let mut v: Vec<char> = Vec::new();
                        extend_str(&mut v, "versions:");
                        extend_str(&mut v, gv.as_str());
                        let mut g: Vec<String> = Vec::new();
                        g.push(string_from_chars(v.as_slice()));
                        let mut f: Vec<Vec<String>> = Vec::new();
                        f.push(g);
                        Some(f)
                    },
                    None => None,
                };
                return Ok(
                    ModCommand::Search(
                        SearchParams {
                            query: query.clone(),
                            limit: args.limit,
                            offset: None,
                            index: None,
                            facets,
                        },
                    ),
                );
            }
            let instance = match &args.instance_name {
                Some(i) => i,
                None => {
                    return Err(String::from_str("--instance-name is required with --download"));
                },
            };
            match validate_instance_name(instance.as_str()) {
                Ok(()) => {},
                Err(m) => {
                    return Err(m);
                },
            }
            let loader = match &args.loader {
                Some(l) => l.to_string(),
                None => {
                    return Err(String::from_str("--loader is required with --download"));
                },
            };
            Ok(
                ModCommand::Download {
                    query: query.clone(),
                    instance: instance.clone(),
                    loader,
                    game_version: clone_opt(&args.game_version),
                    version_type: clone_opt(&args.version_type),
                },
            )
        },
    }
}

pub open spec fn no_mod_found_message(query: Seq<char>) -> Seq<char> {
    "No mod found for '"@ + query + "'"@
}

/// The error when a search for the mod to install found nothing.
pub fn no_mod_found(query: &str) -> (r: String)
    ensures
        r@ == no_mod_found_message(query@),
{
    let mut m: Vec<char> = Vec::new();
    extend_str(&mut m, "No mod found for '");
    extend_str(&mut m, query);
    extend_str(&mut m, "'");
    string_from_chars(m.as_slice())
}

// ------------------------------------------------------------------
// Manifest of installed mods
// ------------------------------------------------------------------

/// The record of a dependency, with the project title when it was found.
pub fn dep_entry(dep: &ModDependency, name: Option<String>) -> (r: DepEntry)
    ensures
        r.name == name,
        r.project_id == dep.project_id,
        r.version_id == dep.version_id,
        r.dependency_type == dep.dependency_type,
{
    DepEntry {
        name,
        project_id: clone_opt(&dep.project_id),
        version_id: clone_opt(&dep.version_id),
        dependency_type: dep.dependency_type.clone(),
    }
}

/// The record of a freshly installed mod; loader and game version are
/// `unknown` when not given.
pub fn new_mod_entry(
    hit: &ModHit,
    version: &Version,
    file: &VersionFile,
    loader: Option<&str>,
    game_version: Option<&str>,
    installed_at: String,
    dependencies: Vec<DepEntry>,
) -> (r: ModEntry)
    ensures
        r.name == hit.title,
        r.project_id == hit.project_id,
        r.version_number == version.version_number,
        r.version_type == version.version_type,
        r.filename == file.filename,
        r.loader@ == (match loader {
            Some(l) => l@,
            None => "unknown"@,
        }),
        r.game_version@ == (match game_version {
            Some(g) => g@,
            None => "unknown"@,
        }),
        r.installed_at == installed_at,
        r.dependencies == dependencies,
{
    ModEntry {
        name: hit.title.clone(),
        project_id: hit.project_id.clone(),
        version_number: version.version_number.clone(),
        version_type: version.version_type.clone(),
        filename: file.filename.clone(),
        loader: match loader {
            Some(l) => String::from_str(l),
            None => String::from_str("unknown"),
        },
        game_version: match game_version {
            Some(g) => String::from_str(g),
            None => String::from_str("unknown"),
        },
        installed_at,
        dependencies,
    }
}

/// The first record of a project at or after `i`.
pub open spec fn project_index_from(mods: Seq<ModEntry>, pid: Seq<char>, i: int) -> Option<int>
    decreases mods.len() - i,
{
    if i < 0 || i >= mods.len() {
        None
    } else if mods[i].project_id@ == pid {
        Some(i)
    } else {
        project_index_from(mods, pid, i + 1)
    }
}

/// The first record of a project.
pub open spec fn project_index(mods: Seq<ModEntry>, pid: Seq<char>) -> Option<int> {
    project_index_from(mods, pid, 0)
}

/// The records after installing `e`: it replaces the first record of its
/// project, or is appended.
pub open spec fn upserted(mods: Seq<ModEntry>, e: ModEntry) -> Seq<ModEntry> {
    match project_index(mods, e.project_id@) {
        Some(i) => mods.update(i, e),
        None => mods.push(e),
    }
}

proof fn lemma_project_index_at(mods: Seq<ModEntry>, pid: Seq<char>, k: int, i: int)
    requires
        0 <= k <= i < mods.len(),
        forall|j: int| k <= j < i ==> #[trigger] mods[j].project_id@ != pid,
        mods[i].project_id@ == pid,
    ensures
        project_index_from(mods, pid, k) == Some(i),
    decreases i - k,
{
    if k < i {
        lemma_project_index_at(mods, pid, k + 1, i);
    }
}

proof fn lemma_project_index_none(mods: Seq<ModEntry>, pid: Seq<char>, k: int)
    requires
        0 <= k <= mods.len(),
        forall|j: int| k <= j < mods.len() ==> #[trigger] mods[j].project_id@ != pid,
    ensures
        project_index_from(mods, pid, k) is None,
    decreases mods.len() - k,
{
    if k < mods.len() {
        lemma_project_index_none(mods, pid, k + 1);
    }
}

proof fn lemma_project_index_found(mods: Seq<ModEntry>, pid: Seq<char>, k: int)
    requires
        0 <= k,
    ensures
        match project_index_from(mods, pid, k) {
            Some(i) => k <= i < mods.len() && mods[i].project_id@ == pid && forall|j: int|
                k <= j < i ==> #[trigger] mods[j].project_id@ != pid,
            None => forall|j: int| k <= j < mods.len() ==> #[trigger] mods[j].project_id@ != pid,
        },
    decreases mods.len() - k,
{
    if k < mods.len() {
        lemma_project_index_found(mods, pid, k + 1);
    }
}

/// Installing a mod twice records it as installing it once; after it the
/// project's first record is the new one.
pub proof fn law_upsert_idempotent(mods: Seq<ModEntry>, e: ModEntry)
    ensures
        upserted(upserted(mods, e), e) == upserted(mods, e),
        project_index(upserted(mods, e), e.project_id@) matches Some(i) && upserted(mods, e)[i] == e,
{
    let pid = e.project_id@;
    lemma_project_index_found(mods, pid, 0);
    let m1 = upserted(mods, e);
    match project_index(mods, pid) {
        Some(i) => {
            assert forall|j: int| 0 <= j < i implies #[trigger] m1[j].project_id@ != pid by {
                assert(m1[j] == mods[j]);
            }
            lemma_project_index_at(m1, pid, 0, i);
            assert(m1.update(i, e) =~= m1);
        },
        None => {
            let n = mods.len() as int;
            assert forall|j: int| 0 <= j < n implies #[trigger] m1[j].project_id@ != pid by {
                assert(m1[j] == mods[j]);
            }
            lemma_project_index_at(m1, pid, 0, n);
            assert(m1.update(n, e) =~= m1);
        },
    }
}

/// The records whose file is not among `names`, in order.
pub open spec fn kept_mods(mods: Seq<ModEntry>, names: Seq<Seq<char>>) -> Seq<ModEntry> {
    mods.filter(|m: ModEntry| !names.contains(m.filename@))
}

proof fn lemma_kept_mods(mods: Seq<ModEntry>, names: Seq<Seq<char>>)
    ensures
        forall|i: int| 0 <= i < kept_mods(mods, names).len() ==> !names.contains(
            #[trigger] kept_mods(mods, names)[i].filename@,
        ),
        kept_mods(kept_mods(mods, names), names) == kept_mods(mods, names),
    decreases mods.len(),
{
    reveal(Seq::filter);
    if mods.len() > 0 {
        lemma_kept_mods(mods.drop_last(), names);
        let k = kept_mods(mods.drop_last(), names);
        if !names.contains(mods.last().filename@) {
            assert(kept_mods(mods, names) == k.push(mods.last()));
            assert(k.push(mods.last()).drop_last() =~= k);
            assert(kept_mods(k.push(mods.last()), names) == kept_mods(k, names).push(mods.last()));
        } else {
            assert(kept_mods(mods, names) == k);
        }
    }
}

/// After the records of some files are dropped, none of the remaining
/// records names one of those files, and dropping them again changes
/// nothing.
pub proof fn law_remove_filenames(mods: Seq<ModEntry>, names: Seq<Seq<char>>)
    ensures
        forall|i: int| 0 <= i < kept_mods(mods, names).len() ==> !names.contains(
            #[trigger] kept_mods(mods, names)[i].filename@,
        ),
        kept_mods(kept_mods(mods, names), names) == kept_mods(mods, names),
{
    lemma_kept_mods(mods, names);
}

impl ModManifest {
    /// Records an installed mod (see `upserted`); returns whether a record
    /// of the same project was replaced.
    pub fn upsert(&mut self, entry: ModEntry) -> (replaced: bool)
        ensures
            final(self).mods@ == upserted(old(self).mods@, entry),
            replaced == (project_index(old(self).mods@, entry.project_id@) is Some),
    {
        let ghost pid = entry.project_id@;
        let mut i: usize = 0;
        while i < self.mods.len()
            invariant
                i <= self.mods.len(),
                self.mods@ == old(self).mods@,
                pid == entry.project_id@,
                forall|j: int| 0 <= j < i ==> #[trigger] self.mods@[j].project_id@ != pid,
            decreases self.mods.len() - i,
        {
            if str_eq(self.mods[i].project_id.as_str(), entry.project_id.as_str()) {
                proof {
                    lemma_project_index_at(self.mods@, pid, 0, i as int);
                }
                self.mods.set(i, entry);
                return true;
            }
            i += 1;
        }
        proof {
            lemma_project_index_none(self.mods@, pid, 0);
        }
        self.mods.push(entry);
        false
    }

    /// Drops the records of the given file names; returns how many were
    /// dropped. The others keep their order.
    pub fn remove_filenames(&mut self, names: &Vec<String>) -> (removed: usize)
        ensures
            final(self).mods@ == kept_mods(old(self).mods@, names@.map_values(|s: String| s@)),
            removed == old(self).mods.len() - final(self).mods.len(),
    {
        let ghost nv = names@.map_values(|s: String| s@);
        let ghost keep = |m: ModEntry| !nv.contains(m.filename@);
        let ghost orig = self.mods@;
        let mut k: usize = 0;
        let mut i: usize = 0;
        let mut removed: usize = 0;
        assert(orig.take(0).filter(keep) =~= Seq::<ModEntry>::empty()) by {
            reveal(Seq::filter);
        }
        assert(orig.skip(0) =~= orig);
        while i < self.mods.len()
            invariant
                orig == old(self).mods@,
                nv == names@.map_values(|s: String| s@),
                keep == (|m: ModEntry| !nv.contains(m.filename@)),
                k <= orig.len(),
                i == orig.take(k as int).filter(keep).len(),
                self.mods@ == orig.take(k as int).filter(keep) + orig.skip(k as int),
                removed == k - i,
            decreases self.mods.len() - i,
        {
            assert(self.mods@.len() == i + orig.len() - k);
            assert(k < orig.len());
            assert(orig.len() == old(self).mods.len());
            assert(self.mods@[i as int] == orig[k as int]);
            let fname = self.mods[i].filename.as_str();
            let mut hit = false;
            let mut j: usize = 0;
            while j < names.len()
                invariant
                    j <= names.len(),
                    nv == names@.map_values(|s: String| s@),
                    hit == exists|a: int| 0 <= a < j && #[trigger] nv[a] == fname@,
                decreases names.len() - j,
            {
                assert(nv[j as int] == names@[j as int]@);
                if str_eq(names[j].as_str(), fname) {
                    hit = true;
                }
                j += 1;
            }
            assert(hit == nv.contains(orig[k as int].filename@));
            proof {
                reveal(Seq::filter);
                assert(orig.take(k + 1).drop_last() =~= orig.take(k as int));
                assert(orig.take(k + 1).last() == orig[k as int]);
            }
            let ghost prefix = orig.take(k as int).filter(keep);
            if hit {
                self.mods.remove(i);
                removed += 1;
                assert(self.mods@ =~= orig.take(k + 1).filter(keep) + orig.skip(k + 1));
            } else {
                i += 1;
                assert(orig.take(k + 1).filter(keep) == prefix.push(orig[k as int]));
                assert(self.mods@ =~= orig.take(k + 1).filter(keep) + orig.skip(k + 1));
            }
            k += 1;
        }
        assert(k == orig.len()) by {
            if k < orig.len() {
                assert(self.mods@.len() == i + orig.len() - k);
            assert(k < orig.len());
            assert(orig.len() == old(self).mods.len());
            }
        }
        assert(orig.take(k as int) =~= orig);
        assert(orig.skip(k as int) =~= Seq::<ModEntry>::empty());
        assert(self.mods@ =~= orig.filter(keep));
        assert(keep =~= (|m: ModEntry| !nv.contains(m.filename@)));
        removed
    }
}

/// `<clients>/<instance>/mods`.
pub fn mods_dir(clients_dir: &str, instance: &str) -> (r: String)
    ensures
        r@ == path_join(path_join(clients_dir@, instance@), "mods"@),
{
    let inst = join_path(clients_dir, instance);
    join_path(inst.as_str(), "mods")
}

/// `<clients>/<instance>/mods/nexus_mods.toml`, where the manifest lives.
pub fn manifest_path(clients_dir: &str, instance: &str) -> (r: String)
    ensures
        r@ == path_join(path_join(path_join(clients_dir@, instance@), "mods"@), "nexus_mods.toml"@),
{
    let dir = mods_dir(clients_dir, instance);
    join_path(dir.as_str(), "nexus_mods.toml")
}

/// A file of the mods directory is removed by `uninstall mod` when it is
/// not the manifest and its lowercased name contains the lowercased query.
pub open spec fn removable_mod_file(name: Seq<char>, query: Seq<char>) -> bool {
    name != "nexus_mods.toml"@ && has_substring(lowercase_of(name), lowercase_of(query))
}

pub fn is_removable_mod_file(name: &str, query: &str) -> (r: bool)
    ensures
        r == removable_mod_file(name@, query@),
{
    if str_eq(name, "nexus_mods.toml") {
        return false;
    }
    let ln = to_lowercase(name);
    let lq = to_lowercase(query);
    let a = chars_of(ln.as_str());
    let b = chars_of(lq.as_str());
    contains_substring(a.as_slice(), b.as_slice())
}

/// The ending of "entr…" for a count of manifest entries.
pub fn entry_plural_suffix(n: usize) -> (r: &'static str)
    ensures
        r@ == (if n == 1 { "y"@ } else { "ies"@ }),
{
    if n == 1 {
        "y"
    } else {
        "ies"
    }
}

} // verus!
