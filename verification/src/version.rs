//! Game versions: Mojang's metadata, the download plan built from it, and
//! the retry policy of downloads.
use vstd::prelude::*;
use crate::paths::{join_path, library_path_in, library_path_spec, path_join};
use crate::text::{char_utf8_len, extend_str, starts_with, str_eq, str_starts_with, string_from_chars, chars_of};

verus! {

// ------------------------------------------------------------------
// Records
// ------------------------------------------------------------------

/// The list of all published game versions.
pub struct VersionManifest {
    pub latest: LatestVersions,
    pub versions: Vec<VersionInfo>,
}

pub struct LatestVersions {
    pub release: String,
    pub snapshot: String,
}

/// One published version.
pub struct VersionInfo {
    pub id: String,
    /// `release`, `snapshot`, `old_beta` or `old_alpha`.
    pub version_type: String,
    pub url: String,
    pub release_time: String,
}

/// The metadata of one game version.
pub struct VersionDetail {
    pub id: String,
    pub main_class: String,
    pub type_: String,
    pub libraries: Vec<Library>,
    pub downloads: VersionDownloads,
    pub asset_index: AssetIndex,
    pub java_version: JavaVersion,
}

pub struct Library {
    pub name: String,
    pub downloads: LibraryDownloads,
}

pub struct LibraryDownloads {
    pub artifact: Option<Artifact>,
}

pub struct Artifact {
    pub path: String,
    pub url: String,
    pub sha1: String,
}

pub struct VersionDownloads {
    pub client: DownloadInfo,
}

pub struct DownloadInfo {
    pub url: String,
    pub sha1: String,
}

pub struct AssetIndex {
    pub id: String,
    pub url: String,
    pub sha1: String,
}

pub struct JavaVersion {
    pub major_version: u32,
}

/// The asset index: asset names and their objects.
pub struct AssetIndexManifest {
    pub objects: Vec<(String, AssetObject)>,
}

pub struct AssetObject {
    pub hash: String,
    pub size: u64,
}

/// One file to fetch and check.
pub struct DownloadTask {
    pub name: String,
    pub url: String,
    pub local_path: String,
    pub sha1: String,
}

// ------------------------------------------------------------------
// Libraries
// ------------------------------------------------------------------

/// The libraries that have a downloadable artifact, in order.
pub open spec fn libraries_with_artifact(libs: Seq<Library>) -> Seq<Library> {
    libs.filter(|l: Library| l.downloads.artifact is Some)
}

/// The classpath entries and download tasks of a version's libraries: for
/// each library with an artifact, in order, its path under
/// `<mc_dir>/libraries` and a task fetching the artifact there.
pub fn library_download_tasks(mc_dir: &str, detail: &VersionDetail) -> (r: (Vec<String>, Vec<DownloadTask>))
    ensures
        r.0.len() == libraries_with_artifact(detail.libraries@).len(),
        r.1.len() == libraries_with_artifact(detail.libraries@).len(),
        forall|i: int| 0 <= i < r.0.len() ==> {
            let lib = #[trigger] libraries_with_artifact(detail.libraries@)[i];
            let a = lib.downloads.artifact->0;
            &&& r.0@[i]@ == library_path_spec(mc_dir@, a.path@)
            &&& r.1@[i].name == lib.name
            &&& r.1@[i].url == a.url
            &&& r.1@[i].local_path@ == library_path_spec(mc_dir@, a.path@)
            &&& r.1@[i].sha1 == a.sha1
        },
{
    let ghost libs = detail.libraries@;
    let ghost keep = |l: Library| l.downloads.artifact is Some;
    let mut paths: Vec<String> = Vec::new();
    let mut tasks: Vec<DownloadTask> = Vec::new();
    let mut i: usize = 0;
    assert(libs.take(0).filter(keep) =~= Seq::<Library>::empty()) by {
        reveal(Seq::filter);
    }
    while i < detail.libraries.len()
        invariant
            i <= detail.libraries.len(),
            libs == detail.libraries@,
            keep == (|l: Library| l.downloads.artifact is Some),
            paths.len() == libs.take(i as int).filter(keep).len(),
            tasks.len() == paths.len(),
            forall|j: int| 0 <= j < paths.len() ==> {
                let lib = #[trigger] libs.take(i as int).filter(keep)[j];
                let a = lib.downloads.artifact->0;
                &&& paths@[j]@ == library_path_spec(mc_dir@, a.path@)
                &&& tasks@[j].name == lib.name
                &&& tasks@[j].url == a.url
                &&& tasks@[j].local_path@ == library_path_spec(mc_dir@, a.path@)
                &&& tasks@[j].sha1 == a.sha1
            },
        decreases detail.libraries.len() - i,
    {
        let ghost prev = libs.take(i as int).filter(keep);
        proof {
            reveal(Seq::filter);
            assert(libs.take(i + 1).drop_last() =~= libs.take(i as int));
        }
        let lib = &detail.libraries[i];
        match &lib.downloads.artifact {
            Some(artifact) => {
                let local_path = library_path_in(mc_dir, artifact.path.as_str());
                paths.push(local_path.clone());
                tasks.push(
                    DownloadTask {
                        name: lib.name.clone(),
                        url: artifact.url.clone(),
                        local_path,
                        sha1: artifact.sha1.clone(),
                    },
                );
                assert(libs.take(i + 1).filter(keep) == prev.push(libs[i as int]));
            },
            None => {
                assert(libs.take(i + 1).filter(keep) == prev);
            },
        }
        i += 1;
    }
    assert(libs.take(detail.libraries.len() as int) =~= libs);
    (paths, tasks)
}

// ------------------------------------------------------------------
// Assets
// ------------------------------------------------------------------

/// `<mc_dir>/assets/indexes/<id>.json`.
pub fn asset_index_path(mc_dir: &str, id: &str) -> (r: String)
    ensures
        r@ == path_join(path_join(path_join(mc_dir@, "assets"@), "indexes"@), id@ + ".json"@),
{
    let a = join_path(mc_dir, "assets");
    let b = join_path(a.as_str(), "indexes");
    let mut f: Vec<char> = Vec::new();
    extend_str(&mut f, id);
    extend_str(&mut f, ".json");
    let fs = string_from_chars(f.as_slice());
    join_path(b.as_str(), fs.as_str())
}

/// `<mc_dir>/assets/objects`.
pub fn asset_objects_dir(mc_dir: &str) -> (r: String)
    ensures
        r@ == path_join(path_join(mc_dir@, "assets"@), "objects"@),
{
    let a = join_path(mc_dir, "assets");
    join_path(a.as_str(), "objects")
}

/// The first two bytes of a hash can be cut off as text: they hold whole
/// characters.
pub open spec fn hash_prefix_cuttable(h: Seq<char>) -> bool {
    ||| h.len() >= 2 && (h[0] as u32) < 0x80 && (h[1] as u32) < 0x80
    ||| h.len() >= 1 && char_utf8_len(h[0]) == 2
}

/// The text of the first two bytes of a hash.
pub open spec fn hash_prefix(h: Seq<char>) -> Seq<char> {
    if h.len() >= 1 && char_utf8_len(h[0]) == 2 {
        h.take(1)
    } else {
        h.take(2)
    }
}

pub open spec fn asset_base_url() -> Seq<char> {
    "https://resources.download.minecraft.net"@
}

/// The task of one asset object: stored as `<objects>/<prefix>/<hash>`,
/// fetched from `<base>/<prefix>/<hash>`, where `prefix` is the first two
/// bytes of the hash.
pub open spec fn asset_task_ok(t: DownloadTask, objects_dir: Seq<char>, name: Seq<char>, hash: Seq<char>) -> bool {
    &&& t.name@ == name
    &&& t.url@ == asset_base_url() + seq!['/'] + hash_prefix(hash) + seq!['/'] + hash
    &&& t.local_path@ == path_join(path_join(objects_dir, hash_prefix(hash)), hash)
    &&& t.sha1@ == hash
}

fn prefix_of_hash(h: &str) -> (r: String)
    requires
        hash_prefix_cuttable(h@),
    ensures
        r@ == hash_prefix(h@),
{
    let c = chars_of(h);
    let mut p: Vec<char> = Vec::new();
    p.push(c[0]);
    let first_len: u32 = if (c[0] as u32) < 0x80 { 1 } else if (c[0] as u32) < 0x800 { 2 } else { 3 };
    if first_len != 2 {
        p.push(c[1]);
        assert(p@ =~= h@.take(2));
    } else {
        assert(p@ =~= h@.take(1));
    }
    string_from_chars(p.as_slice())
}

/// The download tasks of all objects of an asset index, in index order.
pub fn asset_download_tasks(objects_dir: &str, objects: &Vec<(String, AssetObject)>) -> (r: Vec<DownloadTask>)
    requires
        forall|i: int| 0 <= i < objects.len() ==> hash_prefix_cuttable(#[trigger] objects@[i].1.hash@),
    ensures
        r.len() == objects.len(),
        forall|i: int| 0 <= i < r.len() ==> asset_task_ok(
            #[trigger] r@[i],
            objects_dir@,
            objects@[i].0@,
            objects@[i].1.hash@,
        ),
{
    let mut tasks: Vec<DownloadTask> = Vec::new();
    let mut i: usize = 0;
    while i < objects.len()
        invariant
            i <= objects.len(),
            forall|j: int| 0 <= j < objects.len() ==> hash_prefix_cuttable(#[trigger] objects@[j].1.hash@),
            tasks.len() == i,
            forall|j: int| 0 <= j < i ==> asset_task_ok(
                #[trigger] tasks@[j],
                objects_dir@,
                objects@[j].0@,
                objects@[j].1.hash@,
            ),
        decreases objects.len() - i,
    {
        let hash = objects[i].1.hash.as_str();
        assert(hash_prefix_cuttable(objects@[i as int].1.hash@));
        let prefix = prefix_of_hash(hash);
        let dir = join_path(objects_dir, prefix.as_str());
        let local_path = join_path(dir.as_str(), hash);
        let mut u: Vec<char> = Vec::new();
        extend_str(&mut u, "https://resources.download.minecraft.net");
        u.push('/');
        extend_str(&mut u, prefix.as_str());
        u.push('/');
        extend_str(&mut u, hash);
        assert(u@ =~= asset_base_url() + seq!['/'] + prefix@ + seq!['/'] + hash@);
        let ghost before = tasks@;
        tasks.push(
            DownloadTask {
                name: objects[i].0.clone(),
                url: string_from_chars(u.as_slice()),
                local_path,
                sha1: String::from_str(hash),
            },
        );
        assert(tasks@ == before.push(tasks@[i as int]));
        i += 1;
    }
    tasks
}

// ------------------------------------------------------------------
// Installing a version
// ------------------------------------------------------------------

/// `<version_dir>/<version_id>.jar`.
pub fn client_jar_path(version_dir: &str, version_id: &str) -> (r: String)
    ensures
        r@ == path_join(version_dir@, version_id@ + ".jar"@),
{
    let mut f: Vec<char> = Vec::new();
    extend_str(&mut f, version_id);
    extend_str(&mut f, ".jar");
    let fs = string_from_chars(f.as_slice());
    join_path(version_dir, fs.as_str())
}

/// The first listed version with the given ID.
pub fn find_version(manifest: &VersionManifest, id: &str) -> (r: Option<usize>)
    ensures
        match r {
            Some(i) => i < manifest.versions.len() && manifest.versions@[i as int].id@ == id@
                && forall|j: int| 0 <= j < i ==> manifest.versions@[j].id@ != id@,
            None => forall|j: int| 0 <= j < manifest.versions.len() ==> manifest.versions@[j].id@ != id@,
        },
{
    let mut i: usize = 0;
    while i < manifest.versions.len()
        invariant
            i <= manifest.versions.len(),
            forall|j: int| 0 <= j < i ==> manifest.versions@[j].id@ != id@,
        decreases manifest.versions.len() - i,
    {
        if str_eq(manifest.versions[i].id.as_str(), id) {
            return Some(i);
        }
        i += 1;
    }
    None
}

pub open spec fn version_not_found_message(id: Seq<char>) -> Seq<char> {
    "Version "@ + id + " not found in manifest"@
}

pub fn version_not_found(id: &str) -> (r: String)
    ensures
        r@ == version_not_found_message(id@),
{
    let mut m: Vec<char> = Vec::new();
    extend_str(&mut m, "Version ");
    extend_str(&mut m, id);
    extend_str(&mut m, " not found in manifest");
    string_from_chars(m.as_slice())
}

pub open spec fn occupied_instance_message(dir: Seq<char>, existing: Seq<char>, requested: Seq<char>) -> Seq<char> {
    "Instance '"@ + dir + "' already contains version "@ + existing + " (requested "@ + requested
        + "). Use `uninstall instance "@ + dir + "` first, or specify a different --name."@
}

/// An existing instance directory may only be verified again, not filled
/// with another version: its recorded version must be the requested one.
pub fn check_existing_instance(existing_id: &str, requested: &str, dir_name: &str) -> (r: Result<(), String>)
    ensures
        r is Ok <==> existing_id@ == requested@,
        r matches Err(m) ==> m@ == occupied_instance_message(dir_name@, existing_id@, requested@),
{
    if str_eq(existing_id, requested) {
        Ok(())
    } else {
        let mut m: Vec<char> = Vec::new();
        extend_str(&mut m, "Instance '");
        extend_str(&mut m, dir_name);
        extend_str(&mut m, "' already contains version ");
        extend_str(&mut m, existing_id);
        extend_str(&mut m, " (requested ");
        extend_str(&mut m, requested);
        extend_str(&mut m, "). Use `uninstall instance ");
        extend_str(&mut m, dir_name);
        extend_str(&mut m, "` first, or specify a different --name.");
        Err(string_from_chars(m.as_slice()))
    }
}

/// What `serde_json` reads from a JSON document for a top-level key: an
/// error message when the text is not JSON, else the key's value when it
/// is a string (`None` when the key is missing or holds something else).
pub uninterp spec fn json_string_field_of(text: Seq<char>, key: Seq<char>) -> Result<Option<Seq<char>>, Seq<char>>;

pub open spec fn field_view(r: Result<Option<String>, String>) -> Result<Option<Seq<char>>, Seq<char>> {
    match r {
        Ok(Some(s)) => Ok(Some(s@)),
        Ok(None) => Ok(None),
        Err(e) => Err(e@),
    }
}

/// `serde_json::from_str::<Value>`, then `value[key].as_str()`. The result
/// is named `json_string_field_of`; the parser's error is kept as its
/// message.
#[verifier::external_body]
fn json_string_field(text: &str, key: &str) -> (r: Result<Option<String>, String>)
    ensures
        field_view(r) == json_string_field_of(text@, key@),
{
    match serde_json::from_str::<serde_json::Value>(text) {
        Ok(v) => Ok(v[key].as_str().map(|s| s.to_string())),
        Err(e) => Err(e.to_string()),
    }
}

/// The version ID an instance's `version.json` records: the parser's error
/// when the file is not JSON, `None` when it has no textual `id`.
pub fn recorded_version_id(version_json: &str) -> (r: Result<Option<String>, String>)
    ensures
        field_view(r) == json_string_field_of(version_json@, "id"@),
{
    json_string_field(version_json, "id")
}

/// Installing into a directory that already holds a `version.json`: the
/// recorded ID (empty when it has none) must be the requested version
/// (see `check_existing_instance`); a file that is not JSON is an error.
pub fn check_installed_version(version_json: &str, requested: &str, dir_name: &str) -> (r: Result<(), String>)
    ensures
        match json_string_field_of(version_json@, "id"@) {
            Err(e) => r matches Err(m) && m@ == e,
            Ok(id) => {
                let existing = match id {
                    Some(i) => i,
                    None => Seq::<char>::empty(),
                };
                &&& r is Ok <==> existing == requested@
                &&& r matches Err(m) ==> m@ == occupied_instance_message(dir_name@, existing, requested@)
            },
        },
{
    match recorded_version_id(version_json) {
        Err(e) => Err(e),
        Ok(id) => {
            let existing = match id {
                Some(i) => i,
                None => String::new(),
            };
            check_existing_instance(existing.as_str(), requested, dir_name)
        },
    }
}

/// The directory a version is installed into: the given name, or the
/// version itself.
pub fn instance_dir_name(game_version: &String, name: &Option<String>) -> (r: String)
    ensures
        r@ == (match name {
            Some(n) => n@,
            None => game_version@,
        }),
{
    match name {
        Some(n) => n.clone(),
        None => game_version.clone(),
    }
}

// ------------------------------------------------------------------
// Listing with a cap
// ------------------------------------------------------------------

/// The indices at which `flags` is set, in order.
pub open spec fn true_indices(flags: Seq<bool>) -> Seq<int>
    decreases flags.len(),
{
    if flags.len() == 0 {
        Seq::empty()
    } else if flags.last() {
        true_indices(flags.drop_last()).push(flags.len() - 1)
    } else {
        true_indices(flags.drop_last())
    }
}

/// Every index of `true_indices` is in range and set, they rise, and
/// every set index is among them.
pub proof fn lemma_true_indices(flags: Seq<bool>)
    ensures
        forall|k: int| 0 <= k < true_indices(flags).len() ==> {
            &&& 0 <= #[trigger] true_indices(flags)[k] < flags.len()
            &&& flags[true_indices(flags)[k]]
        },
        forall|a: int, b: int| 0 <= a < b < true_indices(flags).len()
            ==> true_indices(flags)[a] < true_indices(flags)[b],
        forall|i: int| 0 <= i < flags.len() && #[trigger] flags[i] ==> true_indices(flags).contains(i),
    decreases flags.len(),
{
    if flags.len() > 0 {
        let d = flags.drop_last();
        lemma_true_indices(d);
        let t = true_indices(d);
        assert forall|k: int| 0 <= k < t.len() implies flags[t[k]] by {
            assert(flags[t[k]] == d[t[k]]);
        }
        assert forall|i: int| 0 <= i < flags.len() && #[trigger] flags[i] implies true_indices(flags).contains(i) by {
            if i < flags.len() - 1 {
                assert(d[i]);
                let k = choose|k: int| 0 <= k < t.len() && t[k] == i;
                if flags.last() {
                    assert(true_indices(flags)[k] == i);
                } else {
                    assert(true_indices(flags)[k] == i);
                }
            } else {
                assert(true_indices(flags).last() == i);
            }
        }
    }
}

pub open spec fn usize_ints(s: Seq<usize>) -> Seq<int> {
    s.map_values(|x: usize| x as int)
}

/// The first `limit` indices at which `flags` is set, in order.
pub fn first_set_indices(flags: &Vec<bool>, limit: usize) -> (r: Vec<usize>)
    ensures
        usize_ints(r@) == true_indices(flags@).take(
            if limit < true_indices(flags@).len() { limit as int } else { true_indices(flags@).len() as int },
        ),
{
    let mut r: Vec<usize> = Vec::new();
    let mut i: usize = 0;
    while i < flags.len()
        invariant
            i <= flags.len(),
            usize_ints(r@) == true_indices(flags@.take(i as int)).take(
                if limit < true_indices(flags@.take(i as int)).len() { limit as int } else { true_indices(flags@.take(i as int)).len() as int },
            ),
        decreases flags.len() - i,
    {
        let ghost before = true_indices(flags@.take(i as int));
        assert(flags@.take(i + 1).drop_last() =~= flags@.take(i as int));
        if flags[i] && r.len() < limit {
            let ghost rv = r@;
            r.push(i);
            assert(usize_ints(r@) =~= usize_ints(rv).push(i as int));
        }
        let ghost after = true_indices(flags@.take(i + 1));
        assert(flags[i as int] ==> after == before.push(i as int));
        assert(!flags[i as int] ==> after == before);
        assert(usize_ints(r@) =~= after.take(if limit < after.len() { limit as int } else { after.len() as int }));
        i += 1;
    }
    assert(flags@.take(flags.len() as int) =~= flags@);
    r
}

/// A version is listed by `search core` when it is a release (if only
/// stable ones are asked for) and its ID starts with the filter (if any).
pub open spec fn version_listed(v: VersionInfo, stable: bool, filter: Option<Seq<char>>) -> bool {
    &&& (stable ==> v.version_type@ == "release"@)
    &&& (filter matches Some(f) ==> starts_with(v.id@, f))
}

/// What `search core` lists: only versions whose ID starts with the
/// filter (a prefix, not a part found anywhere in the ID) and, when only
/// stable versions are asked for, releases; each once, in the order they
/// were given; at most `limit` of them, and every such version when fewer
/// than `limit` are listed.
pub proof fn law_version_listing(
    versions: Seq<VersionInfo>,
    stable: bool,
    filter: Option<Seq<char>>,
    limit: nat,
    flags: Seq<bool>,
    listed: Seq<int>,
)
    requires
        flags.len() == versions.len(),
        forall|i: int| 0 <= i < versions.len() ==> #[trigger] flags[i] == version_listed(versions[i], stable, filter),
        listed == true_indices(flags).take(
            if limit < true_indices(flags).len() { limit as int } else { true_indices(flags).len() as int },
        ),
    ensures
        listed.len() <= limit,
        forall|k: int| 0 <= k < listed.len() ==> {
            &&& 0 <= #[trigger] listed[k] < versions.len()
            &&& (filter matches Some(f) ==> starts_with(versions[listed[k]].id@, f))
            &&& (stable ==> versions[listed[k]].version_type@ == "release"@)
        },
        forall|a: int, b: int| 0 <= a < b < listed.len() ==> listed[a] < listed[b],
        listed.len() < limit ==> forall|i: int| 0 <= i < versions.len()
            && (filter matches Some(f) ==> starts_with(versions[i].id@, f))
            && (stable ==> versions[i].version_type@ == "release"@)
            ==> #[trigger] listed.contains(i),
{
    lemma_true_indices(flags);
    let t = true_indices(flags);
    assert forall|k: int| 0 <= k < listed.len() implies {
        &&& 0 <= #[trigger] listed[k] < versions.len()
        &&& (filter matches Some(f) ==> starts_with(versions[listed[k]].id@, f))
        &&& (stable ==> versions[listed[k]].version_type@ == "release"@)
    } by {
        assert(listed[k] == t[k]);
        assert(flags[t[k]]);
    }
    assert forall|a: int, b: int| 0 <= a < b < listed.len() implies listed[a] < listed[b] by {
        assert(listed[a] == t[a] && listed[b] == t[b]);
    }
    if listed.len() < limit {
        assert(listed =~= t);
        assert forall|i: int| 0 <= i < versions.len()
            && (filter matches Some(f) ==> starts_with(versions[i].id@, f))
            && (stable ==> versions[i].version_type@ == "release"@)
            implies #[trigger] listed.contains(i) by {
            assert(flags[i]);
        }
    }
}

/// `search core`: the indices of the first `limit` listed versions.
pub fn filter_versions(versions: &Vec<VersionInfo>, stable: bool, filter: Option<&str>, limit: usize) -> (r: Vec<usize>)
    ensures
        exists|flags: Seq<bool>| {
            &&& flags.len() == versions.len()
            &&& forall|i: int| 0 <= i < versions.len() ==> #[trigger] flags[i] == version_listed(
                versions@[i],
                stable,
                match filter { Some(f) => Some(f@), None => None },
            )
            &&& usize_ints(r@) == true_indices(flags).take(
                if limit < true_indices(flags).len() { limit as int } else { true_indices(flags).len() as int },
            )
        },
        r.len() <= limit,
        forall|k: int| 0 <= k < r.len() ==> {
            &&& #[trigger] r@[k] < versions.len()
            &&& (filter matches Some(f) ==> starts_with(versions@[r@[k] as int].id@, f@))
            &&& (stable ==> versions@[r@[k] as int].version_type@ == "release"@)
        },
        forall|a: int, b: int| 0 <= a < b < r.len() ==> r@[a] < r@[b],
        r.len() < limit ==> forall|i: int| 0 <= i < versions.len()
            && (filter matches Some(f) ==> starts_with(versions@[i].id@, f@))
            && (stable ==> versions@[i].version_type@ == "release"@)
            ==> #[trigger] r@.contains(i as usize),
{
    let ghost fv: Option<Seq<char>> = match filter { Some(f) => Some(f@), None => None };
    let mut flags: Vec<bool> = Vec::new();
    let mut i: usize = 0;
    while i < versions.len()
        invariant
            i <= versions.len(),
            fv == (match filter { Some(f) => Some(f@), None => None::<Seq<char>> }),
            flags.len() == i,
            forall|j: int| 0 <= j < i ==> #[trigger] flags@[j] == version_listed(versions@[j], stable, fv),
        decreases versions.len() - i,
    {
        let v = &versions[i];
        let ok_type = !stable || str_eq(v.version_type.as_str(), "release");
        let ok_id = match filter {
            Some(f) => str_starts_with(v.id.as_str(), f),
            None => true,
        };
        flags.push(ok_type && ok_id);
        i += 1;
    }
    let r = first_set_indices(&flags, limit);
    proof {
        let u = usize_ints(r@);
        law_version_listing(versions@, stable, fv, limit as nat, flags@, u);
        assert forall|k: int| 0 <= k < r.len() implies {
            &&& #[trigger] r@[k] < versions.len()
            &&& (filter matches Some(f) ==> starts_with(versions@[r@[k] as int].id@, f@))
            &&& (stable ==> versions@[r@[k] as int].version_type@ == "release"@)
        } by {
            assert(r@[k] as int == u[k]);
        }
        assert forall|a: int, b: int| 0 <= a < b < r.len() implies r@[a] < r@[b] by {
            assert(r@[a] as int == u[a] && r@[b] as int == u[b]);
        }
        if r.len() < limit {
            assert forall|i: int| 0 <= i < versions.len()
                && (filter matches Some(f) ==> starts_with(versions@[i].id@, f@))
                && (stable ==> versions@[i].version_type@ == "release"@)
                implies #[trigger] r@.contains(i as usize) by {
                assert(u.contains(i));
                let k = choose|k: int| 0 <= k < u.len() && u[k] == i;
                assert(r@[k] as int == u[k]);
            }
        }
    }
    r
}

// ------------------------------------------------------------------
// Download retries
// ------------------------------------------------------------------

/// How many times a failed download is tried again.
pub const MAX_RETRIES: u32 = 5;

/// What to do after one attempt of a download.
pub enum RetryAction {
    /// The file is in place.
    Done,
    /// Wait this many seconds, then try again.
    Wait(u64),
    /// Stop: the download failed too often.
    GiveUp,
}

/// The attempts made so far at one download.
pub struct RetryState {
    pub failures: u32,
}

pub open spec fn pow2(n: nat) -> nat
    decreases n,
{
    if n == 0 { 1 } else { 2 * pow2((n - 1) as nat) }
}

impl RetryState {
    pub fn new() -> (r: RetryState)
        ensures
            r.failures == 0,
    {
        RetryState { failures: 0 }
    }

    /// Records the outcome of an attempt: success ends the download; the
    /// n-th failure waits 2^(n-1) seconds before the next attempt, until
    /// the failures exceed `MAX_RETRIES`.
    pub fn after_attempt(&mut self, succeeded: bool) -> (r: RetryAction)
        requires
            old(self).failures <= MAX_RETRIES,
        ensures
            succeeded ==> (r matches RetryAction::Done) && final(self).failures == old(self).failures,
            !succeeded ==> final(self).failures == old(self).failures + 1,
            !succeeded && final(self).failures > MAX_RETRIES ==> (r matches RetryAction::GiveUp),
            !succeeded && final(self).failures <= MAX_RETRIES ==> r == RetryAction::Wait(
                pow2((final(self).failures - 1) as nat) as u64,
            ),
    {
        if succeeded {
            return RetryAction::Done;
        }
        self.failures = self.failures + 1;
        if self.failures > MAX_RETRIES {
            RetryAction::GiveUp
        } else {
            let mut w: u64 = 1;
            let mut k: u32 = 1;
            while k < self.failures
                invariant
                    1 <= k <= self.failures,
                    self.failures <= MAX_RETRIES,
                    w == pow2((k - 1) as nat),
                    w <= 16,
                decreases self.failures - k,
            {
                assert(w <= 8) by {
                    reveal_with_fuel(pow2, 5);
                }
                w = w * 2;
                k = k + 1;
            }
            RetryAction::Wait(w)
        }
    }
}

/// The total wait of the first `n` retries.
pub open spec fn total_wait(n: nat) -> nat
    decreases n,
{
    if n == 0 { 0 } else { total_wait((n - 1) as nat) + pow2((n - 1) as nat) }
}

/// The waits double from one retry to the next, so that `n` retries wait
/// `2^n - 1` seconds in all; with `MAX_RETRIES` retries, 31 seconds.
pub proof fn law_retry_total_wait(n: nat)
    ensures
        total_wait(n) + 1 == pow2(n),
        total_wait(MAX_RETRIES as nat) == 31,
    decreases n,
{
    if n > 0 {
        law_retry_total_wait((n - 1) as nat);
    }
    reveal_with_fuel(pow2, 6);
    reveal_with_fuel(total_wait, 6);
}

/// How many files are hash-checked at once before downloading: twice the
/// download concurrency, at least 16.
pub fn cache_check_concurrency(max_concurrent: usize) -> (r: usize)
    requires
        max_concurrent <= usize::MAX / 2,
    ensures
        r == (if max_concurrent * 2 > 16 { max_concurrent * 2 } else { 16 }),
{
    let d = max_concurrent * 2;
    if d > 16 {
        d
    } else {
        16
    }
}

} // verus!
