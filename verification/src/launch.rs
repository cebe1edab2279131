//! Launching an instance: the launch context, the classpath, the command
//! line handed to Java, who plays, and what is kept of the game's output.
use vstd::prelude::*;
use crate::config::UserConfig;
use crate::loader::{FabricLibrary, FabricProfile};
use crate::modrinth::strings_view;
use crate::paths::{home_dir_text, join_path, library_path_spec, maven_path_spec, maven_to_path, minecraft_dir_in, minecraft_dir_spec, path_join};
use crate::text::{char_utf8_len, chars_of, decimal, utf8_len, extend_chars, extend_str, join_chars, join_with, string_from_chars, u64_decimal};
use crate::version::{libraries_with_artifact, Library, VersionDetail};

verus! {

// ------------------------------------------------------------------
// Contexts
// ------------------------------------------------------------------

/// Who plays: a name, a UUID and, when signed in, an access token.
pub struct UserContext {
    pub username: String,
    pub uuid: String,
    pub access_token: Option<String>,
}

impl UserContext {
    pub fn new(username: String, uuid: String, access_token: String) -> (r: UserContext)
        ensures
            r.username == username,
            r.uuid == uuid,
            r.access_token == Some(access_token),
    {
        UserContext { username, uuid, access_token: Some(access_token) }
    }
}

impl Default for UserContext {
    fn default() -> (r: UserContext)
        ensures
            r.username@ == Seq::<char>::empty(),
            r.uuid@ == Seq::<char>::empty(),
            r.access_token is None,
    {
        UserContext { username: String::new(), uuid: String::new(), access_token: None }
    }
}

/// Everything needed to start an instance.
pub struct LaunchContext {
    pub game_path: String,
    /// Such as `1.20.1`.
    pub version_id: String,
    /// The checked Java executable.
    pub java_path: Option<String>,
    pub user: UserContext,
    /// In MiB.
    pub max_memory: Option<u32>,
    pub main_class: String,
    pub libraries: Vec<String>,
    pub asset_index_id: String,
    pub fabric_loader: Option<FabricProfile>,
}

impl Default for LaunchContext {
    fn default() -> (r: LaunchContext)
        ensures
            r.game_path@ == Seq::<char>::empty(),
            r.version_id@ == Seq::<char>::empty(),
            r.java_path is None,
            r.user.username@ == Seq::<char>::empty(),
            r.user.uuid@ == Seq::<char>::empty(),
            r.user.access_token is None,
            r.max_memory is None,
            r.main_class@ == Seq::<char>::empty(),
            r.libraries@.len() == 0,
            r.asset_index_id@ == Seq::<char>::empty(),
            r.fabric_loader is None,
    {
        LaunchContext {
            game_path: String::new(),
            version_id: String::new(),
            java_path: None,
            user: UserContext::default(),
            max_memory: None,
            main_class: String::new(),
            libraries: Vec::new(),
            asset_index_id: String::new(),
            fabric_loader: None,
        }
    }
}

/// The classpath libraries of a version: the path under
/// `<mc_dir>/libraries` of each library that has an artifact, in order.
pub open spec fn library_paths_spec(mc_dir: Seq<char>, libs: Seq<Library>) -> Seq<Seq<char>> {
    libraries_with_artifact(libs).map_values(
        |l: Library| library_path_spec(mc_dir, l.downloads.artifact->0.path@),
    )
}

fn library_paths(mc_dir: &str, libs: &Vec<Library>) -> (r: Vec<String>)
    ensures
        strings_view(r@) == library_paths_spec(mc_dir@, libs@),
{
    let ghost keep = |l: Library| l.downloads.artifact is Some;
    let ghost f = |l: Library| library_path_spec(mc_dir@, l.downloads.artifact->0.path@);
    let mut paths: Vec<String> = Vec::new();
    let mut i: usize = 0;
    assert(libs@.take(0).filter(keep) =~= Seq::<Library>::empty()) by {
        reveal(Seq::filter);
    }
    while i < libs.len()
        invariant
            i <= libs.len(),
            keep == (|l: Library| l.downloads.artifact is Some),
            f == (|l: Library| library_path_spec(mc_dir@, l.downloads.artifact->0.path@)),
            strings_view(paths@) == libs@.take(i as int).filter(keep).map_values(f),
        decreases libs.len() - i,
    {
        let ghost prev = libs@.take(i as int).filter(keep);
        let ghost pv = paths@;
        proof {
            reveal(Seq::filter);
            assert(libs@.take(i + 1).drop_last() =~= libs@.take(i as int));
        }
        match &libs[i].downloads.artifact {
            Some(artifact) => {
                let p = crate::paths::library_path_in(mc_dir, artifact.path.as_str());
                paths.push(p);
                assert(libs@.take(i + 1).filter(keep) == prev.push(libs@[i as int]));
                assert(strings_view(paths@) =~= strings_view(pv).push(paths@[pv.len() as int]@));
                assert(prev.push(libs@[i as int]).map_values(f) =~= prev.map_values(f).push(f(libs@[i as int])));
            },
            None => {
                assert(libs@.take(i + 1).filter(keep) == prev);
            },
        }
        i += 1;
    }
    assert(libs@.take(libs.len() as int) =~= libs@);
    paths
}

/// The context fields that come from the version's metadata and the
/// caller, with the libraries resolved under `mc_dir`.
pub open spec fn context_from_detail(
    r: LaunchContext,
    mc_dir: Seq<char>,
    game_path: String,
    detail: VersionDetail,
    user: UserContext,
    java_path: String,
    max_memory: u32,
    fabric_loader: Option<FabricProfile>,
) -> bool {
    &&& r.game_path == game_path
    &&& r.version_id@ == detail.id@
    &&& r.java_path == Some(java_path)
    &&& r.user == user
    &&& r.max_memory == Some(max_memory)
    &&& r.main_class@ == detail.main_class@
    &&& strings_view(r.libraries@) == library_paths_spec(mc_dir, detail.libraries@)
    &&& r.asset_index_id@ == detail.asset_index.id@
    &&& r.fabric_loader == fabric_loader
}

impl LaunchContext {
    /// Builds the context from a version's metadata, the libraries being
    /// resolved under the given data directory.
    pub fn from_detail_in(
        mc_dir: &str,
        game_path: String,
        detail: &VersionDetail,
        user: UserContext,
        java_path: String,
        max_memory: u32,
        fabric_loader: Option<FabricProfile>,
    ) -> (r: LaunchContext)
        ensures
            context_from_detail(r, mc_dir@, game_path, *detail, user, java_path, max_memory, fabric_loader),
    {
        let libraries = library_paths(mc_dir, &detail.libraries);
        LaunchContext {
            version_id: detail.id.clone(),
            game_path,
            java_path: Some(java_path),
            user,
            max_memory: Some(max_memory),
            main_class: detail.main_class.clone(),
            libraries,
            asset_index_id: detail.asset_index.id.clone(),
            fabric_loader,
        }
    }

    /// Builds the context from a version's metadata, the libraries being
    /// resolved under `~/.minecraft`; `None` when the home directory cannot
    /// be determined.
    pub fn from_detail(
        game_path: String,
        detail: &VersionDetail,
        user: UserContext,
        java_path: String,
        max_memory: u32,
        fabric_loader: Option<FabricProfile>,
    ) -> (r: Option<LaunchContext>)
        ensures
            r matches Some(c) ==> exists|h: Seq<char>| context_from_detail(
                c,
                minecraft_dir_spec(h),
                game_path,
                *detail,
                user,
                java_path,
                max_memory,
                fabric_loader,
            ),
    {
        match home_dir_text() {
            Some(h) => {
                let mc = minecraft_dir_in(h.as_str());
                Some(LaunchContext::from_detail_in(mc.as_str(), game_path, detail, user, java_path, max_memory, fabric_loader))
            },
            None => None,
        }
    }
}

// ------------------------------------------------------------------
// Classpath
// ------------------------------------------------------------------

/// Where a loader library is looked for: `<game>/objects/<maven path>`.
pub open spec fn fabric_candidate(game_path: Seq<char>, name: Seq<char>) -> Seq<char> {
    path_join(path_join(game_path, "objects"@), maven_path_spec(name))
}

pub open spec fn fabric_candidates_spec(game_path: Seq<char>, libs: Seq<FabricLibrary>) -> Seq<Seq<char>> {
    libs.map_values(|l: FabricLibrary| fabric_candidate(game_path, l.name@))
}

/// The items of `c` whose flag in `present` is set, in order.
pub open spec fn kept(c: Seq<Seq<char>>, present: Seq<bool>) -> Seq<Seq<char>>
    decreases c.len(),
{
    if c.len() == 0 {
        Seq::empty()
    } else if present[c.len() - 1] {
        kept(c.drop_last(), present).push(c.last())
    } else {
        kept(c.drop_last(), present)
    }
}

/// `<game>/<version>.jar`.
pub open spec fn core_jar_spec(game_path: Seq<char>, version_id: Seq<char>) -> Seq<char> {
    path_join(game_path, version_id + ".jar"@)
}

/// The classpath: the version's libraries, then the loader's libraries
/// that are present, then the game's own jar.
pub open spec fn classpath_entries(
    libraries: Seq<Seq<char>>,
    game_path: Seq<char>,
    version_id: Seq<char>,
    profile: Option<FabricProfile>,
    present: Seq<bool>,
) -> Seq<Seq<char>> {
    libraries + match profile {
        Some(p) => kept(fabric_candidates_spec(game_path, p.libraries@), present),
        None => Seq::empty(),
    } + seq![core_jar_spec(game_path, version_id)]
}

/// The paths at which the loader's libraries are looked for, in order.
pub fn fabric_library_candidates(game_path: &str, profile: &FabricProfile) -> (r: Vec<String>)
    ensures
        strings_view(r@) == fabric_candidates_spec(game_path@, profile.libraries@),
{
    let objects = join_path(game_path, "objects");
    let mut r: Vec<String> = Vec::new();
    let mut i: usize = 0;
    while i < profile.libraries.len()
        invariant
            i <= profile.libraries.len(),
            objects@ == path_join(game_path@, "objects"@),
            strings_view(r@) == fabric_candidates_spec(game_path@, profile.libraries@.take(i as int)),
        decreases profile.libraries.len() - i,
    {
        let rel = maven_to_path(profile.libraries[i].name.as_str());
        let full = join_path(objects.as_str(), rel.as_str());
        let ghost prev = r@;
        r.push(full);
        assert(strings_view(r@) =~= strings_view(prev).push(full@));
        assert(profile.libraries@.take(i + 1) =~= profile.libraries@.take(i as int).push(profile.libraries@[i as int]));
        assert(fabric_candidates_spec(game_path@, profile.libraries@.take(i + 1)) =~= fabric_candidates_spec(game_path@, profile.libraries@.take(i as int)).push(full@));
        i += 1;
    }
    assert(profile.libraries@.take(profile.libraries.len() as int) =~= profile.libraries@);
    r
}

proof fn lemma_kept_prefix(c: Seq<Seq<char>>, present: Seq<bool>, i: int)
    requires
        0 <= i < c.len(),
    ensures
        kept(c.take(i + 1), present) == if present[i] {
            kept(c.take(i), present).push(c[i])
        } else {
            kept(c.take(i), present)
        },
{
    assert(c.take(i + 1).drop_last() =~= c.take(i));
}

fn push_str_chars(items: &mut Vec<Vec<char>>, s: &str)
    ensures
        final(items)@.map_values(|p: Vec<char>| p@) == old(items)@.map_values(|p: Vec<char>| p@).push(s@),
{
    let c = chars_of(s);
    let ghost prev = items@;
    items.push(c);
    assert(items@ == prev.push(c));
    assert(items@.map_values(|p: Vec<char>| p@) =~= prev.map_values(|p: Vec<char>| p@).push(s@));
}

/// The classpath joined with `sep` (`:`, or `;` on Windows), and the
/// loader's main class when there is a loader. `present` tells, for each
/// loader library in order, whether its file exists.
pub fn build_classpath(
    libraries: &Vec<String>,
    version_id: &str,
    fabric_profile: Option<&FabricProfile>,
    game_path: &str,
    present: &Vec<bool>,
    sep: &str,
) -> (r: (String, Option<String>))
    requires
        fabric_profile matches Some(p) ==> present.len() == p.libraries.len(),
    ensures
        r.0@ == join_with(
            classpath_entries(
                strings_view(libraries@),
                game_path@,
                version_id@,
                match fabric_profile { Some(p) => Some(*p), None => None },
                present@,
            ),
            sep@,
        ),
        match fabric_profile {
            Some(p) => r.1 matches Some(m) && m@ == p.main_class@,
            None => r.1 is None,
        },
{
    let ghost all = classpath_entries(
        strings_view(libraries@),
        game_path@,
        version_id@,
        match fabric_profile { Some(p) => Some(*p), None => None },
        present@,
    );
    let mut items: Vec<Vec<char>> = Vec::new();
    let mut i: usize = 0;
    while i < libraries.len()
        invariant
            i <= libraries.len(),
            items@.map_values(|p: Vec<char>| p@) == strings_view(libraries@).take(i as int),
        decreases libraries.len() - i,
    {
        push_str_chars(&mut items, libraries[i].as_str());
        assert(strings_view(libraries@).take(i + 1) =~= strings_view(libraries@).take(i as int).push(libraries@[i as int]@));
        i += 1;
    }
    assert(strings_view(libraries@).take(libraries.len() as int) =~= strings_view(libraries@));
    let main_class = match fabric_profile {
        Some(profile) => {
            let cands = fabric_library_candidates(game_path, profile);
            let ghost cv = strings_view(cands@);
            let ghost base = items@.map_values(|p: Vec<char>| p@);
            let mut j: usize = 0;
            while j < cands.len()
                invariant
                    j <= cands.len(),
                    cands.len() == present.len(),
                    cv == strings_view(cands@),
                    items@.map_values(|p: Vec<char>| p@) == base + kept(cv.take(j as int), present@),
                decreases cands.len() - j,
            {
                proof {
                    lemma_kept_prefix(cv, present@, j as int);
                }
                if present[j] {
                    push_str_chars(&mut items, cands[j].as_str());
                }
                j += 1;
            }
            assert(cv.take(cands.len() as int) =~= cv);
            Some(profile.main_class.clone())
        },
        None => None,
    };
    let mut jar: Vec<char> = Vec::new();
    extend_str(&mut jar, version_id);
    extend_str(&mut jar, ".jar");
    let jar_name = string_from_chars(jar.as_slice());
    let core_jar = join_path(game_path, jar_name.as_str());
    push_str_chars(&mut items, core_jar.as_str());
    assert(items@.map_values(|p: Vec<char>| p@) =~= all);
    let sep_chars = chars_of(sep);
    let joined = join_chars(&items, sep_chars.as_slice());
    (string_from_chars(joined.as_slice()), main_class)
}

// ------------------------------------------------------------------
// Command line
// ------------------------------------------------------------------

/// `-Xmx<m>M`.
pub open spec fn memory_arg(m: u32) -> Seq<char> {
    "-Xmx"@ + decimal(m as nat) + seq!['M']
}

/// The main class that is started: the loader's when there is a loader.
pub open spec fn effective_main_class(ctx: LaunchContext) -> Seq<char> {
    match ctx.fabric_loader {
        Some(p) => p.main_class@,
        None => ctx.main_class@,
    }
}

/// The arguments handed to Java: JVM options (memory, collector,
/// classpath), the main class, then the game's options.
pub open spec fn launch_args_spec(ctx: LaunchContext, classpath: Seq<char>, assets_dir: Seq<char>) -> Seq<Seq<char>> {
    (match ctx.max_memory {
        Some(m) => seq![memory_arg(m)],
        None => Seq::empty(),
    }) + seq![
        "-XX:+UseG1GC"@,
        "-cp"@,
        classpath,
        effective_main_class(ctx),
        "--username"@,
        ctx.user.username@,
        "--version"@,
        ctx.version_id@,
        "--uuid"@,
        ctx.user.uuid@,
        "--gameDir"@,
        ctx.game_path@,
        "--assetsDir"@,
        assets_dir,
        "--assetIndex"@,
        ctx.asset_index_id@,
    ] + (match ctx.user.access_token {
        Some(t) => seq!["--accessToken"@, t@],
        None => Seq::empty(),
    }) + seq!["--userType"@, "mojang"@, "--versionType"@, "release"@]
}

/// How many arguments come before the classpath: one for the memory
/// option when a maximum is set.
pub open spec fn memory_args_len(ctx: LaunchContext) -> int {
    if ctx.max_memory is Some { 1 } else { 0 }
}

/// Whenever the context holds an access token, the arguments hold
/// `--accessToken` followed by that token, right after the asset index and
/// before `--userType mojang`, whatever the loader; without a token neither
/// appears and the command line is two arguments shorter.
pub proof fn law_launch_token(ctx: LaunchContext, classpath: Seq<char>, assets_dir: Seq<char>)
    ensures
        ({
            let a = launch_args_spec(ctx, classpath, assets_dir);
            let m = memory_args_len(ctx);
            &&& a.len() == m + 20 + (if ctx.user.access_token is Some { 2int } else { 0int })
            &&& a[m + 15] == ctx.asset_index_id@
            &&& (ctx.user.access_token matches Some(t) ==> {
                &&& a[m + 16] == "--accessToken"@
                &&& a[m + 17] == t@
                &&& a[m + 18] == "--userType"@
                &&& a[m + 19] == "mojang"@
            })
            &&& (ctx.user.access_token is None ==> a[m + 16] == "--userType"@ && a[m + 17] == "mojang"@)
        }),
{
}

/// Two launches that differ only in the loader profile and the main class
/// of the version get the same arguments but for the main class: the
/// memory option, the classpath handed in and every game argument (name,
/// UUID, token, directories) stay the same.
pub proof fn law_launch_args_loader_independent(
    c1: LaunchContext,
    c2: LaunchContext,
    classpath: Seq<char>,
    assets_dir: Seq<char>,
)
    requires
        c1.game_path@ == c2.game_path@,
        c1.version_id@ == c2.version_id@,
        c1.user.username@ == c2.user.username@,
        c1.user.uuid@ == c2.user.uuid@,
        c1.user.access_token == c2.user.access_token,
        c1.max_memory == c2.max_memory,
        c1.asset_index_id@ == c2.asset_index_id@,
    ensures
        ({
            let a1 = launch_args_spec(c1, classpath, assets_dir);
            let a2 = launch_args_spec(c2, classpath, assets_dir);
            let m = memory_args_len(c1);
            &&& a1.len() == a2.len()
            &&& a1[m + 2] == classpath && a2[m + 2] == classpath
            &&& a1[m + 3] == effective_main_class(c1)
            &&& a2[m + 3] == effective_main_class(c2)
            &&& forall|i: int| 0 <= i < a1.len() && i != m + 3 ==> #[trigger] a1[i] == a2[i]
        }),
{
}

pub open spec fn context_classpath(ctx: LaunchContext, present: Seq<bool>, sep: Seq<char>) -> Seq<char> {
    join_with(
        classpath_entries(strings_view(ctx.libraries@), ctx.game_path@, ctx.version_id@, ctx.fabric_loader, present),
        sep,
    )
}

pub open spec fn missing_java_message() -> Seq<char> {
    "Java executable not found"@
}

fn push_string(v: &mut Vec<String>, s: String)
    ensures
        strings_view(final(v)@) == strings_view(old(v)@).push(s@),
{
    let ghost prev = v@;
    v.push(s);
    assert(strings_view(v@) =~= strings_view(prev).push(s@));
}

fn push_literal(v: &mut Vec<String>, s: &str)
    ensures
        strings_view(final(v)@) == strings_view(old(v)@).push(s@),
{
    push_string(v, String::from_str(s));
}

/// The program and arguments that start the game: the context's Java
/// executable with `launch_args_spec`; an error when no Java executable
/// was found. `mc_dir` holds the shared assets; `present` and `sep` are
/// as for `build_classpath`.
pub fn launch_command(ctx: &LaunchContext, mc_dir: &str, present: &Vec<bool>, sep: &str) -> (r: Result<(String, Vec<String>), String>)
    requires
        ctx.fabric_loader matches Some(p) ==> present.len() == p.libraries.len(),
    ensures
        match ctx.java_path {
            None => r matches Err(m) && m@ == missing_java_message(),
            Some(j) => r matches Ok(c) && c.0@ == j@ && strings_view(c.1@) == launch_args_spec(
                *ctx,
                context_classpath(*ctx, present@, sep@),
                path_join(mc_dir@, "assets"@),
            ),
        },
{
    let java = match &ctx.java_path {
        Some(j) => j.clone(),
        None => {
            return Err(String::from_str("Java executable not found"));
        },
    };
    let (classpath, fabric_main) = build_classpath(
        &ctx.libraries,
        ctx.version_id.as_str(),
        ctx.fabric_loader.as_ref(),
        ctx.game_path.as_str(),
        present,
        sep,
    );
    let main_class = match fabric_main {
        Some(m) => m,
        None => ctx.main_class.clone(),
    };
    let assets_dir = join_path(mc_dir, "assets");
    let mut args: Vec<String> = Vec::new();
    let ghost mem: Seq<Seq<char>> = match ctx.max_memory {
        Some(m) => seq![memory_arg(m)],
        None => Seq::empty(),
    };
    match ctx.max_memory {
        Some(m) => {
            let mut a: Vec<char> = Vec::new();
            extend_str(&mut a, "-Xmx");
            let digits = u64_decimal(m as u64);
            extend_chars(&mut a, digits.as_slice());
            a.push('M');
            assert(a@ =~= memory_arg(m));
            push_string(&mut args, string_from_chars(a.as_slice()));
        },
        None => {},
    }
    assert(strings_view(args@) =~= mem);
    push_literal(&mut args, "-XX:+UseG1GC");
    push_literal(&mut args, "-cp");
    push_string(&mut args, classpath);
    push_string(&mut args, main_class);
    push_literal(&mut args, "--username");
    push_string(&mut args, ctx.user.username.clone());
    push_literal(&mut args, "--version");
    push_string(&mut args, ctx.version_id.clone());
    push_literal(&mut args, "--uuid");
    push_string(&mut args, ctx.user.uuid.clone());
    push_literal(&mut args, "--gameDir");
    push_string(&mut args, ctx.game_path.clone());
    push_literal(&mut args, "--assetsDir");
    push_string(&mut args, assets_dir);
    push_literal(&mut args, "--assetIndex");
    push_string(&mut args, ctx.asset_index_id.clone());
    let ghost middle = strings_view(args@);
    match &ctx.user.access_token {
        Some(t) => {
            push_literal(&mut args, "--accessToken");
            push_string(&mut args, t.clone());
        },
        None => {},
    }
    push_literal(&mut args, "--userType");
    push_literal(&mut args, "mojang");
    push_literal(&mut args, "--versionType");
    push_literal(&mut args, "release");
    assert(strings_view(args@) =~= launch_args_spec(*ctx, context_classpath(*ctx, present@, sep@), path_join(mc_dir@, "assets"@)));
    Ok((java, args))
}

// ------------------------------------------------------------------
// Showing the command line
// ------------------------------------------------------------------

/// An argument longer than 20 bytes with no `/` and no `\\` is taken for a
/// secret (a token) and shown as `********`.
pub open spec fn masked(arg: Seq<char>) -> Seq<char> {
    if utf8_len(arg) > 20 && !arg.contains('/') && !arg.contains('\\') {
        "********"@
    } else {
        arg
    }
}

proof fn lemma_utf8_len_take(s: Seq<char>, i: int)
    requires
        0 <= i < s.len(),
    ensures
        utf8_len(s.take(i + 1)) == utf8_len(s.take(i)) + char_utf8_len(s[i]),
{
    assert(s.take(i + 1).drop_last() =~= s.take(i));
}

proof fn lemma_utf8_len_prefix(s: Seq<char>, i: int)
    requires
        0 <= i <= s.len(),
    ensures
        utf8_len(s.take(i)) <= utf8_len(s),
    decreases s.len() - i,
{
    if i == s.len() {
        assert(s.take(i) =~= s);
    } else {
        lemma_utf8_len_take(s, i);
        lemma_utf8_len_prefix(s, i + 1);
    }
}

fn char_bytes(c: char) -> (n: usize)
    ensures
        n == char_utf8_len(c),
{
    let v = c as u32;
    if v < 0x80 {
        1
    } else if v < 0x800 {
        2
    } else if v < 0x10000 {
        3
    } else {
        4
    }
}

/// Whether `s` takes more than `limit` bytes in UTF-8.
fn utf8_longer_than(s: &[char], limit: usize) -> (r: bool)
    requires
        limit < usize::MAX - 4,
    ensures
        r == (utf8_len(s@) > limit),
{
    let mut n: usize = 0;
    let mut i: usize = 0;
    while i < s.len()
        invariant
            i <= s.len(),
            limit < usize::MAX - 4,
            n == utf8_len(s@.take(i as int)),
            n <= limit,
        decreases s.len() - i,
    {
        proof {
            lemma_utf8_len_take(s@, i as int);
        }
        n = n + char_bytes(s[i]);
        i += 1;
        if n > limit {
            proof {
                lemma_utf8_len_prefix(s@, i as int);
            }
            return true;
        }
    }
    assert(s@.take(s.len() as int) =~= s@);
    false
}

/// One argument as it is shown in the log (see `masked`).
pub fn mask_argument(arg: &str) -> (r: String)
    ensures
        r@ == masked(arg@),
{
    let c = chars_of(arg);
    if utf8_longer_than(c.as_slice(), 20) && !crate::text::contains_char(c.as_slice(), '/')
        && !crate::text::contains_char(c.as_slice(), '\\') {
        String::from_str("********")
    } else {
        string_from_chars(c.as_slice())
    }
}

/// The arguments as they are shown in the log, each masked.
pub fn preview_arguments(args: &Vec<String>) -> (r: Vec<String>)
    ensures
        strings_view(r@) == strings_view(args@).map_values(|a: Seq<char>| masked(a)),
{
    let mut r: Vec<String> = Vec::new();
    let mut i: usize = 0;
    while i < args.len()
        invariant
            i <= args.len(),
            strings_view(r@) == strings_view(args@).take(i as int).map_values(|a: Seq<char>| masked(a)),
        decreases args.len() - i,
    {
        let m = mask_argument(args[i].as_str());
        push_string(&mut r, m);
        assert(strings_view(args@).take(i + 1) =~= strings_view(args@).take(i as int).push(args@[i as int]@));
        assert(strings_view(args@).take(i + 1).map_values(|a: Seq<char>| masked(a)) =~= strings_view(args@).take(i as int).map_values(|a: Seq<char>| masked(a)).push(masked(args@[i as int]@)));
        i += 1;
    }
    assert(strings_view(args@).take(args.len() as int) =~= strings_view(args@));
    r
}

// ------------------------------------------------------------------
// Who plays
// ------------------------------------------------------------------

/// The identity a game is started with.
pub enum LaunchIdentity {
    /// Offline play: a local name and UUID, and a placeholder token.
    Offline { username: String, uuid: String, access_token: String },
    /// Online play: the signed-in profile; its token comes from signing in
    /// again silently.
    Online { username: String, uuid: String },
}

/// A configured value, or the fallback when it is empty.
pub open spec fn or_default(v: Seq<char>, fallback: Seq<char>) -> Seq<char> {
    if v.len() == 0 { fallback } else { v }
}

/// The launch plays offline when asked on the command line, else as the
/// configuration says. Offline, an unset name is `Default` and an unset
/// UUID `offline`, with the token `offline_token`; online, the online
/// profile is used.
pub open spec fn identity_spec(r: LaunchIdentity, offline_arg: Option<bool>, config_offline: bool, profiles: crate::config::UserProfiles) -> bool {
    let offline = match offline_arg {
        Some(b) => b,
        None => config_offline,
    };
    if offline {
        r matches LaunchIdentity::Offline { username, uuid, access_token }
            && username@ == or_default(profiles.offline.username@, "Default"@)
            && uuid@ == or_default(profiles.offline.uuid@, "offline"@)
            && access_token@ == "offline_token"@
    } else {
        r matches LaunchIdentity::Online { username, uuid }
            && username@ == profiles.online.username@
            && uuid@ == profiles.online.uuid@
    }
}

/// A flag on the command line decides whether the launch is offline;
/// without one the configuration decides. Online, the configured online
/// profile plays; offline, with the placeholder token.
pub proof fn law_identity_offline_choice(
    r: LaunchIdentity,
    offline_arg: Option<bool>,
    config_offline: bool,
    profiles: crate::config::UserProfiles,
)
    requires
        identity_spec(r, offline_arg, config_offline, profiles),
    ensures
        offline_arg matches Some(b) ==> ((r is Offline) == b),
        offline_arg is None ==> ((r is Offline) == config_offline),
        (r is Offline) != (r is Online),
        r matches LaunchIdentity::Online { username, uuid } ==> username@ == profiles.online.username@
            && uuid@ == profiles.online.uuid@,
        r matches LaunchIdentity::Offline { access_token, .. } ==> access_token@ == "offline_token"@,
{
}

fn value_or(v: &String, fallback: &str) -> (r: String)
    ensures
        r@ == or_default(v@, fallback@),
{
    let c = chars_of(v.as_str());
    if c.len() == 0 {
        String::from_str(fallback)
    } else {
        v.clone()
    }
}

/// Decides how the game is played (see `identity_spec`).
pub fn launch_identity(offline_arg: Option<bool>, config_offline: bool, config: &UserConfig) -> (r: LaunchIdentity)
    ensures
        identity_spec(r, offline_arg, config_offline, config.user_profile),
        offline_arg matches Some(b) ==> ((r is Offline) == b),
        offline_arg is None ==> ((r is Offline) == config_offline),
{
    let offline = match offline_arg {
        Some(b) => b,
        None => config_offline,
    };
    if offline {
        LaunchIdentity::Offline {
            username: value_or(&config.user_profile.offline.username, "Default"),
            uuid: value_or(&config.user_profile.offline.uuid, "offline"),
            access_token: String::from_str("offline_token"),
        }
    } else {
        LaunchIdentity::Online {
            username: config.user_profile.online.username.clone(),
            uuid: config.user_profile.online.uuid.clone(),
        }
    }
}

pub open spec fn missing_instance_message(instance: Seq<char>) -> Seq<char> {
    "Instance '"@ + instance
        + "' not found. Run `nexus install core --game-version <version>` to install it."@
}

/// The error of a launch whose instance has no `version.json`.
pub fn missing_instance(instance: &str) -> (r: String)
    ensures
        r@ == missing_instance_message(instance@),
{
    let mut m: Vec<char> = Vec::new();
    extend_str(&mut m, "Instance '");
    extend_str(&mut m, instance);
    extend_str(&mut m, "' not found. Run `nexus install core --game-version <version>` to install it.");
    string_from_chars(m.as_slice())
}

} // verus!
