//! Command arguments the launcher acts on, and the mod loaders it knows.
use vstd::prelude::*;
use crate::text::{ascii_lower_char, extend_str, is_ascii_seq, lowercase_of, str_eq, string_from_chars, to_lowercase};

verus! {

/// A mod loader.
#[derive(Debug, Clone, Copy, PartialEq, Eq, Structural)]
pub enum Loaders {
    Fabric,
    Quilt,
}

/// The name of a loader as the launcher writes it.
pub open spec fn loader_name(l: Loaders) -> Seq<char> {
    match l {
        Loaders::Fabric => "fabric"@,
        Loaders::Quilt => "quilt"@,
    }
}

/// The loader a lowercase name denotes.
pub open spec fn loader_of_lowercase(lower: Seq<char>) -> Option<Loaders> {
    if lower == "fabric"@ {
        Some(Loaders::Fabric)
    } else if lower == "quilt"@ {
        Some(Loaders::Quilt)
    } else {
        None
    }
}

pub open spec fn invalid_loader_message(s: Seq<char>) -> Seq<char> {
    "Invalid loader: "@ + s + ". Expected 'fabric' or 'quilt'"@
}

impl Loaders {
    /// The loader's name: `fabric` or `quilt`.
    pub fn to_string(&self) -> (r: String)
        ensures
            r@ == loader_name(*self),
    {
        match self {
            Loaders::Fabric => String::from_str("fabric"),
            Loaders::Quilt => String::from_str("quilt"),
        }
    }

    /// The loader named by an already lowercased name.
    pub fn from_lowercase(lower: &str) -> (r: Option<Loaders>)
        ensures
            r == loader_of_lowercase(lower@),
    {
        if str_eq(lower, "fabric") {
            Some(Loaders::Fabric)
        } else if str_eq(lower, "quilt") {
            Some(Loaders::Quilt)
        } else {
            None
        }
    }

    /// Reads a loader name, ignoring case.
    pub fn parse_name(s: &str) -> (r: Result<Loaders, String>)
        ensures
            match loader_of_lowercase(lowercase_of(s@)) {
                Some(l) => r == Ok::<Loaders, String>(l),
                None => r matches Err(m) && m@ == invalid_loader_message(s@),
            },
            is_ascii_seq(s@) ==> match loader_of_lowercase(
                s@.map_values(|c: char| ascii_lower_char(c)),
            ) {
                Some(l) => r == Ok::<Loaders, String>(l),
                None => r is Err,
            },
    {
        let lower = to_lowercase(s);
        match Loaders::from_lowercase(lower.as_str()) {
            Some(l) => Ok(l),
            None => {
                let mut m: Vec<char> = Vec::new();
                extend_str(&mut m, "Invalid loader: ");
                extend_str(&mut m, s);
                extend_str(&mut m, ". Expected 'fabric' or 'quilt'");
                Err(string_from_chars(m.as_slice()))
            },
        }
    }
}

impl core::str::FromStr for Loaders {
    type Err = String;

    /// Reads a loader name, ignoring case (see `parse_name`).
    fn from_str(s: &str) -> (r: Result<Loaders, String>)
        ensures
            match loader_of_lowercase(lowercase_of(s@)) {
                Some(l) => r == Ok::<Loaders, String>(l),
                None => r matches Err(m) && m@ == invalid_loader_message(s@),
            },
            is_ascii_seq(s@) ==> match loader_of_lowercase(
                s@.map_values(|c: char| ascii_lower_char(c)),
            ) {
                Some(l) => r == Ok::<Loaders, String>(l),
                None => r is Err,
            },
    {
        Loaders::parse_name(s)
    }
}

/// Reading back the name the launcher writes gives the same loader: the
/// name is ASCII and already lowercase, so `parse_name` (whose contract
/// reads ASCII input through ASCII lowercasing) maps it back to `l`.
pub proof fn law_loader_name_round_trip(l: Loaders)
    ensures
        is_ascii_seq(loader_name(l)),
        loader_name(l).map_values(|c: char| ascii_lower_char(c)) == loader_name(l),
        loader_of_lowercase(loader_name(l)) == Some(l),
{
    reveal_strlit("fabric");
    reveal_strlit("quilt");
    let n = loader_name(l);
    assert(n.map_values(|c: char| ascii_lower_char(c)) =~= n);
}

/// `set`: offline profile and launch mode settings.
pub struct SetArgs {
    pub name: Option<String>,
    pub uuid: Option<String>,
    pub show: bool,
    pub offline: Option<bool>,
}

/// `launch`: start an installed instance.
pub struct LaunchArgs {
    pub instance_name: String,
    pub player_name: String,
    pub max_memory: u32,
    pub offline: Option<bool>,
    pub force_scan: bool,
}

/// `install mod`: search for a mod, or download it into an instance.
pub struct ModArgs {
    pub query: Option<String>,
    pub limit: Option<i32>,
    pub game_version: Option<String>,
    pub download: bool,
    pub instance_name: Option<String>,
    pub loader: Option<Loaders>,
    pub version_type: Option<String>,
}

/// `search mod`: query Modrinth.
pub struct SearchModArgs {
    pub query: String,
    pub limit: i32,
    pub index: Option<String>,
    pub game_version: Option<String>,
    pub offset: Option<i32>,
}

/// `search java`: list cached or scanned runtimes.
pub struct SearchJavaArgs {
    pub version: Option<u32>,
    pub scan: bool,
}

/// `search user`: list the profiles cached by an instance.
pub struct SearchUserArgs {
    pub instance: String,
}

/// `install core`: download a game version.
pub struct CoreArgs {
    pub game_version: Option<String>,
    pub name: Option<String>,
    pub list: Option<String>,
}

/// `install loader`: install a mod loader into an instance.
pub struct LoaderArgs {
    pub game_name: String,
    pub loader: Loaders,
}

/// `auth`: sign in or out.
pub struct AuthArgs {
    pub login: bool,
    pub logout: Option<String>,
}

/// `java`: download or scan for runtimes.
pub struct JavaArgs {
    pub version: u32,
    pub scan: bool,
    pub download: bool,
}

/// The command line: a command, and whether to log verbosely.
pub struct Cli {
    pub command: Option<Commands>,
    pub debug: bool,
}

/// The top-level commands.
pub enum Commands {
    /// Launch an instance.
    Launch(LaunchArgs),
    /// Sign in or out.
    Auth(AuthArgs),
    /// Check, download and install Java.
    Java(JavaArgs),
    /// Install loaders, mods or the game.
    Install(InstallArgs),
    /// Set and show options.
    SetOptions(SetArgs),
    /// Search for mods, runtimes, game versions, loaders and cached profiles.
    Search(SearchArgs),
    /// List instances, profiles or what an instance holds.
    List(ListArgs),
    /// Remove an instance or some of its mods.
    Uninstall(UninstallArgs),
}

pub struct SearchArgs {
    pub command: SearchCommands,
}

pub enum SearchCommands {
    /// Mods on Modrinth.
    Mod(SearchModArgs),
    /// Installed Java runtimes.
    Java(SearchJavaArgs),
    /// Profiles cached by an instance.
    User(SearchUserArgs),
    /// Published game versions.
    Core(SearchCoreArgs),
    /// Published loader versions.
    Loader(SearchLoaderArgs),
}

/// `search core`: published game versions, newest first.
pub struct SearchCoreArgs {
    /// Only releases.
    pub stable: bool,
    /// Only versions whose ID starts with this.
    pub version: Option<String>,
    /// At most this many.
    pub limit: usize,
}

/// `search loader`: published versions of a loader.
pub struct SearchLoaderArgs {
    pub loader: SearchLoaderType,
}

pub enum SearchLoaderType {
    Fabric(SearchLoaderVersionArgs),
    Quilt(SearchLoaderVersionArgs),
}

pub struct SearchLoaderVersionArgs {
    /// Only versions published for this game version.
    pub game_version: Option<String>,
    /// Only stable versions.
    pub stable: bool,
    /// At most this many.
    pub limit: usize,
}

pub struct ListArgs {
    pub command: ListCommands,
}

pub enum ListCommands {
    /// The installed instances.
    Instances,
    /// The configured profiles.
    Users,
    /// What one instance holds.
    Info(ListInfoArgs),
}

/// `list info`: an instance's version, loader, mods and cached profiles.
pub struct ListInfoArgs {
    pub instance: String,
    /// Show only the loader's name.
    pub loader: bool,
    /// List the mod files.
    pub mods: bool,
}

pub struct UninstallArgs {
    pub command: UninstallCommands,
}

pub enum UninstallCommands {
    /// Remove a whole instance.
    Instance(UninstallInstanceArgs),
    /// Remove the mods of an instance whose file names contain a text.
    Mod(UninstallModArgs),
}

pub struct UninstallInstanceArgs {
    pub instance: String,
}

pub struct UninstallModArgs {
    pub instance: String,
    pub query: String,
}

pub struct InstallArgs {
    pub command: InstallCommands,
}

pub enum InstallCommands {
    /// A mod loader.
    Loader(LoaderArgs),
    /// A mod.
    Mod(ModArgs),
    /// The game itself.
    Core(CoreArgs),
}

/// The game directory `install core` fills: the given name, or the
/// version itself; `None` when no version is given (nothing to do).
pub fn core_install_target(args: &CoreArgs) -> (r: Option<(String, String)>)
    ensures
        match args.game_version {
            None => r is None,
            Some(v) => r matches Some(t) && t.0@ == v@ && t.1@ == (match args.name {
                Some(n) => n@,
                None => v@,
            }),
        },
{
    match &args.game_version {
        None => None,
        Some(v) => {
            let dir = match &args.name {
                Some(n) => n.clone(),
                None => v.clone(),
            };
            Some((v.clone(), dir))
        },
    }
}

} // verus!
