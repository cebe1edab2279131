use nexus_launcher::config::UserConfig;
use nexus_launcher::launch::{
    build_classpath, fabric_library_candidates, launch_command, launch_identity, mask_argument,
    missing_instance, preview_arguments, LaunchContext, LaunchIdentity, UserContext,
};
use nexus_launcher::loader::{FabricLibrary, FabricProfile};
use nexus_launcher::version::{
    Artifact, AssetIndex, DownloadInfo, JavaVersion, Library, LibraryDownloads, VersionDetail,
    VersionDownloads,
};

fn detail() -> VersionDetail {
    let lib = |name: &str, path: Option<&str>| Library {
        name: name.to_string(),
        downloads: LibraryDownloads {
            artifact: path.map(|p| Artifact { path: p.to_string(), url: String::new(), sha1: String::new() }),
        },
    };
    VersionDetail {
        id: "1.20.1".to_string(),
        main_class: "net.minecraft.client.main.Main".to_string(),
        type_: "release".to_string(),
        libraries: vec![lib("a", Some("a/a.jar")), lib("n", None), lib("b", Some("b/b.jar"))],
        downloads: VersionDownloads { client: DownloadInfo { url: String::new(), sha1: String::new() } },
        asset_index: AssetIndex { id: "5".to_string(), url: String::new(), sha1: String::new() },
        java_version: JavaVersion { major_version: 17 },
    }
}

fn profile() -> FabricProfile {
    FabricProfile {
        main_class: "net.fabricmc.loader.impl.launch.knot.KnotClient".to_string(),
        libraries: vec![
            FabricLibrary { name: "net.fabricmc:fabric-loader:0.15.7".to_string(), url: "https://maven.fabricmc.net/".to_string() },
            FabricLibrary { name: "org.ow2.asm:asm:9.6".to_string(), url: "https://maven.fabricmc.net/".to_string() },
        ],
    }
}

#[test]
fn user_context_new_has_token() {
    let u = UserContext::new("Steve".to_string(), "u-1".to_string(), "tok".to_string());
    assert_eq!(u.username, "Steve");
    assert_eq!(u.uuid, "u-1");
    assert_eq!(u.access_token.as_deref(), Some("tok"));
    let d = UserContext::default();
    assert!(d.username.is_empty() && d.access_token.is_none());
}

#[test]
fn context_from_detail() {
    let user = UserContext::new("Steve".to_string(), "u-1".to_string(), "tok".to_string());
    let ctx = LaunchContext::from_detail_in(
        "/h/.minecraft",
        "/h/.minecraft/clients/inst".to_string(),
        &detail(),
        user,
        "/usr/bin/java".to_string(),
        2048,
        None,
    );
    assert_eq!(ctx.version_id, "1.20.1");
    assert_eq!(ctx.main_class, "net.minecraft.client.main.Main");
    assert_eq!(ctx.java_path.as_deref(), Some("/usr/bin/java"));
    assert_eq!(ctx.max_memory, Some(2048));
    assert_eq!(ctx.asset_index_id, "5");
    assert_eq!(
        ctx.libraries,
        vec!["/h/.minecraft/libraries/a/a.jar", "/h/.minecraft/libraries/b/b.jar"]
    );
    assert!(ctx.fabric_loader.is_none());
    let empty = LaunchContext::default();
    assert!(empty.java_path.is_none() && empty.libraries.is_empty());
}

#[test]
fn classpath_with_and_without_loader() {
    let libs = vec!["/l/a.jar".to_string(), "/l/b.jar".to_string()];
    let (cp, main) = build_classpath(&libs, "1.20.1", None, "/g", &vec![], ":");
    assert_eq!(cp, "/l/a.jar:/l/b.jar:/g/1.20.1.jar");
    assert!(main.is_none());
    let p = profile();
    assert_eq!(
        fabric_library_candidates("/g", &p),
        vec![
            "/g/objects/net/fabricmc/fabric-loader/0.15.7/fabric-loader-0.15.7.jar",
            "/g/objects/org/ow2/asm/asm/9.6/asm-9.6.jar",
        ]
    );
    let (cp, main) = build_classpath(&libs, "1.20.1", Some(&p), "/g", &vec![false, true], ";");
    assert_eq!(cp, "/l/a.jar;/l/b.jar;/g/objects/org/ow2/asm/asm/9.6/asm-9.6.jar;/g/1.20.1.jar");
    assert_eq!(main.as_deref(), Some("net.fabricmc.loader.impl.launch.knot.KnotClient"));
}

#[test]
fn command_line() {
    let user = UserContext::new("Steve".to_string(), "u-1".to_string(), "tok".to_string());
    let ctx = LaunchContext::from_detail_in("/m", "/m/clients/inst".to_string(), &detail(), user, "/j/java".to_string(), 1024, None);
    let (java, args) = launch_command(&ctx, "/m", &vec![], ":").unwrap();
    assert_eq!(java, "/j/java");
    let expected: Vec<String> = [
        "-Xmx1024M", "-XX:+UseG1GC", "-cp", "/m/libraries/a/a.jar:/m/libraries/b/b.jar:/m/clients/inst/1.20.1.jar",
        "net.minecraft.client.main.Main", "--username", "Steve", "--version", "1.20.1", "--uuid", "u-1",
        "--gameDir", "/m/clients/inst", "--assetsDir", "/m/assets", "--assetIndex", "5",
        "--accessToken", "tok", "--userType", "mojang", "--versionType", "release",
    ]
    .iter()
    .map(|s| s.to_string())
    .collect();
    assert_eq!(args, expected);
    let mut no_java = LaunchContext::default();
    no_java.version_id = "x".to_string();
    assert_eq!(launch_command(&no_java, "/m", &vec![], ":").err(), Some("Java executable not found".to_string()));
}

#[test]
fn command_line_with_loader_and_no_memory() {
    let mut ctx = LaunchContext::default();
    ctx.java_path = Some("java".to_string());
    ctx.version_id = "1.20.1".to_string();
    ctx.game_path = "/g".to_string();
    ctx.main_class = "Main".to_string();
    ctx.fabric_loader = Some(profile());
    let (_, args) = launch_command(&ctx, "/m", &vec![true, false], ":").unwrap();
    assert_eq!(args[0], "-XX:+UseG1GC");
    assert_eq!(args[2], "/g/objects/net/fabricmc/fabric-loader/0.15.7/fabric-loader-0.15.7.jar:/g/1.20.1.jar");
    assert_eq!(args[3], "net.fabricmc.loader.impl.launch.knot.KnotClient");
    assert!(!args.contains(&"--accessToken".to_string()));
    assert_eq!(args.len(), 20);
}

#[test]
fn secrets_are_masked() {
    assert_eq!(mask_argument("eyJhbGciOiJIUzI1NiJ9.payload.sig"), "********");
    assert_eq!(mask_argument("/a/very/long/path/to/some/library.jar"), "/a/very/long/path/to/some/library.jar");
    assert_eq!(mask_argument("C:\\Games\\Minecraft\\versions"), "C:\\Games\\Minecraft\\versions");
    // exactly 20 bytes stays visible, 21 is masked
    assert_eq!(mask_argument("abcdefghijklmnopqrst"), "abcdefghijklmnopqrst");
    assert_eq!(mask_argument("abcdefghijklmnopqrstu"), "********");
    // bytes count, not characters: ten two-byte letters make 20 bytes, eleven make 22
    assert_eq!(mask_argument("éééééééééé"), "éééééééééé");
    assert_eq!(mask_argument("ééééééééééé"), "********");
    let shown = preview_arguments(&vec!["--accessToken".to_string(), "0123456789abcdef0123456789".to_string()]);
    assert_eq!(shown, vec!["--accessToken", "********"]);
}

#[test]
fn identity_offline_and_online() {
    let mut cfg = UserConfig::default();
    match launch_identity(None, true, &cfg) {
        LaunchIdentity::Offline { username, uuid, access_token } => {
            assert_eq!(username, "Default");
            assert_eq!(uuid, "offline");
            assert_eq!(access_token, "offline_token");
        }
        LaunchIdentity::Online { .. } => panic!("the configuration says offline"),
    }
    cfg.user_profile.offline.username = "Alex".to_string();
    cfg.user_profile.online.username = "Steve".to_string();
    cfg.user_profile.online.uuid = "u-1".to_string();
    match launch_identity(Some(true), false, &cfg) {
        LaunchIdentity::Offline { username, uuid, .. } => {
            assert_eq!(username, "Alex");
            assert_eq!(uuid, "offline");
        }
        LaunchIdentity::Online { .. } => panic!("the command line says offline"),
    }
    match launch_identity(Some(false), true, &cfg) {
        LaunchIdentity::Online { username, uuid } => {
            assert_eq!(username, "Steve");
            assert_eq!(uuid, "u-1");
        }
        LaunchIdentity::Offline { .. } => panic!("the command line says online"),
    }
}

#[test]
fn missing_instance_message() {
    assert_eq!(
        missing_instance("inst"),
        "Instance 'inst' not found. Run `nexus install core --game-version <version>` to install it."
    );
}

#[test]
fn context_from_detail_under_home() {
    let user = UserContext::new("Steve".to_string(), "u".to_string(), "t".to_string());
    if let Some(ctx) = LaunchContext::from_detail("/g".to_string(), &detail(), user, "java".to_string(), 512, Some(profile())) {
        let home_mc = nexus_launcher::paths::get_minecraft_dir().unwrap();
        assert_eq!(ctx.libraries, vec![format!("{}/libraries/a/a.jar", home_mc), format!("{}/libraries/b/b.jar", home_mc)]);
        assert_eq!(ctx.max_memory, Some(512));
        assert!(ctx.fabric_loader.is_some());
    }
}
