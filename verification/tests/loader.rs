use nexus_launcher::loader::{
    loader_game_version,
    fabric_library_download, fabric_loaders_url, fabric_profile_file_name, fabric_profile_url,
    filter_fabric_versions, filter_quilt_versions, find_fabric_json, find_game_json,
    latest_stable_loader, loader_type_of_stem, missing_game_json, pool_paths, EntryInfo,
    FabricLibrary, FabricLoader, FabricLoaderResponse, FabricLoaderVersion, QuiltLoaderVersion,
};

fn entry(name: &str, is_file: bool) -> EntryInfo {
    EntryInfo { name: name.to_string(), is_file, is_dir: !is_file }
}

#[test]
fn loader_urls_and_files() {
    assert_eq!(fabric_loaders_url("1.20.1"), "https://meta.fabricmc.net/v2/versions/loader/1.20.1");
    assert_eq!(
        fabric_profile_url("1.20.1", "0.15.7"),
        "https://meta.fabricmc.net/v2/versions/loader/1.20.1/0.15.7/profile/json"
    );
    assert_eq!(fabric_profile_file_name("1.20.1", "0.15.7"), "fabric_profile_1.20.1_0.15.7.json");
    let lib = FabricLibrary {
        name: "net.fabricmc:fabric-loader:0.15.7".to_string(),
        url: "https://maven.fabricmc.net/".to_string(),
    };
    let (url, rel) = fabric_library_download(&lib);
    assert_eq!(rel, "net/fabricmc/fabric-loader/0.15.7/fabric-loader-0.15.7.jar");
    assert_eq!(url, "https://maven.fabricmc.net/net/fabricmc/fabric-loader/0.15.7/fabric-loader-0.15.7.jar");
    let (target, pool) = pool_paths("/c", "inst", "a/b.jar");
    assert_eq!(target, "/c/inst/libraries/a/b.jar");
    assert_eq!(pool, "/c/inst/objects/a/b.jar");
}

#[test]
fn latest_stable_is_first_stable() {
    let resp = vec![
        FabricLoaderResponse { loader: FabricLoader { version: "0.16.0-beta".to_string(), stable: false } },
        FabricLoaderResponse { loader: FabricLoader { version: "0.15.7".to_string(), stable: true } },
        FabricLoaderResponse { loader: FabricLoader { version: "0.15.6".to_string(), stable: true } },
    ];
    assert_eq!(latest_stable_loader(&resp), Ok("0.15.7".to_string()));
    let only_beta = vec![FabricLoaderResponse {
        loader: FabricLoader { version: "0.16.0-beta".to_string(), stable: false },
    }];
    assert_eq!(
        latest_stable_loader(&only_beta),
        Err("Cannot find latest stable Fabric Loader".to_string())
    );
}

#[test]
fn loader_version_filters() {
    let fabric = vec![
        FabricLoaderVersion { version: "0.16.0".to_string(), stable: false },
        FabricLoaderVersion { version: "0.15.7".to_string(), stable: true },
        FabricLoaderVersion { version: "0.15.6".to_string(), stable: true },
    ];
    assert_eq!(filter_fabric_versions(&fabric, true, 10), vec![1, 2]);
    assert_eq!(filter_fabric_versions(&fabric, false, 2), vec![0, 1]);
    let quilt = vec![
        QuiltLoaderVersion { version: "0.26.0-Beta.1".to_string(), maven: "m".to_string() },
        QuiltLoaderVersion { version: "0.25.0".to_string(), maven: "m".to_string() },
        QuiltLoaderVersion { version: "0.24.0-ALPHA".to_string(), maven: "m".to_string() },
        QuiltLoaderVersion { version: "0.23.1".to_string(), maven: "m".to_string() },
    ];
    assert_eq!(filter_quilt_versions(&quilt, true, 10), vec![1, 3]);
    assert_eq!(filter_quilt_versions(&quilt, false, 3), vec![0, 1, 2]);
}

#[test]
fn instance_files() {
    let entries = vec![
        entry("fabric-old", true),
        entry("version.json", false),
        entry("fabric_profile_1.20.1_0.15.7.json", true),
        entry("version.json", true),
    ];
    assert_eq!(find_game_json(&entries), Some(3));
    assert_eq!(find_fabric_json(&entries), Some(2));
    assert_eq!(find_game_json(&vec![entry("a.json", true)]), None);
    assert_eq!(find_fabric_json(&vec![entry("fabric.json", false)]), None);
    assert_eq!(missing_game_json("/c/x"), "No JSON version file found in /c/x");
    assert_eq!(loader_type_of_stem("fabric_profile_1"), Some("fabric".to_string()));
    assert_eq!(loader_type_of_stem("quilt-profile"), Some("quilt".to_string()));
    assert_eq!(loader_type_of_stem("forge"), None);
}

#[test]
fn game_version_for_loader() {
    assert_eq!(loader_game_version(r#"{"id": "1.21"}"#), Ok("1.21".to_string()));
    assert_eq!(loader_game_version(r#"{"name": "x"}"#), Err("Cannot find game id".to_string()));
    assert!(loader_game_version("{oops").is_err());
}
