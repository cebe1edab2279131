use nexus_launcher::version::{
    check_installed_version, recorded_version_id,
    asset_download_tasks, asset_index_path, asset_objects_dir, cache_check_concurrency,
    check_existing_instance, client_jar_path, filter_versions, find_version, first_set_indices,
    instance_dir_name, library_download_tasks, version_not_found, Artifact, AssetIndex, AssetObject,
    DownloadInfo, JavaVersion, LatestVersions, Library, LibraryDownloads, RetryAction, RetryState,
    VersionDetail, VersionDownloads, VersionInfo, VersionManifest, MAX_RETRIES,
};

fn lib(name: &str, path: Option<&str>) -> Library {
    Library {
        name: name.to_string(),
        downloads: LibraryDownloads {
            artifact: path.map(|p| Artifact {
                path: p.to_string(),
                url: format!("https://libraries.minecraft.net/{}", p),
                sha1: format!("sha-{}", name),
            }),
        },
    }
}

pub fn detail() -> VersionDetail {
    VersionDetail {
        id: "1.20.1".to_string(),
        main_class: "net.minecraft.client.main.Main".to_string(),
        type_: "release".to_string(),
        libraries: vec![
            lib("a", Some("org/a/1/a-1.jar")),
            lib("natives", None),
            lib("b", Some("org/b/2/b-2.jar")),
        ],
        downloads: VersionDownloads {
            client: DownloadInfo { url: "https://x/client.jar".to_string(), sha1: "abc".to_string() },
        },
        asset_index: AssetIndex { id: "5".to_string(), url: "https://x/5.json".to_string(), sha1: "def".to_string() },
        java_version: JavaVersion { major_version: 17 },
    }
}

fn info(id: &str, t: &str) -> VersionInfo {
    VersionInfo {
        id: id.to_string(),
        version_type: t.to_string(),
        url: format!("https://meta/{}.json", id),
        release_time: String::new(),
    }
}

#[test]
fn library_tasks_skip_libraries_without_artifact() {
    let (paths, tasks) = library_download_tasks("/h/.minecraft", &detail());
    assert_eq!(
        paths,
        vec!["/h/.minecraft/libraries/org/a/1/a-1.jar", "/h/.minecraft/libraries/org/b/2/b-2.jar"]
    );
    assert_eq!(tasks.len(), 2);
    assert_eq!(tasks[1].name, "b");
    assert_eq!(tasks[1].url, "https://libraries.minecraft.net/org/b/2/b-2.jar");
    assert_eq!(tasks[1].local_path, "/h/.minecraft/libraries/org/b/2/b-2.jar");
    assert_eq!(tasks[1].sha1, "sha-b");
}

#[test]
fn asset_paths_and_tasks() {
    assert_eq!(asset_index_path("/h/.minecraft", "5"), "/h/.minecraft/assets/indexes/5.json");
    assert_eq!(asset_objects_dir("/h/.minecraft"), "/h/.minecraft/assets/objects");
    let objects = vec![(
        "minecraft/sounds/a.ogg".to_string(),
        AssetObject { hash: "ab12cd".to_string(), size: 10 },
    )];
    let tasks = asset_download_tasks("/o", &objects);
    assert_eq!(tasks.len(), 1);
    assert_eq!(tasks[0].name, "minecraft/sounds/a.ogg");
    assert_eq!(tasks[0].url, "https://resources.download.minecraft.net/ab/ab12cd");
    assert_eq!(tasks[0].local_path, "/o/ab/ab12cd");
    assert_eq!(tasks[0].sha1, "ab12cd");
}

#[test]
fn installing_core() {
    let manifest = VersionManifest {
        latest: LatestVersions { release: "1.20.1".to_string(), snapshot: "23w31a".to_string() },
        versions: vec![info("23w31a", "snapshot"), info("1.20.1", "release"), info("1.20.1", "release")],
    };
    assert_eq!(find_version(&manifest, "1.20.1"), Some(1));
    assert_eq!(find_version(&manifest, "1.0"), None);
    assert_eq!(version_not_found("1.0"), "Version 1.0 not found in manifest");
    assert_eq!(client_jar_path("/c/inst", "1.20.1"), "/c/inst/1.20.1.jar");
    assert!(check_existing_instance("1.20.1", "1.20.1", "inst").is_ok());
    assert_eq!(
        check_existing_instance("1.19", "1.20.1", "inst").unwrap_err(),
        "Instance 'inst' already contains version 1.19 (requested 1.20.1). Use `uninstall instance inst` first, or specify a different --name."
    );
    assert_eq!(instance_dir_name(&"1.20.1".to_string(), &None), "1.20.1");
    assert_eq!(instance_dir_name(&"1.20.1".to_string(), &Some("mine".to_string())), "mine");
}

#[test]
fn version_listing_filters() {
    let vs = vec![
        info("1.21", "release"),
        info("24w10a", "snapshot"),
        info("1.20.4", "release"),
        info("1.20.3", "release"),
        info("1.20-pre1", "snapshot"),
    ];
    assert_eq!(filter_versions(&vs, true, None, 10), vec![0, 2, 3]);
    assert_eq!(filter_versions(&vs, false, Some("1.20"), 10), vec![2, 3, 4]);
    assert_eq!(filter_versions(&vs, true, Some("1.20"), 1), vec![2]);
    assert_eq!(filter_versions(&vs, false, None, 0), Vec::<usize>::new());
    assert_eq!(first_set_indices(&vec![false, true, true, false, true], 2), vec![1, 2]);
}

#[test]
fn retry_schedule() {
    let mut s = RetryState::new();
    let mut waits = Vec::new();
    loop {
        match s.after_attempt(false) {
            RetryAction::Wait(w) => waits.push(w),
            RetryAction::GiveUp => break,
            RetryAction::Done => panic!("a failure never completes a download"),
        }
    }
    assert_eq!(waits, vec![1, 2, 4, 8, 16]);
    assert_eq!(waits.iter().sum::<u64>(), 31);
    assert_eq!(s.failures, MAX_RETRIES + 1);
    let mut t = RetryState::new();
    assert!(matches!(t.after_attempt(false), RetryAction::Wait(1)));
    assert!(matches!(t.after_attempt(true), RetryAction::Done));
    assert_eq!(t.failures, 1);
}

#[test]
fn cache_check_width() {
    assert_eq!(cache_check_concurrency(10), 20);
    assert_eq!(cache_check_concurrency(16), 32);
    assert_eq!(cache_check_concurrency(3), 16);
    assert_eq!(cache_check_concurrency(0), 16);
}

#[test]
fn recorded_ids() {
    assert_eq!(recorded_version_id(r#"{"id": "1.20.1", "type": "release"}"#), Ok(Some("1.20.1".to_string())));
    assert_eq!(recorded_version_id(r#"{"id": 7}"#), Ok(None));
    assert_eq!(recorded_version_id(r#"[1, 2]"#), Ok(None));
    assert!(recorded_version_id("not json").is_err());
    assert!(check_installed_version(r#"{"id": "1.20.1"}"#, "1.20.1", "inst").is_ok());
    assert_eq!(
        check_installed_version(r#"{}"#, "1.20.1", "inst").unwrap_err(),
        "Instance 'inst' already contains version  (requested 1.20.1). Use `uninstall instance inst` first, or specify a different --name."
    );
    assert!(check_installed_version("{", "1.20.1", "inst").is_err());
}
