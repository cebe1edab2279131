use nexus_launcher::cli::{core_install_target, CoreArgs};
use nexus_launcher::java::{cached_java_still_valid, find_java, find_java_binary, java_info_from_output, java_info_from_version, JavaInfo};
use nexus_launcher::loader::EntryInfo;
use nexus_launcher::paths::{
    clients_dir_in, join_path, library_path_in, minecraft_dir_in, path_components, path_starts_with,
    servers_dir_in, validate_instance_name, workspace_folders,
};

#[test]
fn joining_paths() {
    assert_eq!(join_path("/a", "b"), "/a/b");
    assert_eq!(join_path("/a/", "b"), "/a/b");
    assert_eq!(join_path("", "b"), "b");
    assert_eq!(join_path("/a", "/etc"), "/etc");
    assert_eq!(minecraft_dir_in("/home/steve"), "/home/steve/.minecraft");
    assert_eq!(library_path_in("/m", "org/x.jar"), "/m/libraries/org/x.jar");
    assert_eq!(clients_dir_in("/m"), "/m/clients");
    assert_eq!(servers_dir_in("/m"), "/m/servers");
}

#[test]
fn workspace_layout() {
    assert_eq!(
        workspace_folders("/m"),
        vec![
            "/m", "/m/clients", "/m/servers", "/m/libraries", "/m/assets", "/m/assets/indexes",
            "/m/assets/objects", "/m/runtimes",
        ]
    );
}

#[test]
fn components_and_containment() {
    let c: Vec<String> = path_components("/a//b/./c/").iter().map(|p| p.iter().collect()).collect();
    assert_eq!(c, vec!["/", "a", "b", "c"]);
    let d: Vec<String> = path_components("./x").iter().map(|p| p.iter().collect()).collect();
    assert_eq!(d, vec![".", "x"]);
    assert!(path_starts_with("/m/clients/inst", "/m/clients"));
    assert!(path_starts_with("/m/clients/inst", "/m/clients/"));
    assert!(!path_starts_with("/m/clientsX", "/m/clients"));
    assert!(path_starts_with("/m/clients/../etc", "/m/clients"));
    assert!(!path_starts_with("m/clients", "/m"));
}

#[test]
fn core_targets() {
    let none = CoreArgs { game_version: None, name: Some("x".to_string()), list: None };
    assert!(core_install_target(&none).is_none());
    let plain = CoreArgs { game_version: Some("1.20.1".to_string()), name: None, list: None };
    assert_eq!(core_install_target(&plain), Some(("1.20.1".to_string(), "1.20.1".to_string())));
    let named = CoreArgs { game_version: Some("1.20.1".to_string()), name: Some("mine".to_string()), list: None };
    assert_eq!(core_install_target(&named), Some(("1.20.1".to_string(), "mine".to_string())));
}

#[test]
fn java_detection() {
    let out = "openjdk version \"17.0.8\" 2023-07-18\nOpenJDK Runtime Environment";
    let info = java_info_from_output("/usr/bin/java".to_string(), out).unwrap();
    assert_eq!(info.major_version, 17);
    assert_eq!(info.full_version, "17.0.8");
    assert_eq!(info.path, "/usr/bin/java");
    let legacy = java_info_from_output("j".to_string(), "java version \"1.8.0_382\"").unwrap();
    assert_eq!(legacy.major_version, 8);
    assert!(java_info_from_output("j".to_string(), "no version here").is_none());
    assert!(java_info_from_version("j".to_string(), "abc".to_string()).is_none());
    let found = vec![
        JavaInfo { path: "a".to_string(), major_version: 8, full_version: "1.8.0".to_string() },
        JavaInfo { path: "b".to_string(), major_version: 17, full_version: "17.0.1".to_string() },
        JavaInfo { path: "c".to_string(), major_version: 17, full_version: "17.0.9".to_string() },
    ];
    assert_eq!(find_java(&found, 17), Some(1));
    assert_eq!(find_java(&found, 21), None);
    let detected = Some(JavaInfo { path: "b".to_string(), major_version: 21, full_version: "21".to_string() });
    assert!(!cached_java_still_valid(17, &detected));
    assert!(cached_java_still_valid(21, &detected));
    assert!(!cached_java_still_valid(21, &None));
    let walk = vec![
        EntryInfo { name: "bin".to_string(), is_file: false, is_dir: true },
        EntryInfo { name: "javac".to_string(), is_file: true, is_dir: false },
        EntryInfo { name: "Java.EXE".to_string(), is_file: true, is_dir: false },
        EntryInfo { name: "java".to_string(), is_file: true, is_dir: false },
    ];
    assert_eq!(find_java_binary(&walk, false), Some(3));
    assert_eq!(find_java_binary(&walk, true), Some(2));
}

#[test]
fn valid_instance_stays_inside_clients() {
    for name in ["1.20", "my-instance", ".", "a b"] {
        assert!(validate_instance_name(name).is_ok());
        for dir in ["/m/clients", "/m/clients/", "clients", "./clients", ""] {
            assert!(path_starts_with(&join_path(dir, name), dir), "{} in {}", name, dir);
        }
    }
    // a rejected name could leave the directory
    assert!(validate_instance_name("/etc").is_err());
    assert!(!path_starts_with(&join_path("/m/clients", "/etc"), "/m/clients"));
}

#[test]
fn home_based_paths() {
    if let Some(dir) = nexus_launcher::paths::get_minecraft_dir() {
        assert!(dir.ends_with(".minecraft"));
        assert_eq!(nexus_launcher::paths::get_clients_dir(), Some(format!("{}/clients", dir)));
        assert_eq!(nexus_launcher::paths::get_servers_dir(), Some(format!("{}/servers", dir)));
        assert_eq!(nexus_launcher::paths::get_library_path("x.jar"), Some(format!("{}/libraries/x.jar", dir)));
        assert_eq!(nexus_launcher::crash::crash_log_dir(), Some(format!("{}/crash_logs", dir)));
        let inside = format!("{}/clients/inst", dir);
        assert_eq!(nexus_launcher::paths::is_path_safe(&inside), Some(true));
        assert_eq!(nexus_launcher::paths::is_path_safe("/definitely/elsewhere"), Some(false));
    }
}
