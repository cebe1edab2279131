use nexus_launcher::cli::SetArgs;
use nexus_launcher::config::{
    apply_set, record_login, sign_out, JavaPaths, LaunchConfig, LauncherConfig, NameMap, UserConfig,
};

#[test]
fn test_user_config_default() {
    let cfg = UserConfig::default();
    assert!(cfg.user_profile.offline.username.is_empty());
    assert!(cfg.user_profile.offline.uuid.is_empty());
    assert!(cfg.user_profile.online.username.is_empty());
    assert!(cfg.user_profile.online.uuid.is_empty());
    assert!(cfg.username.is_empty());
}

#[test]
fn test_launch_config_default() {
    let cfg = LaunchConfig::default();
    assert!(cfg.offline);
    assert!(cfg.java_paths.is_empty());
}

#[test]
fn launcher_config_default_is_empty() {
    let cfg = LauncherConfig::default();
    assert!(cfg.username.is_empty());
    assert!(cfg.java_paths.is_empty());
    assert!(cfg.user_profile.online.uuid.is_empty());
}

#[test]
fn name_map_insert_get_remove() {
    let mut m = NameMap::new();
    m.insert("Steve".to_string(), "u1".to_string());
    m.insert("Alex".to_string(), "u2".to_string());
    m.insert("Steve".to_string(), "u3".to_string());
    assert_eq!(m.get("Steve"), Some("u3".to_string()));
    assert_eq!(m.get("Alex"), Some("u2".to_string()));
    assert_eq!(m.get("Herobrine"), None);
    assert_eq!(m.pairs().len(), 2);
    m.remove("Steve");
    assert_eq!(m.get("Steve"), None);
    m.remove("Steve");
    assert_eq!(m.pairs(), vec![("Alex".to_string(), "u2".to_string())]);
}

#[test]
fn java_paths_read_after_write_and_listing() {
    let mut j = JavaPaths::new();
    j.insert(21, "/jvm/21/bin/java".to_string());
    j.insert(8, "/jvm/8/bin/java".to_string());
    j.insert(17, "/jvm/17/bin/java".to_string());
    j.insert(21, "/opt/21/bin/java".to_string());
    assert_eq!(j.get(21), Some("/opt/21/bin/java".to_string()));
    assert_eq!(j.get(8), Some("/jvm/8/bin/java".to_string()));
    assert_eq!(j.get(11), None);
    let all = j.listing(None);
    let majors: Vec<u32> = all.iter().map(|p| p.0).collect();
    assert_eq!(majors, vec![8, 17, 21]);
    assert_eq!(j.listing(Some(17)), vec![(17, "/jvm/17/bin/java".to_string())]);
    assert!(j.listing(Some(11)).is_empty());
}

#[test]
fn set_changes_only_what_is_given() {
    let mut cfg = UserConfig::default();
    let mut launch = LaunchConfig::default();
    let args = SetArgs { name: Some("Player".to_string()), uuid: None, show: false, offline: Some(false) };
    apply_set(&mut cfg, &mut launch, &args);
    assert_eq!(cfg.user_profile.offline.username, "Player");
    assert!(cfg.user_profile.offline.uuid.is_empty());
    assert!(!launch.offline);
    let args = SetArgs { name: None, uuid: Some("abc123".to_string()), show: true, offline: None };
    apply_set(&mut cfg, &mut launch, &args);
    assert_eq!(cfg.user_profile.offline.username, "Player");
    assert_eq!(cfg.user_profile.offline.uuid, "abc123");
    assert!(!launch.offline);
}

#[test]
fn login_then_sign_out() {
    let mut cfg = UserConfig::default();
    cfg.username.insert("Other".to_string(), "o1".to_string());
    record_login(&mut cfg, &"Steve".to_string(), &"uuid-1".to_string());
    assert_eq!(cfg.user_profile.online.username, "Steve");
    assert_eq!(cfg.user_profile.online.uuid, "uuid-1");
    assert_eq!(cfg.username.get("Steve"), Some("uuid-1".to_string()));
    let out = sign_out(&mut cfg, "Steve");
    assert_eq!(out, Ok("uuid-1".to_string()));
    assert_eq!(cfg.username.get("Steve"), None);
    assert_eq!(cfg.username.get("Other"), Some("o1".to_string()));
    assert!(cfg.user_profile.online.username.is_empty());
    assert!(cfg.user_profile.online.uuid.is_empty());
}

#[test]
fn sign_out_of_unknown_user() {
    let mut cfg = UserConfig::default();
    record_login(&mut cfg, &"Steve".to_string(), &"uuid-1".to_string());
    assert_eq!(sign_out(&mut cfg, "Alex"), Err("User Alex not found".to_string()));
    assert_eq!(cfg.user_profile.online.username, "Steve");
    assert_eq!(cfg.username.get("Steve"), Some("uuid-1".to_string()));
}
