use nexus_launcher::cli::{Loaders, ModArgs, SearchModArgs};
use nexus_launcher::mod_install::{
    dep_entry, entry_plural_suffix, is_removable_mod_file, manifest_path, mod_search_params,
    mod_versions_params, mods_dir, new_mod_entry, no_mod_found, plan_mod_command, search_mod_params,
    select_file, select_version, ModCommand, VersionChoiceError,
};
use nexus_launcher::modrinth::{
    Hashes, ModDependency, ModEntry, ModHit, ModManifest, Version, VersionFile,
};

fn version(version_type: &str, number: &str) -> Version {
    Version {
        name: format!("v{}", number),
        version_number: number.to_string(),
        changelog: None,
        dependencies: vec![],
        game_versions: vec!["1.20.1".to_string()],
        version_type: version_type.to_string(),
        loaders: vec!["fabric".to_string()],
        featured: false,
        status: "listed".to_string(),
        requested_status: None,
        id: format!("id-{}", number),
        project_id: "P".to_string(),
        author_id: "A".to_string(),
        date_published: "2024-01-01".to_string(),
        downloads: 0,
        changelog_url: None,
        files: vec![],
    }
}

fn file(name: &str, primary: bool) -> VersionFile {
    VersionFile {
        id: name.to_string(),
        hashes: Hashes { sha1: "0".repeat(40), sha512: "0".repeat(128) },
        url: format!("https://cdn/{}", name),
        filename: name.to_string(),
        primary,
        size: 1,
        file_type: None,
        signature: None,
    }
}

fn entry(project: &str, file: &str) -> ModEntry {
    ModEntry {
        name: project.to_uppercase(),
        project_id: project.to_string(),
        version_number: "1.0".to_string(),
        version_type: "release".to_string(),
        filename: file.to_string(),
        loader: "fabric".to_string(),
        game_version: "1.20.1".to_string(),
        installed_at: "0".to_string(),
        dependencies: vec![],
    }
}

fn mod_args(query: Option<&str>, download: bool, instance: Option<&str>, loader: Option<Loaders>) -> ModArgs {
    ModArgs {
        query: query.map(|s| s.to_string()),
        limit: Some(5),
        game_version: Some("1.20.1".to_string()),
        download,
        instance_name: instance.map(|s| s.to_string()),
        loader,
        version_type: None,
    }
}

#[test]
fn version_choice_by_channel() {
    let vs = vec![version("beta", "2.0"), version("release", "1.9"), version("release", "1.8")];
    assert!(matches!(select_version(&vs, Some("release")), Ok(1)));
    assert!(matches!(select_version(&vs, None), Ok(0)));
    match select_version(&vs, Some("alpha")) {
        Err(VersionChoiceError::NoVersionOfType { wanted, available }) => {
            assert_eq!(wanted, "alpha");
            assert_eq!(available, vec!["beta", "release", "release"]);
        }
        _ => panic!("no alpha version is listed"),
    }
    assert!(matches!(select_version(&vec![], None), Err(VersionChoiceError::NoMatchingVersion)));
}

#[test]
fn file_choice_order() {
    let files = vec![file("mod-forge.jar", true), file("mod-Fabric.jar", false), file("mod-fabric-sources.jar", true)];
    // primary file of the loader first, compared case-insensitively
    assert_eq!(select_file(&files, Some("FABRIC")), Some(2));
    // no loader: the first primary file
    assert_eq!(select_file(&files, None), Some(0));
    // a loader none of the files mention: the first primary file
    assert_eq!(select_file(&files, Some("quilt")), Some(0));
    let plain = vec![file("a.jar", false), file("b-fabric.jar", false)];
    assert_eq!(select_file(&plain, Some("fabric")), Some(1));
    assert_eq!(select_file(&plain, Some("quilt")), Some(0));
    assert_eq!(select_file(&vec![], Some("quilt")), None);
}

#[test]
fn install_search_parameters() {
    let p = mod_search_params("sodium", Some("1.21"));
    assert_eq!(p.limit, Some(1));
    assert_eq!(p.index.as_deref(), Some("downloads"));
    assert_eq!(
        p.facets,
        Some(vec![vec!["project_type:mod".to_string()], vec!["versions:1.21".to_string()]])
    );
    let q = mod_search_params("sodium", None);
    assert_eq!(q.facets, Some(vec![vec!["project_type:mod".to_string()]]));
    let v = mod_versions_params("AANobbMI", Some("fabric"), None);
    assert_eq!(v.loaders, Some(vec!["fabric".to_string()]));
    assert_eq!(v.game_versions, None);
    assert_eq!(v.include_changelog, Some(false));
    assert_eq!(v.featured, None);
}

#[test]
fn search_mod_parameters() {
    let args = SearchModArgs {
        query: "jei".to_string(),
        limit: 5,
        index: Some("follows".to_string()),
        game_version: Some("1.20.4".to_string()),
        offset: Some(10),
    };
    let p = search_mod_params(&args);
    assert_eq!(p.query, "jei");
    assert_eq!(p.limit, Some(5));
    assert_eq!(p.offset, Some(10));
    assert_eq!(p.index.as_deref(), Some("follows"));
    assert_eq!(p.facets, Some(vec![vec!["versions:1.20.4".to_string()]]));
}

#[test]
fn mod_command_plans() {
    assert!(matches!(plan_mod_command(&mod_args(None, true, None, None)), Ok(ModCommand::Nothing)));
    match plan_mod_command(&mod_args(Some("sodium"), false, None, None)) {
        Ok(ModCommand::Search(p)) => {
            assert_eq!(p.query, "sodium");
            assert_eq!(p.limit, Some(5));
            assert_eq!(p.facets, Some(vec![vec!["versions:1.20.1".to_string()]]));
        }
        _ => panic!("a search was expected"),
    }
    assert_eq!(
        plan_mod_command(&mod_args(Some("sodium"), true, None, Some(Loaders::Fabric))).err(),
        Some("--instance-name is required with --download".to_string())
    );
    assert_eq!(
        plan_mod_command(&mod_args(Some("sodium"), true, Some("../x"), Some(Loaders::Fabric))).err(),
        Some("Invalid instance name '../x': it must be a single directory name".to_string())
    );
    assert_eq!(
        plan_mod_command(&mod_args(Some("sodium"), true, Some("inst"), None)).err(),
        Some("--loader is required with --download".to_string())
    );
    match plan_mod_command(&mod_args(Some("sodium"), true, Some("inst"), Some(Loaders::Quilt))) {
        Ok(ModCommand::Download { query, instance, loader, game_version, version_type }) => {
            assert_eq!(query, "sodium");
            assert_eq!(instance, "inst");
            assert_eq!(loader, "quilt");
            assert_eq!(game_version.as_deref(), Some("1.20.1"));
            assert!(version_type.is_none());
        }
        _ => panic!("a download was expected"),
    }
}

#[test]
fn manifest_upsert_replaces_first_record_of_project() {
    let mut m = ModManifest { mods: vec![entry("a", "a1.jar"), entry("b", "b1.jar")] };
    assert!(!m.upsert(entry("c", "c1.jar")));
    assert_eq!(m.mods.len(), 3);
    assert!(m.upsert(entry("a", "a2.jar")));
    assert_eq!(m.mods.len(), 3);
    assert_eq!(m.mods[0].filename, "a2.jar");
    // installing the same thing again changes nothing
    assert!(m.upsert(entry("a", "a2.jar")));
    let names: Vec<&str> = m.mods.iter().map(|e| e.filename.as_str()).collect();
    assert_eq!(names, vec!["a2.jar", "b1.jar", "c1.jar"]);
}

#[test]
fn manifest_remove_filenames() {
    let mut m = ModManifest {
        mods: vec![entry("a", "a.jar"), entry("b", "b.jar"), entry("c", "c.jar"), entry("d", "a.jar")],
    };
    let removed = m.remove_filenames(&vec!["a.jar".to_string(), "x.jar".to_string()]);
    assert_eq!(removed, 2);
    let names: Vec<&str> = m.mods.iter().map(|e| e.filename.as_str()).collect();
    assert_eq!(names, vec!["b.jar", "c.jar"]);
    assert_eq!(m.remove_filenames(&vec!["a.jar".to_string()]), 0);
}

#[test]
fn removable_files_and_plural() {
    assert!(is_removable_mod_file("Sodium-Fabric-0.5.jar", "sodium"));
    assert!(is_removable_mod_file("sodium.jar", "SODIUM"));
    assert!(!is_removable_mod_file("nexus_mods.toml", "nexus"));
    assert!(!is_removable_mod_file("lithium.jar", "sodium"));
    assert_eq!(entry_plural_suffix(1), "y");
    assert_eq!(entry_plural_suffix(0), "ies");
    assert_eq!(entry_plural_suffix(2), "ies");
}

#[test]
fn mod_paths_and_messages() {
    assert_eq!(mods_dir("/h/.minecraft/clients", "inst"), "/h/.minecraft/clients/inst/mods");
    assert_eq!(
        manifest_path("/h/.minecraft/clients", "inst"),
        "/h/.minecraft/clients/inst/mods/nexus_mods.toml"
    );
    assert_eq!(no_mod_found("zzz"), "No mod found for 'zzz'");
}

#[test]
fn new_entries() {
    let hit = ModHit {
        project_id: "P1".to_string(),
        title: "Sodium".to_string(),
        author: "jelly".to_string(),
        description: "fast".to_string(),
        categories: vec![],
        client_side: "required".to_string(),
        server_side: "unsupported".to_string(),
        project_type: "mod".to_string(),
        downloads: 1,
        icon_url: String::new(),
        versions: vec![],
        follows: 0,
        date_created: String::new(),
        date_modified: String::new(),
    };
    let v = version("release", "0.5.3");
    let f = file("sodium-0.5.3.jar", true);
    let dep = ModDependency {
        project_id: Some("P2".to_string()),
        version_id: None,
        file_name: None,
        dependency_type: "required".to_string(),
    };
    let d = dep_entry(&dep, Some("Fabric API".to_string()));
    assert_eq!(d.name.as_deref(), Some("Fabric API"));
    assert_eq!(d.project_id.as_deref(), Some("P2"));
    assert_eq!(d.dependency_type, "required");
    let e = new_mod_entry(&hit, &v, &f, None, Some("1.20.1"), "1700000000".to_string(), vec![d]);
    assert_eq!(e.name, "Sodium");
    assert_eq!(e.project_id, "P1");
    assert_eq!(e.version_number, "0.5.3");
    assert_eq!(e.filename, "sodium-0.5.3.jar");
    assert_eq!(e.loader, "unknown");
    assert_eq!(e.game_version, "1.20.1");
    assert_eq!(e.dependencies.len(), 1);
}
