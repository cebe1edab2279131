use nexus_launcher::modrinth::{
    facets_json, json_array, legacy_search_url, params, project_dependencies_url, project_url,
    search_url, url_encode_json, version_url, versions_url, ListVersionsParams, SearchParams,
};

#[test]
fn test_url_encode_json_brackets_and_quotes() {
    let input = r#"[["categories:fabric"],["versions:1.17.1"]]"#;
    let encoded = url_encode_json(input);
    assert!(!encoded.contains('['));
    assert!(!encoded.contains(']'));
    assert!(!encoded.contains('"'));
    assert!(encoded.contains("%5B"));
    assert!(encoded.contains("%5D"));
    assert!(encoded.contains("%22"));
}

#[test]
fn test_url_encode_json_percent() {
    assert_eq!(url_encode_json("%"), "%25");
    assert_eq!(url_encode_json("%5B"), "%255B");
}

#[test]
fn test_url_encode_json_no_special_chars() {
    assert_eq!(url_encode_json("hello"), "hello");
}

#[test]
fn url_encode_json_exact() {
    assert_eq!(url_encode_json(r#"[["a"]]"#), "%5B%5B%22a%22%5D%5D");
}

#[test]
fn test_json_array_single() {
    assert_eq!(json_array(&["fabric".to_string()]), "[\"fabric\"]");
}

#[test]
fn test_json_array_multiple() {
    assert_eq!(
        json_array(&["fabric".to_string(), "forge".to_string()]),
        "[\"fabric\",\"forge\"]"
    );
}

#[test]
fn test_json_array_empty() {
    assert_eq!(json_array(&[]), "[]");
}

#[test]
fn facets_json_groups() {
    let f = vec![
        vec!["project_type:mod".to_string()],
        vec!["versions:1.20.1".to_string(), "versions:1.20.2".to_string()],
    ];
    assert_eq!(
        facets_json(&f),
        r#"[["project_type:mod"],["versions:1.20.1","versions:1.20.2"]]"#
    );
    assert_eq!(facets_json(&vec![]), "[]");
}

#[test]
fn params_helper_sets_only_query_and_limit() {
    let p = params("fabric-api", 1);
    assert_eq!(p.query, "fabric-api");
    assert_eq!(p.limit, Some(1));
    assert!(p.offset.is_none() && p.index.is_none() && p.facets.is_none());
}

#[test]
fn search_url_defaults() {
    let p = SearchParams { query: "sodium".to_string(), limit: None, offset: None, index: None, facets: None };
    assert_eq!(
        search_url(&p),
        "https://api.modrinth.com/v2/search?query=sodium&limit=10&index=relevance&offset=0"
    );
}

#[test]
fn search_url_limit_is_capped() {
    let p = params("x", 500);
    assert_eq!(
        search_url(&p),
        "https://api.modrinth.com/v2/search?query=x&limit=100&index=relevance&offset=0"
    );
    let p = params("x", -3);
    assert!(search_url(&p).contains("&limit=-3&"));
}

#[test]
fn search_url_with_facets() {
    let p = SearchParams {
        query: "iris".to_string(),
        limit: Some(1),
        offset: Some(20),
        index: Some("downloads".to_string()),
        facets: Some(vec![vec!["versions:1.21".to_string()]]),
    };
    assert_eq!(
        search_url(&p),
        "https://api.modrinth.com/v2/search?query=iris&limit=1&index=downloads&offset=20&facets=%5B%5B%22versions:1.21%22%5D%5D"
    );
}

#[test]
fn versions_url_filters() {
    let p = ListVersionsParams {
        id_or_slug: "AANobbMI".to_string(),
        loaders: Some(vec!["fabric".to_string()]),
        game_versions: Some(vec!["1.20.1".to_string()]),
        featured: None,
        include_changelog: Some(false),
    };
    assert_eq!(
        versions_url(&p),
        "https://api.modrinth.com/v2/project/AANobbMI/version?loaders=[\"fabric\"]&game_versions=[\"1.20.1\"]&include_changelog=false"
    );
    let bare = ListVersionsParams {
        id_or_slug: "sodium".to_string(),
        loaders: None,
        game_versions: None,
        featured: Some(true),
        include_changelog: None,
    };
    assert_eq!(versions_url(&bare), "https://api.modrinth.com/v2/project/sodium/version?featured=true");
    let none = ListVersionsParams {
        id_or_slug: "sodium".to_string(),
        loaders: None,
        game_versions: None,
        featured: None,
        include_changelog: None,
    };
    assert_eq!(versions_url(&none), "https://api.modrinth.com/v2/project/sodium/version");
}

#[test]
fn simple_urls() {
    assert_eq!(project_url("sodium"), "https://api.modrinth.com/v2/project/sodium");
    assert_eq!(
        project_dependencies_url("sodium"),
        "https://api.modrinth.com/v2/project/sodium/dependencies"
    );
    assert_eq!(version_url("abc"), "https://api.modrinth.com/v2/version/abc");
    assert_eq!(legacy_search_url("jei"), "https://api.modrinth.com/v2/search?query=jei&limit=3");
}

fn decode(r: &str) -> String {
    let c: Vec<char> = r.chars().collect();
    let mut out = String::new();
    let mut i = 0;
    while i < c.len() {
        if c[i] == '%' && i + 2 < c.len() {
            let e = match (c[i + 1], c[i + 2]) {
                ('2', '5') => Some('%'),
                ('5', 'B') => Some('['),
                ('5', 'D') => Some(']'),
                ('2', '2') => Some('"'),
                _ => None,
            };
            if let Some(x) = e {
                out.push(x);
                i += 3;
                continue;
            }
        }
        out.push(c[i]);
        i += 1;
    }
    out
}

#[test]
fn url_encoding_round_trip() {
    for s in [r#"[["versions:1.20.1"],["categories:fabric"]]"#, "%5B%", "100% \"sure\"", "plain text", ""] {
        let e = url_encode_json(s);
        assert_eq!(decode(&e), s);
        for (i, ch) in e.char_indices() {
            if ch == '%' {
                let esc = &e[i..i + 3];
                assert!(["%25", "%5B", "%5D", "%22"].contains(&esc));
            }
        }
    }
}
