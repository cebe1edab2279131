use nexus_launcher::listing::{instance_names, mod_file_names, sort_texts, text_less};
use nexus_launcher::loader::EntryInfo;

fn e(name: &str, is_file: bool, is_dir: bool) -> EntryInfo {
    EntryInfo { name: name.to_string(), is_file, is_dir }
}

#[test]
fn text_order_is_string_order() {
    let pairs = [("a", "b"), ("ab", "abc"), ("", "a"), ("Z", "a"), ("1.20", "1.20.1"), ("é", "z"), ("z", "é")];
    for (a, b) in pairs {
        assert_eq!(text_less(a, b), a < b, "{} < {}", a, b);
        assert_eq!(text_less(b, a), b < a, "{} < {}", b, a);
    }
    assert!(!text_less("same", "same"));
}

#[test]
fn sorting_names() {
    let names: Vec<String> = ["1.20.1", "1.19", "fabric", "1.20", "Alpha", "1.20"].iter().map(|s| s.to_string()).collect();
    let mut expected = names.clone();
    expected.sort();
    assert_eq!(sort_texts(&names), expected);
    assert!(sort_texts(&vec![]).is_empty());
}

#[test]
fn instance_and_mod_listings() {
    let entries = vec![
        e("zeta", false, true),
        e("notes.txt", true, false),
        e("1.20.1", false, true),
        e("link", false, false),
    ];
    assert_eq!(instance_names(&entries), vec!["1.20.1", "zeta"]);
    let mods = vec![
        e("sodium.jar", true, false),
        e("nexus_mods.toml", true, false),
        e("config", false, true),
        e("fabric-api.jar", true, false),
    ];
    assert_eq!(mod_file_names(&mods), vec!["fabric-api.jar", "sodium.jar"]);
}
