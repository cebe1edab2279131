use nexus_launcher::digest::{check_download, digest_matches, needs_download, sha1_hex, sha1_matches};

const ABC_SHA1: &str = "a9993e364706816aba3e25717850c26c9cd0d89d";

#[test]
fn sha1_of_known_inputs() {
    assert_eq!(sha1_hex(b"abc"), ABC_SHA1);
    assert_eq!(sha1_hex(b""), "da39a3ee5e6b4b0d3255bfef95601890afd80709");
}

#[test]
fn digests_compare_as_lowercase_hex() {
    assert!(digest_matches(&[0x00, 0xff, 0x1a], "00ff1a"));
    assert!(!digest_matches(&[0x00, 0xff, 0x1a], "00FF1A"));
    assert!(!digest_matches(&[0x00], "0"));
    assert!(sha1_matches(b"abc", ABC_SHA1));
    assert!(!sha1_matches(b"abd", ABC_SHA1));
}

#[test]
fn download_checks() {
    assert_eq!(check_download(b"abc", ABC_SHA1), Ok(()));
    assert_eq!(check_download(b"abc", "00"), Err("SHA1 verification failed".to_string()));
    assert!(needs_download(None, ABC_SHA1));
    assert!(!needs_download(Some(&b"abc"[..]), ABC_SHA1));
    assert!(needs_download(Some(&b"abcd"[..]), ABC_SHA1));
}
