//! Java runtime detection: reading the version that `java -version` reports.
use vstd::prelude::*;
use crate::loader::EntryInfo;
use crate::text::{chars_of, has_substring, lowercase_of, parse_u32, parse_u32_spec, split_by, split_on, str_eq, to_lowercase};

verus! {

/// A Java runtime found on this machine.
#[derive(Debug)]
pub struct JavaInfo {
    pub path: String,
    pub major_version: u32,
    pub full_version: String,
}

/// The major version of a Java version string: `1.8.0_382` gives 8 (the
/// legacy `1.x` scheme), `17.0.8` gives 17. The string is split at `.` and
/// `_`; the first piece, or the second one after a leading `1`, must parse
/// as a `u32`.
pub open spec fn parse_major_version_spec(v: Seq<char>) -> Option<u32> {
    let parts = split_by(v, seq!['.', '_']);
    if parts[0] == seq!['1'] && parts.len() > 1 {
        parse_u32_spec(parts[1])
    } else {
        parse_u32_spec(parts[0])
    }
}

/// Extracts the major version from a Java version string.
pub fn parse_major_version(version_str: &str) -> (r: Option<u32>)
    ensures
        r == parse_major_version_spec(version_str@),
{
    let vc = chars_of(version_str);
    let mut seps: Vec<char> = Vec::new();
    seps.push('.');
    seps.push('_');
    assert(seps@ =~= seq!['.', '_']);
    let parts = split_on(vc.as_slice(), seps.as_slice());
    let ghost pv = parts@.map_values(|p: Vec<char>| p@);
    proof {
        crate::text::lemma_split_acc_nonempty(version_str@, seps@, Seq::empty());
    }
    assert(parts.len() >= 1);
    assert(pv[0] == parts@[0]@);
    let first_is_one = parts[0].len() == 1 && parts[0][0] == '1';
    assert(first_is_one == (pv[0] == seq!['1'])) by {
        if pv[0].len() == 1 && pv[0][0] == '1' {
            assert(pv[0] =~= seq!['1']);
        }
    }
    if first_is_one && parts.len() > 1 {
        assert(pv[1] == parts@[1]@);
        parse_u32(parts[1].as_slice())
    } else {
        parse_u32(parts[0].as_slice())
    }
}

/// What the first match of a regular expression captures: the text of
/// capture group `group` in the leftmost match of `pattern` in `text`, or
/// `None` when the pattern does not compile, nothing matches, or the group
/// took no part in the match.
pub uninterp spec fn regex_capture_of(pattern: Seq<char>, text: Seq<char>, group: nat) -> Option<
    Seq<char>,
>;

/// `regex::Regex::new`, `Regex::captures` and `Captures::get` on the first
/// match. The result is named `regex_capture_of`; as the crate documents,
/// a captured group is a run of the searched text.
#[verifier::external_body]
fn regex_capture(pattern: &str, text: &str, group: usize) -> (r: Option<String>)
    ensures
        match r {
            Some(g) => regex_capture_of(pattern@, text@, group as nat) == Some(g@) && has_substring(
                text@,
                g@,
            ),
            None => regex_capture_of(pattern@, text@, group as nat) is None,
        },
{
    let re = match regex::Regex::new(pattern) {
        Ok(re) => re,
        Err(_) => return None,
    };
    let caps = match re.captures(text) {
        Some(c) => c,
        None => return None,
    };
    match caps.get(group) {
        Some(m) => Some(m.as_str().to_string()),
        None => None,
    }
}

/// The pattern of the version line `java -version` prints, such as
/// `openjdk version "17.0.8" 2023-07-18`.
pub open spec fn java_version_pattern() -> Seq<char> {
    "version \"([^\"]+)\""@
}

/// The quoted version that `java -version` reports on its error stream.
pub open spec fn reported_java_version(stderr: Seq<char>) -> Option<Seq<char>> {
    regex_capture_of(java_version_pattern(), stderr, 1)
}

/// Builds the runtime description from a reported version string.
pub fn java_info_from_version(path: String, full_version: String) -> (r: Option<JavaInfo>)
    ensures
        match parse_major_version_spec(full_version@) {
            Some(m) => r matches Some(info) && info.path == path && info.major_version == m
                && info.full_version == full_version,
            None => r is None,
        },
{
    match parse_major_version(full_version.as_str()) {
        Some(major_version) => Some(JavaInfo { path, major_version, full_version }),
        None => None,
    }
}

/// Reads the Java version from the error stream of `java -version`.
pub fn java_info_from_output(path: String, stderr: &str) -> (r: Option<JavaInfo>)
    ensures
        match reported_java_version(stderr@) {
            Some(v) => match parse_major_version_spec(v) {
                Some(m) => r matches Some(info) && info.path == path && info.major_version == m
                    && info.full_version@ == v,
                None => r is None,
            },
            None => r is None,
        },
{
    match regex_capture("version \"([^\"]+)\"", stderr, 1) {
        Some(v) => java_info_from_version(path, v),
        None => None,
    }
}

/// The first runtime of the wanted major version, in scanning order.
pub fn find_java(found: &Vec<JavaInfo>, major: u32) -> (r: Option<usize>)
    ensures
        match r {
            Some(i) => i < found.len() && found@[i as int].major_version == major && forall|
                j: int,
            | 0 <= j < i ==> found@[j].major_version != major,
            None => forall|j: int| 0 <= j < found.len() ==> found@[j].major_version != major,
        },
{
    let mut i: usize = 0;
    while i < found.len()
        invariant
            i <= found.len(),
            forall|j: int| 0 <= j < i ==> found@[j].major_version != major,
        decreases found.len() - i,
    {
        if found[i].major_version == major {
            return Some(i);
        }
        i += 1;
    }
    None
}

/// A cached runtime is still usable when running it reports the same major
/// version it was cached under.
pub fn cached_java_still_valid(major: u32, detected: &Option<JavaInfo>) -> (r: bool)
    ensures
        r == (detected matches Some(info) && info.major_version == major),
{
    match detected {
        Some(info) => info.major_version == major,
        None => false,
    }
}

/// The name of the Java executable: `java.exe` on Windows, else `java`.
pub open spec fn java_binary_name(windows: bool) -> Seq<char> {
    if windows { "java.exe"@ } else { "java"@ }
}

/// An entry is the Java executable when it is a file whose lowercased
/// name is the executable's name.
pub open spec fn is_java_binary(e: EntryInfo, windows: bool) -> bool {
    e.is_file && lowercase_of(e.name@) == java_binary_name(windows)
}

/// The Java executable inside a freshly unpacked runtime: the first
/// matching entry of the directory walk.
pub fn find_java_binary(entries: &Vec<EntryInfo>, windows: bool) -> (r: Option<usize>)
    ensures
        match r {
            Some(i) => i < entries.len() && is_java_binary(entries@[i as int], windows) && forall|j: int|
                0 <= j < i ==> !is_java_binary(#[trigger] entries@[j], windows),
            None => forall|j: int| 0 <= j < entries.len() ==> !is_java_binary(#[trigger] entries@[j], windows),
        },
{
    let mut i: usize = 0;
    while i < entries.len()
        invariant
            i <= entries.len(),
            forall|j: int| 0 <= j < i ==> !is_java_binary(#[trigger] entries@[j], windows),
        decreases entries.len() - i,
    {
        if entries[i].is_file {
            let lower = to_lowercase(entries[i].name.as_str());
            let want = if windows { "java.exe" } else { "java" };
            if str_eq(lower.as_str(), want) {
                return Some(i);
            }
        }
        i += 1;
    }
    None
}

} // verus!
