//! Modrinth: the records the API returns, the request URLs the launcher
//! builds, and the choices it makes when installing a mod.
use vstd::prelude::*;
use crate::text::{
    bool_chars, bool_text, extend_chars, extend_str, i32_decimal, join_chars, join_with,
    json_array_spec, quoted, signed_decimal, string_from_chars, chars_of,
};

verus! {

// ------------------------------------------------------------------
// Records
// ------------------------------------------------------------------

/// Response of `GET /v2/search`.
pub struct SearchResult {
    pub hits: Vec<ModHit>,
    pub offset: i32,
    pub limit: i32,
    pub total_hits: i32,
}

/// One project in search results.
pub struct ModHit {
    pub project_id: String,
    pub title: String,
    pub author: String,
    pub description: String,
    pub categories: Vec<String>,
    pub client_side: String,
    pub server_side: String,
    pub project_type: String,
    pub downloads: i32,
    pub icon_url: String,
    pub versions: Vec<String>,
    pub follows: i32,
    pub date_created: String,
    pub date_modified: String,
}

/// Error body of a rejected request.
pub struct ModrinthError {
    pub error: String,
    pub description: String,
}

/// Parameters of a project search.
pub struct SearchParams {
    pub query: String,
    /// Default 10, at most 100.
    pub limit: Option<i32>,
    pub offset: Option<i32>,
    /// `relevance` when absent.
    pub index: Option<String>,
    /// Groups joined by AND; the facets of one group joined by OR.
    pub facets: Option<Vec<Vec<String>>>,
}

/// Parameters for listing a project's versions.
pub struct ListVersionsParams {
    pub id_or_slug: String,
    pub loaders: Option<Vec<String>>,
    pub game_versions: Option<Vec<String>>,
    pub featured: Option<bool>,
    pub include_changelog: Option<bool>,
}

/// File hashes, hex encoded.
pub struct Hashes {
    pub sha1: String,
    pub sha512: String,
}

/// A dependency declared by a version.
pub struct ModDependency {
    pub project_id: Option<String>,
    pub version_id: Option<String>,
    pub file_name: Option<String>,
    pub dependency_type: String,
}

/// A version of a project.
pub struct Version {
    pub name: String,
    pub version_number: String,
    pub changelog: Option<String>,
    pub dependencies: Vec<ModDependency>,
    pub game_versions: Vec<String>,
    pub version_type: String,
    pub loaders: Vec<String>,
    pub featured: bool,
    pub status: String,
    pub requested_status: Option<String>,
    pub id: String,
    pub project_id: String,
    pub author_id: String,
    pub date_published: String,
    pub downloads: i32,
    pub changelog_url: Option<String>,
    pub files: Vec<VersionFile>,
}

/// A downloadable file of a version.
pub struct VersionFile {
    pub id: String,
    pub hashes: Hashes,
    pub url: String,
    pub filename: String,
    pub primary: bool,
    pub size: i32,
    pub file_type: Option<String>,
    pub signature: Option<String>,
}

/// A mod installed into an instance.
pub struct ModEntry {
    pub name: String,
    pub project_id: String,
    pub version_number: String,
    pub version_type: String,
    pub filename: String,
    pub loader: String,
    pub game_version: String,
    pub installed_at: String,
    pub dependencies: Vec<DepEntry>,
}

/// A dependency recorded with an installed mod.
pub struct DepEntry {
    pub name: Option<String>,
    pub project_id: Option<String>,
    pub version_id: Option<String>,
    pub dependency_type: String,
}

/// The mods installed into one instance.
pub struct ModManifest {
    pub mods: Vec<ModEntry>,
}

/// A project: its metadata, links and gallery.
pub struct Project {
    pub slug: String,
    pub title: String,
    pub description: String,
    pub categories: Vec<String>,
    pub client_side: String,
    pub server_side: String,
    pub body: String,
    pub status: String,
    pub requested_status: Option<String>,
    pub additional_categories: Vec<String>,
    pub issues_url: Option<String>,
    pub source_url: Option<String>,
    pub wiki_url: Option<String>,
    pub discord_url: Option<String>,
    pub donation_urls: Vec<DonationUrl>,
    pub project_type: String,
    pub downloads: i32,
    pub icon_url: Option<String>,
    pub color: Option<i32>,
    pub thread_id: String,
    pub monetization_status: String,
    pub id: String,
    pub team: String,
    pub body_url: Option<String>,
    pub moderator_message: Option<String>,
    pub published: String,
    pub updated: String,
    pub approved: Option<String>,
    pub queued: Option<String>,
    pub followers: i32,
    pub license: Option<License>,
    pub versions: Vec<String>,
    pub game_versions: Vec<String>,
    pub loaders: Vec<String>,
    pub gallery: Vec<GalleryImage>,
}

/// The license of a project.
pub struct License {
    pub id: String,
    pub name: String,
    pub url: Option<String>,
}

/// A donation link of a project.
pub struct DonationUrl {
    pub platform: String,
    pub url: String,
}

/// An image of a project's gallery.
pub struct GalleryImage {
    pub url: String,
    pub featured: bool,
    pub title: Option<String>,
    pub description: Option<String>,
    pub created: String,
    pub ordering: i32,
}

/// The projects and versions a project depends on.
pub struct ProjectDependencies {
    pub projects: Vec<Project>,
    pub versions: Vec<Version>,
}

/// A version as the older search client reads it: its files only.
pub struct ModVersion {
    pub files: Vec<ModFile>,
}

/// A file of a version as the older search client reads it.
pub struct ModFile {
    pub url: String,
    pub filename: String,
}

/// Search parameters for a query with a result limit and nothing else
/// set.
pub fn params(query: &str, limit: i32) -> (r: SearchParams)
    ensures
        r.query@ == query@,
        r.limit == Some(limit),
        r.offset is None,
        r.index is None,
        r.facets is None,
{
    SearchParams { query: String::from_str(query), limit: Some(limit), offset: None, index: None, facets: None }
}

// ------------------------------------------------------------------
// Query encoding
// ------------------------------------------------------------------

/// How one character of a JSON query value is written in a URL.
pub open spec fn url_encode_char(c: char) -> Seq<char> {
    if c == '%' {
        seq!['%', '2', '5']
    } else if c == '[' {
        seq!['%', '5', 'B']
    } else if c == ']' {
        seq!['%', '5', 'D']
    } else if c == '"' {
        seq!['%', '2', '2']
    } else {
        seq![c]
    }
}

/// Every character of `s` encoded by `url_encode_char`.
pub open spec fn url_encode_spec(s: Seq<char>) -> Seq<char>
    decreases s.len(),
{
    if s.len() == 0 {
        Seq::empty()
    } else {
        url_encode_spec(s.drop_last()) + url_encode_char(s.last())
    }
}

/// URL-encodes a JSON text for a query parameter: `%`, `[`, `]` and `"`
/// become `%25`, `%5B`, `%5D` and `%22`; other characters stay.
pub fn url_encode_json(json: &str) -> (r: String)
    ensures
        r@ == url_encode_spec(json@),
{
    let s = chars_of(json);
    let mut r: Vec<char> = Vec::new();
    let mut i: usize = 0;
    while i < s.len()
        invariant
            i <= s.len(),
            s@ == json@,
            r@ == url_encode_spec(s@.take(i as int)),
        decreases s.len() - i,
    {
        let c = s[i];
        if c == '%' {
            r.push('%');
            r.push('2');
            r.push('5');
        } else if c == '[' {
            r.push('%');
            r.push('5');
            r.push('B');
        } else if c == ']' {
            r.push('%');
            r.push('5');
            r.push('D');
        } else if c == '"' {
            r.push('%');
            r.push('2');
            r.push('2');
        } else {
            r.push(c);
        }
        assert(s@.take(i + 1).drop_last() =~= s@.take(i as int));
        assert(r@ =~= url_encode_spec(s@.take(i + 1)));
        i += 1;
    }
    assert(s@.take(s.len() as int) =~= s@);
    string_from_chars(r.as_slice())
}

/// The encoding leaves no `[`, `]` or `"` in the text.
pub proof fn law_url_encoding_removes_json_delimiters(s: Seq<char>)
    ensures
        forall|i: int| 0 <= i < url_encode_spec(s).len() ==> {
            let c = #[trigger] url_encode_spec(s)[i];
            c != '[' && c != ']' && c != '"'
        },
    decreases s.len(),
{
    if s.len() > 0 {
        law_url_encoding_removes_json_delimiters(s.drop_last());
        let a = url_encode_spec(s.drop_last());
        let b = url_encode_char(s.last());
        assert forall|i: int| 0 <= i < (a + b).len() implies {
            let c = #[trigger] (a + b)[i];
            c != '[' && c != ']' && c != '"'
        } by {
            if i < a.len() {
                assert((a + b)[i] == a[i]);
            } else {
                assert((a + b)[i] == b[i - a.len()]);
            }
        }
    }
}

/// The character an escape `%XY` stands for, when it is one of the four
/// the encoding writes.
pub open spec fn url_escape_char(x: char, y: char) -> Option<char> {
    if x == '2' && y == '5' {
        Some('%')
    } else if x == '5' && y == 'B' {
        Some('[')
    } else if x == '5' && y == 'D' {
        Some(']')
    } else if x == '2' && y == '2' {
        Some('"')
    } else {
        None
    }
}

/// Decoding left to right: each of the four escapes becomes its
/// character; every other character stays.
pub open spec fn url_decode_spec(r: Seq<char>) -> Seq<char>
    decreases r.len(),
{
    if r.len() == 0 {
        Seq::empty()
    } else if r.len() >= 3 && r[0] == '%' && url_escape_char(r[1], r[2]) is Some {
        seq![url_escape_char(r[1], r[2])->0] + url_decode_spec(r.skip(3))
    } else {
        seq![r[0]] + url_decode_spec(r.drop_first())
    }
}

/// A character the encoding rewrites.
pub open spec fn url_special(c: char) -> bool {
    c == '%' || c == '[' || c == ']' || c == '"'
}

proof fn lemma_url_encode_concat(a: Seq<char>, b: Seq<char>)
    ensures
        url_encode_spec(a + b) == url_encode_spec(a) + url_encode_spec(b),
    decreases b.len(),
{
    if b.len() == 0 {
        assert(a + b =~= a);
        assert(url_encode_spec(a) + url_encode_spec(b) =~= url_encode_spec(a));
    } else {
        lemma_url_encode_concat(a, b.drop_last());
        assert((a + b).drop_last() =~= a + b.drop_last());
        assert((a + b).last() == b.last());
        assert(url_encode_spec(a) + url_encode_spec(b.drop_last()) + url_encode_char(b.last()) =~= url_encode_spec(a) + (url_encode_spec(b.drop_last()) + url_encode_char(b.last())));
    }
}

proof fn lemma_url_decode_one(c: char, rest: Seq<char>)
    ensures
        url_decode_spec(url_encode_char(c) + rest) == seq![c] + url_decode_spec(rest),
{
    let e = url_encode_char(c) + rest;
    if url_special(c) {
        assert(e.skip(3) =~= rest);
    } else {
        assert(e.drop_first() =~= rest);
    }
}

proof fn lemma_url_encode_single(c: char)
    ensures
        url_encode_spec(seq![c]) == url_encode_char(c),
{
    assert(seq![c].drop_last() =~= Seq::<char>::empty());
    assert(seq![c].last() == c);
    assert(url_encode_spec(Seq::<char>::empty()) == Seq::<char>::empty());
    assert(url_encode_spec(seq![c]) == url_encode_spec(seq![c].drop_last()) + url_encode_char(c));
    assert(Seq::<char>::empty() + url_encode_char(c) =~= url_encode_char(c));
}

proof fn lemma_url_round_trip(s: Seq<char>)
    ensures
        url_decode_spec(url_encode_spec(s)) == s,
    decreases s.len(),
{
    if s.len() > 0 {
        let c = s[0];
        let t = s.drop_first();
        assert(s =~= seq![c] + t);
        lemma_url_encode_concat(seq![c], t);
        lemma_url_encode_single(c);
        lemma_url_decode_one(c, url_encode_spec(t));
        lemma_url_round_trip(t);
    }
}

/// Every `%` of `r` begins one of the four escapes.
pub open spec fn percents_escape(r: Seq<char>) -> bool {
    forall|i: int| 0 <= i < r.len() && #[trigger] r[i] == '%' ==> i + 2 < r.len() && url_escape_char(r[i + 1], r[i + 2]) is Some
}

proof fn lemma_url_percents(s: Seq<char>)
    ensures
        percents_escape(url_encode_spec(s)),
    decreases s.len(),
{
    if s.len() > 0 {
        lemma_url_percents(s.drop_last());
        let a = url_encode_spec(s.drop_last());
        let b = url_encode_char(s.last());
        let r = a + b;
        assert(url_encode_spec(s) == r);
        assert forall|i: int| 0 <= i < r.len() && #[trigger] r[i] == '%' implies i + 2 < r.len() && url_escape_char(r[i + 1], r[i + 2]) is Some by {
            if i < a.len() {
                assert(a[i] == '%');
                assert(r[i + 1] == a[i + 1] && r[i + 2] == a[i + 2]);
            } else {
                assert(b[i - a.len()] == '%');
                assert(r[i + 1] == b[i - a.len() + 1] && r[i + 2] == b[i - a.len() + 2]);
            }
        }
    }
}

proof fn lemma_url_plain(s: Seq<char>)
    requires
        forall|i: int| 0 <= i < s.len() ==> !url_special(#[trigger] s[i]),
    ensures
        url_encode_spec(s) == s,
    decreases s.len(),
{
    if s.len() > 0 {
        lemma_url_plain(s.drop_last());
        assert(!url_special(s[s.len() - 1]));
        assert(s.drop_last().push(s.last()) =~= s);
        assert(url_encode_spec(s.drop_last()) + seq![s.last()] =~= s);
    }
}

/// The encoding of a JSON query value can be undone: decoding it left to
/// right gives the text back, every `%` in it begins one of the four
/// escapes, and a text without `%`, `[`, `]` or `"` is left as it is.
pub proof fn law_url_encoding_round_trip(s: Seq<char>)
    ensures
        url_decode_spec(url_encode_spec(s)) == s,
        percents_escape(url_encode_spec(s)),
        (forall|i: int| 0 <= i < s.len() ==> !url_special(#[trigger] s[i])) ==> url_encode_spec(s) == s,
{
    lemma_url_round_trip(s);
    lemma_url_percents(s);
    if forall|i: int| 0 <= i < s.len() ==> !url_special(#[trigger] s[i]) {
        lemma_url_plain(s);
    }
}

pub open spec fn strings_view(v: Seq<String>) -> Seq<Seq<char>> {
    v.map_values(|s: String| s@)
}

/// Formats strings as a JSON array of strings: `["a","b"]`. The items are
/// written as they are, without escaping.
pub fn json_array(items: &[String]) -> (r: String)
    ensures
        r@ == json_array_spec(strings_view(items@)),
{
    let mut pieces: Vec<Vec<char>> = Vec::new();
    let mut i: usize = 0;
    while i < items.len()
        invariant
            i <= items.len(),
            pieces@.map_values(|p: Vec<char>| p@) == strings_view(items@).take(i as int).map_values(
                |s: Seq<char>| quoted(s),
            ),
        decreases items.len() - i,
    {
        let mut q: Vec<char> = Vec::new();
        q.push('"');
        extend_str(&mut q, items[i].as_str());
        q.push('"');
        assert(q@ =~= quoted(items@[i as int]@));
        let ghost prev = pieces@;
        pieces.push(q);
        assert(pieces@ == prev.push(q));
        assert(strings_view(items@)[i as int] == items@[i as int]@);
        assert(strings_view(items@).take(i + 1) =~= strings_view(items@).take(i as int).push(items@[i as int]@));
        assert(pieces@.map_values(|p: Vec<char>| p@) =~= prev.map_values(|p: Vec<char>| p@).push(q@));
        assert(strings_view(items@).take(i + 1).map_values(|s: Seq<char>| quoted(s)) =~= strings_view(items@).take(i as int).map_values(|s: Seq<char>| quoted(s)).push(quoted(items@[i as int]@)));
        assert(pieces@.map_values(|p: Vec<char>| p@) =~= strings_view(items@).take(i + 1).map_values(
            |s: Seq<char>| quoted(s),
        ));
        i += 1;
    }
    assert(strings_view(items@).take(items.len() as int) =~= strings_view(items@));
    let mut comma: Vec<char> = Vec::new();
    comma.push(',');
    let inner = join_chars(&pieces, comma.as_slice());
    let mut r: Vec<char> = Vec::new();
    r.push('[');
    extend_chars(&mut r, inner.as_slice());
    r.push(']');
    assert(comma@ =~= seq![',']);
    assert(r@ =~= json_array_spec(strings_view(items@)));
    string_from_chars(r.as_slice())
}

pub open spec fn facets_view(f: Seq<Vec<String>>) -> Seq<Seq<Seq<char>>> {
    f.map_values(|g: Vec<String>| strings_view(g@))
}

/// The JSON array of facet groups, each group a JSON array of strings.
pub open spec fn facets_json_spec(groups: Seq<Seq<Seq<char>>>) -> Seq<char> {
    seq!['['] + join_with(groups.map_values(|g: Seq<Seq<char>>| json_array_spec(g)), seq![','])
        + seq![']']
}

pub fn facets_json(facets: &Vec<Vec<String>>) -> (r: String)
    ensures
        r@ == facets_json_spec(facets_view(facets@)),
{
    let mut pieces: Vec<Vec<char>> = Vec::new();
    let mut i: usize = 0;
    while i < facets.len()
        invariant
            i <= facets.len(),
            pieces@.map_values(|p: Vec<char>| p@) == facets_view(facets@).take(i as int).map_values(
                |g: Seq<Seq<char>>| json_array_spec(g),
            ),
        decreases facets.len() - i,
    {
        let g = json_array(facets[i].as_slice());
        let gc = chars_of(g.as_str());
        let ghost prev = pieces@;
        pieces.push(gc);
        assert(pieces@ == prev.push(gc));
        assert(facets_view(facets@)[i as int] == strings_view(facets@[i as int]@));
        assert(facets_view(facets@).take(i + 1) =~= facets_view(facets@).take(i as int).push(strings_view(facets@[i as int]@)));
        assert(pieces@.map_values(|p: Vec<char>| p@) =~= prev.map_values(|p: Vec<char>| p@).push(gc@));
        assert(facets_view(facets@).take(i + 1).map_values(|g: Seq<Seq<char>>| json_array_spec(g)) =~= facets_view(facets@).take(i as int).map_values(|g: Seq<Seq<char>>| json_array_spec(g)).push(json_array_spec(strings_view(facets@[i as int]@))));
        assert(pieces@.map_values(|p: Vec<char>| p@) =~= facets_view(facets@).take(i + 1).map_values(
            |g: Seq<Seq<char>>| json_array_spec(g),
        ));
        i += 1;
    }
    assert(facets_view(facets@).take(facets.len() as int) =~= facets_view(facets@));
    let mut comma: Vec<char> = Vec::new();
    comma.push(',');
    let inner = join_chars(&pieces, comma.as_slice());
    let mut r: Vec<char> = Vec::new();
    r.push('[');
    extend_chars(&mut r, inner.as_slice());
    r.push(']');
    assert(comma@ =~= seq![',']);
    assert(r@ =~= facets_json_spec(facets_view(facets@)));
    string_from_chars(r.as_slice())
}

// ------------------------------------------------------------------
// Request URLs
// ------------------------------------------------------------------

/// The page size a search asks for: 10 by default, never above 100.
pub open spec fn effective_limit(limit: Option<i32>) -> i32 {
    let l = match limit {
        Some(l) => l,
        None => 10,
    };
    if l < 100 { l } else { 100 }
}

pub open spec fn search_url_spec(p: SearchParams) -> Seq<char> {
    let index = match p.index {
        Some(i) => i@,
        None => "relevance"@,
    };
    let offset: i32 = match p.offset {
        Some(o) => o,
        None => 0,
    };
    let base = "https://api.modrinth.com/v2/search?query="@ + p.query@ + "&limit="@
        + signed_decimal(effective_limit(p.limit) as int) + "&index="@ + index + "&offset="@
        + signed_decimal(offset as int);
    match p.facets {
        Some(f) => base + "&facets="@ + url_encode_spec(facets_json_spec(facets_view(f@))),
        None => base,
    }
}

/// The search request URL. The query text is inserted as given.
pub fn search_url(params: &SearchParams) -> (r: String)
    ensures
        r@ == search_url_spec(*params),
{
    let limit: i32 = match params.limit {
        Some(l) => l,
        None => 10,
    };
    let limit: i32 = if limit < 100 { limit } else { 100 };
    let offset: i32 = match params.offset {
        Some(o) => o,
        None => 0,
    };
    let mut r: Vec<char> = Vec::new();
    extend_str(&mut r, "https://api.modrinth.com/v2/search?query=");
    extend_str(&mut r, params.query.as_str());
    extend_str(&mut r, "&limit=");
    let ld = i32_decimal(limit);
    extend_chars(&mut r, ld.as_slice());
    extend_str(&mut r, "&index=");
    match &params.index {
        Some(i) => extend_str(&mut r, i.as_str()),
        None => extend_str(&mut r, "relevance"),
    }
    extend_str(&mut r, "&offset=");
    let od = i32_decimal(offset);
    extend_chars(&mut r, od.as_slice());
    match &params.facets {
        Some(f) => {
            let json = facets_json(f);
            let enc = url_encode_json(json.as_str());
            extend_str(&mut r, "&facets=");
            extend_str(&mut r, enc.as_str());
        },
        None => {},
    }
    string_from_chars(r.as_slice())
}

pub open spec fn opt_piece(b: bool, piece: Seq<char>) -> Seq<Seq<char>> {
    if b { seq![piece] } else { Seq::empty() }
}

pub open spec fn version_query_pieces(p: ListVersionsParams) -> Seq<Seq<char>> {
    opt_piece(p.loaders is Some, "loaders="@ + json_array_spec(strings_view(p.loaders->0@)))
        + opt_piece(
        p.game_versions is Some,
        "game_versions="@ + json_array_spec(strings_view(p.game_versions->0@)),
    ) + opt_piece(p.featured is Some, "featured="@ + bool_text(p.featured->0)) + opt_piece(
        p.include_changelog is Some,
        "include_changelog="@ + bool_text(p.include_changelog->0),
    )
}

pub open spec fn versions_url_spec(p: ListVersionsParams) -> Seq<char> {
    let base = "https://api.modrinth.com/v2/project/"@ + p.id_or_slug@ + "/version"@;
    let q = version_query_pieces(p);
    if q.len() == 0 {
        base
    } else {
        base + seq!['?'] + join_with(q, seq!['&'])
    }
}

/// The URL listing a project's versions, with the given filters.
pub fn versions_url(params: &ListVersionsParams) -> (r: String)
    ensures
        r@ == versions_url_spec(*params),
{
    let mut pieces: Vec<Vec<char>> = Vec::new();
    let ghost p0 = pieces@.map_values(|p: Vec<char>| p@);
    if let Some(loaders) = &params.loaders {
        let mut q: Vec<char> = Vec::new();
        extend_str(&mut q, "loaders=");
        let j = json_array(loaders.as_slice());
        extend_str(&mut q, j.as_str());
        pieces.push(q);
    }
    let ghost p1 = pieces@.map_values(|p: Vec<char>| p@);
    assert(p1 =~= opt_piece(params.loaders is Some, "loaders="@ + json_array_spec(strings_view(params.loaders->0@))));
    if let Some(game_versions) = &params.game_versions {
        let mut q: Vec<char> = Vec::new();
        extend_str(&mut q, "game_versions=");
        let j = json_array(game_versions.as_slice());
        extend_str(&mut q, j.as_str());
        pieces.push(q);
    }
    let ghost p2 = pieces@.map_values(|p: Vec<char>| p@);
    assert(p2 =~= p1 + opt_piece(params.game_versions is Some, "game_versions="@ + json_array_spec(strings_view(params.game_versions->0@))));
    if let Some(featured) = params.featured {
        let mut q: Vec<char> = Vec::new();
        extend_str(&mut q, "featured=");
        let b = bool_chars(featured);
        extend_chars(&mut q, b.as_slice());
        pieces.push(q);
    }
    let ghost p3 = pieces@.map_values(|p: Vec<char>| p@);
    assert(p3 =~= p2 + opt_piece(params.featured is Some, "featured="@ + bool_text(params.featured->0)));
    if let Some(include_changelog) = params.include_changelog {
        let mut q: Vec<char> = Vec::new();
        extend_str(&mut q, "include_changelog=");
        let b = bool_chars(include_changelog);
        extend_chars(&mut q, b.as_slice());
        pieces.push(q);
    }
    let ghost p4 = pieces@.map_values(|p: Vec<char>| p@);
    assert(p4 =~= p3 + opt_piece(params.include_changelog is Some, "include_changelog="@ + bool_text(params.include_changelog->0)));
    assert(p4 =~= version_query_pieces(*params));
    let mut r: Vec<char> = Vec::new();
    extend_str(&mut r, "https://api.modrinth.com/v2/project/");
    extend_str(&mut r, params.id_or_slug.as_str());
    extend_str(&mut r, "/version");
    if pieces.len() > 0 {
        r.push('?');
        let mut amp: Vec<char> = Vec::new();
        amp.push('&');
        assert(amp@ =~= seq!['&']);
        let joined = join_chars(&pieces, amp.as_slice());
        extend_chars(&mut r, joined.as_slice());
    }
    string_from_chars(r.as_slice())
}

/// The URL of one project, by ID or slug.
pub fn project_url(id_or_slug: &str) -> (r: String)
    ensures
        r@ == "https://api.modrinth.com/v2/project/"@ + id_or_slug@,
{
    let mut r: Vec<char> = Vec::new();
    extend_str(&mut r, "https://api.modrinth.com/v2/project/");
    extend_str(&mut r, id_or_slug);
    string_from_chars(r.as_slice())
}

/// The URL of a project's dependencies.
pub fn project_dependencies_url(id_or_slug: &str) -> (r: String)
    ensures
        r@ == "https://api.modrinth.com/v2/project/"@ + id_or_slug@ + "/dependencies"@,
{
    let mut r: Vec<char> = Vec::new();
    extend_str(&mut r, "https://api.modrinth.com/v2/project/");
    extend_str(&mut r, id_or_slug);
    extend_str(&mut r, "/dependencies");
    string_from_chars(r.as_slice())
}

/// The URL of one version, by ID.
pub fn version_url(id: &str) -> (r: String)
    ensures
        r@ == "https://api.modrinth.com/v2/version/"@ + id@,
{
    let mut r: Vec<char> = Vec::new();
    extend_str(&mut r, "https://api.modrinth.com/v2/version/");
    extend_str(&mut r, id);
    string_from_chars(r.as_slice())
}

/// The three-result search URL of the single-crate layout.
pub fn legacy_search_url(query: &str) -> (r: String)
    ensures
        r@ == "https://api.modrinth.com/v2/search?query="@ + query@ + "&limit=3"@,
{
    let mut r: Vec<char> = Vec::new();
    extend_str(&mut r, "https://api.modrinth.com/v2/search?query=");
    extend_str(&mut r, query);
    extend_str(&mut r, "&limit=3");
    string_from_chars(r.as_slice())
}

/// A search never asks for more than 100 results.
pub proof fn law_search_limit_capped(limit: Option<i32>)
    ensures
        effective_limit(limit) <= 100,
        limit is None ==> effective_limit(limit) == 10,
        forall|l: i32| limit == Some(l) && l <= 100 ==> effective_limit(limit) == l,
{
}

} // verus!
