//! The launcher's workspace layout under `~/.minecraft`, maven coordinates,
//! and instance-name validation.
//!
//! Paths are held as text with `/` as the separator; joining follows the
//! rules of `PathBuf::push` on Unix.
use vstd::prelude::*;
use crate::text::{
    chars_of, contains_char, contains_substring, extend_chars, extend_str, has_substring, is_sep,
    lemma_split_acc_concat, lemma_split_acc_plain, replace_char, replace_char_with, seq_eq,
    split_acc, split_by, split_on, string_from_chars,
};

verus! {

// ------------------------------------------------------------------
// Path model
// ------------------------------------------------------------------

/// `base` joined with `seg` as `PathBuf::push` does it on Unix: an absolute
/// `seg` replaces `base`; otherwise one `/` is put between them unless
/// `base` is empty or already ends in `/`.
pub open spec fn path_join(base: Seq<char>, seg: Seq<char>) -> Seq<char> {
    if seg.len() > 0 && seg[0] == '/' {
        seg
    } else if base.len() == 0 {
        seg
    } else if base.last() == '/' {
        base + seg
    } else {
        base + seq!['/'] + seg
    }
}

pub open spec fn minecraft_dir_spec(home: Seq<char>) -> Seq<char> {
    path_join(home, seq!['.', 'm', 'i', 'n', 'e', 'c', 'r', 'a', 'f', 't'])
}

pub open spec fn libraries_seg() -> Seq<char> {
    seq!['l', 'i', 'b', 'r', 'a', 'r', 'i', 'e', 's']
}

pub open spec fn clients_seg() -> Seq<char> {
    seq!['c', 'l', 'i', 'e', 'n', 't', 's']
}

pub open spec fn servers_seg() -> Seq<char> {
    seq!['s', 'e', 'r', 'v', 'e', 'r', 's']
}

pub open spec fn library_path_spec(mc_dir: Seq<char>, rel: Seq<char>) -> Seq<char> {
    path_join(path_join(mc_dir, libraries_seg()), rel)
}

/// The non-empty pieces of a path other than `.`.
pub open spec fn normal_pieces(p: Seq<char>) -> Seq<Seq<char>> {
    split_by(p, seq!['/']).filter(|q: Seq<char>| q.len() > 0 && q != seq!['.'])
}

/// The components of a path as `Path::components` yields them on Unix: the
/// root `/` if the path is absolute, a leading `.` if a relative path starts
/// with one, then every piece between separators that is neither empty nor `.`.
pub open spec fn components_spec(p: Seq<char>) -> Seq<Seq<char>> {
    let root: Seq<Seq<char>> = if p.len() > 0 && p[0] == '/' { seq![seq!['/']] } else { Seq::empty() };
    let cur: Seq<Seq<char>> = if p.len() > 0 && p[0] == '.' && (p.len() == 1 || p[1] == '/') {
        seq![seq!['.']]
    } else {
        Seq::empty()
    };
    root + cur + normal_pieces(p)
}

pub open spec fn is_prefix_of(a: Seq<Seq<char>>, b: Seq<Seq<char>>) -> bool {
    a.len() <= b.len() && b.subrange(0, a.len() as int) == a
}

/// `Path::starts_with`: the components of `base` begin the components of
/// `target`.
pub open spec fn path_starts_with_spec(target: Seq<char>, base: Seq<char>) -> bool {
    is_prefix_of(components_spec(base), components_spec(target))
}

// ------------------------------------------------------------------
// Home directory
// ------------------------------------------------------------------

/// `home::home_dir`, the path rendered as text (as `to_string_lossy` does:
/// bytes that are not valid Unicode become U+FFFD). The result depends on
/// the environment and the user database; nothing is stated of the value.
#[verifier::external_body]
pub(crate) fn home_dir_text() -> Option<String> {
    match home::home_dir() {
        Some(p) => Some(p.to_string_lossy().into_owned()),
        None => None,
    }
}

// ------------------------------------------------------------------
// Executable path operations
// ------------------------------------------------------------------

/// `base` joined with `seg` (see `path_join`).
pub fn join_path(base: &str, seg: &str) -> (r: String)
    ensures
        r@ == path_join(base@, seg@),
{
    let b = chars_of(base);
    let s = chars_of(seg);
    if s.len() > 0 && s[0] == '/' {
        return string_from_chars(s.as_slice());
    }
    if b.len() == 0 {
        return string_from_chars(s.as_slice());
    }
    let mut r = b.clone();
    if b[b.len() - 1] != '/' {
        r.push('/');
    }
    extend_chars(&mut r, s.as_slice());
    string_from_chars(r.as_slice())
}

/// The launcher's data directory under a given home directory.
pub fn minecraft_dir_in(home: &str) -> (r: String)
    ensures
        r@ == minecraft_dir_spec(home@),
{
    proof {
        reveal_strlit(".minecraft");
    }
    join_path(home, ".minecraft")
}

/// `~/.minecraft`; `None` when the home directory cannot be determined.
pub fn get_minecraft_dir() -> (r: Option<String>)
    ensures
        r matches Some(d) ==> exists|h: Seq<char>| d@ == minecraft_dir_spec(h),
{
    match home_dir_text() {
        Some(h) => Some(minecraft_dir_in(h.as_str())),
        None => None,
    }
}

/// `<mc_dir>/libraries/<relative_path>`.
pub fn library_path_in(mc_dir: &str, relative_path: &str) -> (r: String)
    ensures
        r@ == library_path_spec(mc_dir@, relative_path@),
{
    proof {
        reveal_strlit("libraries");
    }
    let libs = join_path(mc_dir, "libraries");
    join_path(libs.as_str(), relative_path)
}

/// `<mc_dir>/clients`.
pub fn clients_dir_in(mc_dir: &str) -> (r: String)
    ensures
        r@ == path_join(mc_dir@, clients_seg()),
{
    proof {
        reveal_strlit("clients");
    }
    join_path(mc_dir, "clients")
}

/// `<mc_dir>/servers`.
pub fn servers_dir_in(mc_dir: &str) -> (r: String)
    ensures
        r@ == path_join(mc_dir@, servers_seg()),
{
    proof {
        reveal_strlit("servers");
    }
    join_path(mc_dir, "servers")
}

/// The path of a library under `~/.minecraft/libraries`; `None` when the
/// home directory cannot be determined.
pub fn get_library_path(relative_path: &str) -> (r: Option<String>)
    ensures
        r matches Some(p) ==> exists|h: Seq<char>| p@ == library_path_spec(
            minecraft_dir_spec(h),
            relative_path@,
        ),
{
    match home_dir_text() {
        Some(h) => {
            let mc = minecraft_dir_in(h.as_str());
            Some(library_path_in(mc.as_str(), relative_path))
        },
        None => None,
    }
}

/// `~/.minecraft/clients`; `None` when the home directory cannot be
/// determined.
pub fn get_clients_dir() -> (r: Option<String>)
    ensures
        r matches Some(p) ==> exists|h: Seq<char>| p@ == path_join(
            minecraft_dir_spec(h),
            clients_seg(),
        ),
{
    match home_dir_text() {
        Some(h) => {
            let mc = minecraft_dir_in(h.as_str());
            Some(clients_dir_in(mc.as_str()))
        },
        None => None,
    }
}

/// `~/.minecraft/servers`; `None` when the home directory cannot be
/// determined.
pub fn get_servers_dir() -> (r: Option<String>)
    ensures
        r matches Some(p) ==> exists|h: Seq<char>| p@ == path_join(
            minecraft_dir_spec(h),
            servers_seg(),
        ),
{
    match home_dir_text() {
        Some(h) => {
            let mc = minecraft_dir_in(h.as_str());
            Some(servers_dir_in(mc.as_str()))
        },
        None => None,
    }
}

proof fn lemma_filter_push(s: Seq<Seq<char>>, x: Seq<char>)
    ensures
        s.push(x).filter(|q: Seq<char>| q.len() > 0 && q != seq!['.']) == if x.len() > 0 && x
            != seq!['.'] {
            s.filter(|q: Seq<char>| q.len() > 0 && q != seq!['.']).push(x)
        } else {
            s.filter(|q: Seq<char>| q.len() > 0 && q != seq!['.'])
        },
{
    reveal(Seq::filter);
    assert(s.push(x).drop_last() =~= s);
}

/// The components of a path (see `components_spec`).
pub fn path_components(p: &str) -> (r: Vec<Vec<char>>)
    ensures
        r@.map_values(|q: Vec<char>| q@) == components_spec(p@),
{
    let pc = chars_of(p);
    let mut r: Vec<Vec<char>> = Vec::new();
    if pc.len() > 0 && pc[0] == '/' {
        let mut root: Vec<char> = Vec::new();
        root.push('/');
        r.push(root);
    }
    if pc.len() > 0 && pc[0] == '.' && (pc.len() == 1 || pc[1] == '/') {
        let mut cur: Vec<char> = Vec::new();
        cur.push('.');
        r.push(cur);
    }
    let ghost head = r@.map_values(|q: Vec<char>| q@);
    assert(head =~= (if p@.len() > 0 && p@[0] == '/' { seq![seq!['/']] } else { Seq::<Seq<char>>::empty() }) + (if p@.len() > 0 && p@[0] == '.' && (p@.len() == 1 || p@[1] == '/') {
        seq![seq!['.']]
    } else {
        Seq::<Seq<char>>::empty()
    }));
    let mut sep: Vec<char> = Vec::new();
    sep.push('/');
    let pieces = split_on(pc.as_slice(), sep.as_slice());
    assert(sep@ =~= seq!['/']);
    let ghost all = pieces@.map_values(|q: Vec<char>| q@);
    let mut i: usize = 0;
    while i < pieces.len()
        invariant
            i <= pieces.len(),
            all == pieces@.map_values(|q: Vec<char>| q@),
            r@.map_values(|q: Vec<char>| q@) == head + all.take(i as int).filter(
                |q: Seq<char>| q.len() > 0 && q != seq!['.'],
            ),
        decreases pieces.len() - i,
    {
        proof {
            lemma_filter_push(all.take(i as int), all[i as int]);
            assert(all.take(i + 1) =~= all.take(i as int).push(all[i as int]));
        }
        let q = &pieces[i];
        let is_dot = q.len() == 1 && q[0] == '.';
        assert(is_dot == (q@ == seq!['.'])) by {
            if q@.len() == 1 && q@[0] == '.' {
                assert(q@ =~= seq!['.']);
            }
        }
        if q.len() > 0 && !is_dot {
            let ghost before = r@.map_values(|q: Vec<char>| q@);
            r.push(q.clone());
            assert(r@.map_values(|q: Vec<char>| q@) =~= before.push(all[i as int]));
        }
        i += 1;
    }
    assert(all.take(pieces.len() as int) =~= all);
    r
}

/// `Path::starts_with` (see `path_starts_with_spec`).
pub fn path_starts_with(target: &str, base: &str) -> (r: bool)
    ensures
        r == path_starts_with_spec(target@, base@),
{
    let t = path_components(target);
    let b = path_components(base);
    let ghost tv = t@.map_values(|q: Vec<char>| q@);
    let ghost bv = b@.map_values(|q: Vec<char>| q@);
    if b.len() > t.len() {
        return false;
    }
    let mut i: usize = 0;
    while i < b.len()
        invariant
            b.len() <= t.len(),
            i <= b.len(),
            tv == t@.map_values(|q: Vec<char>| q@),
            bv == b@.map_values(|q: Vec<char>| q@),
            tv == components_spec(target@),
            bv == components_spec(base@),
            forall|j: int| 0 <= j < i ==> tv[j] == bv[j],
        decreases b.len() - i,
    {
        if !seq_eq(t[i].as_slice(), b[i].as_slice()) {
            assert(tv[i as int] == t@[i as int]@ && bv[i as int] == b@[i as int]@);
            assert(tv.subrange(0, bv.len() as int)[i as int] != bv[i as int]);
            return false;
        }
        assert(tv[i as int] == t@[i as int]@ && bv[i as int] == b@[i as int]@);
        i += 1;
    }
    assert(tv.subrange(0, bv.len() as int) =~= bv);
    true
}

/// `target` lies inside `~/.minecraft` (by components); `None` when the
/// home directory cannot be determined.
pub fn is_path_safe(target: &str) -> (r: Option<bool>)
    ensures
        r matches Some(b) ==> exists|h: Seq<char>| b == path_starts_with_spec(
            target@,
            minecraft_dir_spec(h),
        ),
{
    match get_minecraft_dir() {
        Some(base) => Some(path_starts_with(target, base.as_str())),
        None => None,
    }
}

/// The folders the launcher's workspace consists of, in the order they
/// are created.
pub open spec fn workspace_folders_spec(mc_dir: Seq<char>) -> Seq<Seq<char>> {
    seq![
        mc_dir,
        path_join(mc_dir, clients_seg()),
        path_join(mc_dir, servers_seg()),
        path_join(mc_dir, libraries_seg()),
        path_join(mc_dir, "assets"@),
        path_join(mc_dir, "assets/indexes"@),
        path_join(mc_dir, "assets/objects"@),
        path_join(mc_dir, "runtimes"@),
    ]
}

/// The workspace folders under a data directory (see
/// `workspace_folders_spec`).
pub fn workspace_folders(mc_dir: &str) -> (r: Vec<String>)
    ensures
        r@.map_values(|s: String| s@) == workspace_folders_spec(mc_dir@),
{
    proof {
        reveal_strlit("libraries");
    }
    let a = String::from_str(mc_dir);
    let b = clients_dir_in(mc_dir);
    let c = servers_dir_in(mc_dir);
    let d = join_path(mc_dir, "libraries");
    let e = join_path(mc_dir, "assets");
    let f = join_path(mc_dir, "assets/indexes");
    let g = join_path(mc_dir, "assets/objects");
    let h = join_path(mc_dir, "runtimes");
    let ghost want = seq![a@, b@, c@, d@, e@, f@, g@, h@];
    assert(d@ == path_join(mc_dir@, libraries_seg()));
    assert(want[3] == workspace_folders_spec(mc_dir@)[3]);
    assert(want =~= workspace_folders_spec(mc_dir@));
    let mut r: Vec<String> = Vec::new();
    r.push(a);
    r.push(b);
    r.push(c);
    r.push(d);
    r.push(e);
    r.push(f);
    r.push(g);
    r.push(h);
    assert(r@.map_values(|s: String| s@) =~= want);
    r
}

// ------------------------------------------------------------------
// Maven coordinates
// ------------------------------------------------------------------

pub open spec fn maven_path_spec(name: Seq<char>) -> Seq<char> {
    let parts = split_by(name, seq![':']);
    if parts.len() < 3 {
        name
    } else {
        replace_char(parts[0], '.', seq!['/']) + seq!['/'] + parts[1] + seq!['/'] + parts[2]
            + seq!['/'] + parts[1] + seq!['-'] + parts[2] + seq!['.', 'j', 'a', 'r']
    }
}

/// Converts a maven coordinate `group:artifact:version[:...]` to the path
/// `group/with/slashes/artifact/version/artifact-version.jar`; a name with
/// fewer than three `:`-separated parts is returned unchanged.
pub fn maven_to_path(name: &str) -> (r: String)
    ensures
        r@ == maven_path_spec(name@),
{
    let nc = chars_of(name);
    let mut colon: Vec<char> = Vec::new();
    colon.push(':');
    assert(colon@ =~= seq![':']);
    let parts = split_on(nc.as_slice(), colon.as_slice());
    let ghost pv = parts@.map_values(|q: Vec<char>| q@);
    if parts.len() < 3 {
        return string_from_chars(nc.as_slice());
    }
    let mut slash: Vec<char> = Vec::new();
    slash.push('/');
    let group = replace_char_with(parts[0].as_slice(), '.', slash.as_slice());
    let mut r = group;
    r.push('/');
    extend_chars(&mut r, parts[1].as_slice());
    r.push('/');
    extend_chars(&mut r, parts[2].as_slice());
    r.push('/');
    extend_chars(&mut r, parts[1].as_slice());
    r.push('-');
    extend_chars(&mut r, parts[2].as_slice());
    r.push('.');
    r.push('j');
    r.push('a');
    r.push('r');
    assert(pv[0] == parts@[0]@ && pv[1] == parts@[1]@ && pv[2] == parts@[2]@);
    assert(slash@ =~= seq!['/']);
    assert(r@ =~= maven_path_spec(name@));
    string_from_chars(r.as_slice())
}

// ------------------------------------------------------------------
// Instance names
// ------------------------------------------------------------------

/// An instance name names one directory directly under `clients`: it is
/// not empty and holds no `/`, no `\` and no `..`.
pub open spec fn valid_instance_name(name: Seq<char>) -> bool {
    &&& name.len() > 0
    &&& !name.contains('/')
    &&& !name.contains('\\')
    &&& !has_substring(name, seq!['.', '.'])
}

pub open spec fn invalid_instance_message(name: Seq<char>) -> Seq<char> {
    "Invalid instance name '"@ + name + "': it must be a single directory name"@
}

/// Checks that an instance name cannot escape the clients directory.
pub fn validate_instance_name(name: &str) -> (r: Result<(), String>)
    ensures
        r is Ok <==> valid_instance_name(name@),
        r matches Err(m) ==> m@ == invalid_instance_message(name@),
{
    let nc = chars_of(name);
    let mut dots: Vec<char> = Vec::new();
    dots.push('.');
    dots.push('.');
    assert(dots@ =~= seq!['.', '.']);
    if nc.len() > 0 && !contains_char(nc.as_slice(), '/') && !contains_char(nc.as_slice(), '\\')
        && !contains_substring(nc.as_slice(), dots.as_slice()) {
        Ok(())
    } else {
        let mut m: Vec<char> = Vec::new();
        extend_str(&mut m, "Invalid instance name '");
        extend_chars(&mut m, nc.as_slice());
        extend_str(&mut m, "': it must be a single directory name");
        Err(string_from_chars(m.as_slice()))
    }
}

/// An instance directory stays inside the directory it is placed in: a
/// valid name joined to any directory gives a path whose components begin
/// with that directory's.
pub proof fn law_instance_stays_inside(dir: Seq<char>, name: Seq<char>)
    requires
        valid_instance_name(name),
    ensures
        path_starts_with_spec(path_join(dir, name), dir),
{
    let sep = seq!['/'];
    let p = path_join(dir, name);
    let pred = |q: Seq<char>| q.len() > 0 && q != seq!['.'];
    assert(name[0] != '/') by {
        assert(name.contains(name[0]));
    }
    assert forall|i: int| 0 <= i < name.len() implies !is_sep(#[trigger] name[i], sep) by {
        assert(name.contains(name[i]));
        if is_sep(name[i], sep) {
            assert(sep.contains(name[i]));
            assert(name[i] == '/');
        }
    }
    lemma_split_acc_plain(name, sep, Seq::empty());
    assert(Seq::<char>::empty() + name =~= name);
    let s = split_by(dir, sep);
    if dir.len() == 0 {
        assert(dir =~= Seq::<char>::empty());
        assert(split_by(dir, sep) == seq![Seq::<char>::empty()]);
        assert(seq![Seq::<char>::empty()].filter(pred) =~= Seq::<Seq<char>>::empty()) by {
            reveal(Seq::filter);
            assert(seq![Seq::<char>::empty()].drop_last() =~= Seq::<Seq<char>>::empty());
        }
        assert(components_spec(dir) =~= Seq::<Seq<char>>::empty());
    } else {
        let tail: Seq<Seq<char>> = if dir.last() == '/' {
            let d0 = dir.drop_last();
            assert(dir =~= d0 + seq!['/']);
            lemma_split_acc_concat(d0, seq!['/'], sep, Seq::empty());
            let s0 = split_by(d0, sep);
            assert(is_sep('/', sep));
            assert(seq!['/'].drop_first() =~= Seq::<char>::empty());
            assert(seq!['/'][0] == '/');
            crate::text::lemma_split_acc_nonempty(d0, sep, Seq::empty());
            assert(split_acc(Seq::<char>::empty(), sep, Seq::empty()) == seq![Seq::<char>::empty()]);
            assert(split_acc(seq!['/'], sep, s0.last()) == seq![s0.last()] + split_acc(seq!['/'].drop_first(), sep, Seq::empty()));
            assert(split_acc(seq!['/'], sep, s0.last()) == seq![s0.last()] + seq![Seq::<char>::empty()]);
            assert(s.last() == Seq::<char>::empty());
            assert(p == dir + name);
            lemma_split_acc_concat(dir, name, sep, Seq::empty());
            assert(split_by(p, sep) =~= s.drop_last() + seq![name]);
            assert(s =~= s.drop_last() + seq![Seq::<char>::empty()]);
            Seq::filter_distributes_over_add(s.drop_last(), seq![name], pred);
            Seq::filter_distributes_over_add(s.drop_last(), seq![Seq::<char>::empty()], pred);
            assert(seq![Seq::<char>::empty()].filter(pred) =~= Seq::<Seq<char>>::empty()) by {
                reveal(Seq::filter);
                assert(seq![Seq::<char>::empty()].drop_last() =~= Seq::<Seq<char>>::empty());
            }
            assert(normal_pieces(dir) =~= s.drop_last().filter(pred));
            seq![name].filter(pred)
        } else {
            assert(p == dir + (seq!['/'] + name));
            assert(p =~= dir + (seq!['/'] + name));
            lemma_split_acc_concat(dir, seq!['/'] + name, sep, Seq::empty());
            assert((seq!['/'] + name)[0] == '/');
            assert((seq!['/'] + name).drop_first() =~= name);
            assert(is_sep('/', sep));
            assert(split_acc(seq!['/'] + name, sep, s.last()) == seq![s.last()] + seq![name]);
            crate::text::lemma_split_acc_nonempty(dir, sep, Seq::empty());
            assert(split_by(p, sep) =~= s + seq![name]);
            Seq::filter_distributes_over_add(s, seq![name], pred);
            seq![name].filter(pred)
        };
        assert(normal_pieces(p) =~= normal_pieces(dir) + tail);
        assert(p[0] == dir[0]);
        assert(p.len() > 1);
        assert(dir.len() >= 2 ==> p[1] == dir[1]);
        assert(components_spec(p) =~= components_spec(dir) + tail);
    }
    assert(components_spec(p).subrange(0, components_spec(dir).len() as int) =~= components_spec(dir));
}

} // verus!
