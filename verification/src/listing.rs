//! Listings shown to the user: names sorted as text, the instances of the
//! clients directory and the mod files of an instance.
use vstd::prelude::*;
use crate::loader::EntryInfo;
use crate::modrinth::strings_view;
use crate::text::{chars_of, str_eq};

verus! {

broadcast use vstd::seq_lib::to_multiset_insert, vstd::seq_lib::to_multiset_build;

/// Text order as `String` compares: character by character by code point
/// (which is the byte order of UTF-8), a proper prefix first.
pub open spec fn text_lt(a: Seq<char>, b: Seq<char>) -> bool
    decreases a.len(),
{
    if a.len() == 0 {
        b.len() > 0
    } else if b.len() == 0 {
        false
    } else if a[0] != b[0] {
        a[0] < b[0]
    } else {
        text_lt(a.drop_first(), b.drop_first())
    }
}

/// Each name is not after the next ones.
pub open spec fn texts_sorted(s: Seq<Seq<char>>) -> bool {
    forall|i: int, j: int| 0 <= i < j < s.len() ==> !text_lt(#[trigger] s[j], #[trigger] s[i])
}

proof fn lemma_text_lt_transitive(a: Seq<char>, b: Seq<char>, c: Seq<char>)
    requires
        text_lt(a, b),
        text_lt(b, c),
    ensures
        text_lt(a, c),
    decreases a.len(),
{
    if a.len() > 0 && b.len() > 0 && c.len() > 0 && a[0] == b[0] && b[0] == c[0] {
        lemma_text_lt_transitive(a.drop_first(), b.drop_first(), c.drop_first());
    }
}

proof fn lemma_text_lt_irreflexive(a: Seq<char>)
    ensures
        !text_lt(a, a),
    decreases a.len(),
{
    if a.len() > 0 {
        lemma_text_lt_irreflexive(a.drop_first());
    }
}

proof fn lemma_text_lt_total(a: Seq<char>, b: Seq<char>)
    requires
        a != b,
    ensures
        text_lt(a, b) || text_lt(b, a),
    decreases a.len(),
{
    if a.len() > 0 && b.len() > 0 && a[0] == b[0] {
        if a.drop_first() == b.drop_first() {
            assert(a =~= seq![a[0]] + a.drop_first());
            assert(b =~= seq![b[0]] + b.drop_first());
        }
        lemma_text_lt_total(a.drop_first(), b.drop_first());
    } else if a.len() == 0 && b.len() == 0 {
        assert(a =~= b);
    } else if a.len() > 0 && b.len() > 0 {
        assert(a[0] < b[0] || b[0] < a[0]);
    }
}

/// Text order is a strict total order: no text sorts before itself, the
/// order is transitive, and of two different texts one sorts first. So a
/// sorted listing of names is unique.
pub proof fn law_text_order(a: Seq<char>, b: Seq<char>, c: Seq<char>)
    ensures
        !text_lt(a, a),
        text_lt(a, b) && text_lt(b, c) ==> text_lt(a, c),
        a != b ==> text_lt(a, b) || text_lt(b, a),
{
    lemma_text_lt_irreflexive(a);
    if text_lt(a, b) && text_lt(b, c) {
        lemma_text_lt_transitive(a, b, c);
    }
    if a != b {
        lemma_text_lt_total(a, b);
    }
}

/// Whether `a` sorts before `b` (see `text_lt`).
pub fn text_less(a: &str, b: &str) -> (r: bool)
    ensures
        r == text_lt(a@, b@),
{
    let ac = chars_of(a);
    let bc = chars_of(b);
    let mut i: usize = 0;
    assert(a@.skip(0) =~= a@ && b@.skip(0) =~= b@);
    while i < ac.len() && i < bc.len() && ac[i] == bc[i]
        invariant
            i <= ac.len(),
            i <= bc.len(),
            ac@ == a@,
            bc@ == b@,
            text_lt(a@, b@) == text_lt(a@.skip(i as int), b@.skip(i as int)),
        decreases ac.len() - i,
    {
        assert(a@.skip(i as int).drop_first() =~= a@.skip(i + 1));
        assert(b@.skip(i as int).drop_first() =~= b@.skip(i + 1));
        i += 1;
    }
    if i == ac.len() {
        i < bc.len()
    } else if i == bc.len() {
        false
    } else {
        let ca: char = ac[i];
        let cb: char = bc[i];
        assert(a@.skip(i as int)[0] == ca && b@.skip(i as int)[0] == cb);
        ca < cb
    }
}

/// The names sorted as text (see `text_lt`): the same names, each as
/// often, in order.
pub fn sort_texts(names: &Vec<String>) -> (r: Vec<String>)
    ensures
        strings_view(r@).to_multiset() == strings_view(names@).to_multiset(),
        texts_sorted(strings_view(r@)),
{
    let mut r: Vec<String> = Vec::new();
    let mut i: usize = 0;
    assert(strings_view(r@) =~= strings_view(names@).take(0));
    while i < names.len()
        invariant
            i <= names.len(),
            strings_view(r@).to_multiset() == strings_view(names@).take(i as int).to_multiset(),
            texts_sorted(strings_view(r@)),
        decreases names.len() - i,
    {
        let x = &names[i];
        let mut pos: usize = 0;
        while pos < r.len() && !text_less(x.as_str(), r[pos].as_str())
            invariant
                pos <= r.len(),
                forall|k: int| 0 <= k < pos ==> !text_lt(x@, #[trigger] strings_view(r@)[k]),
            decreases r.len() - pos,
        {
            pos += 1;
        }
        let ghost old_v = strings_view(r@);
        proof {
            assert forall|k: int| pos <= k < old_v.len() implies !text_lt(#[trigger] old_v[k], x@) by {
                if text_lt(old_v[k], x@) {
                    assert(text_lt(x@, old_v[pos as int]));
                    lemma_text_lt_irreflexive(old_v[pos as int]);
                    lemma_text_lt_transitive(old_v[k], x@, old_v[pos as int]);
                    if k > pos {
                        assert(!text_lt(old_v[k], old_v[pos as int]));
                    }
                    assert(false);
                }
            }
        }
        r.insert(pos, x.clone());
        let ghost new_v = strings_view(r@);
        proof {
            assert(new_v =~= old_v.insert(pos as int, x@));
            assert(strings_view(names@).take(i + 1) =~= strings_view(names@).take(i as int).push(x@));
            assert forall|a: int, b: int| 0 <= a < b < new_v.len() implies !text_lt(#[trigger] new_v[b], #[trigger] new_v[a]) by {
                if b < pos {
                    assert(new_v[a] == old_v[a] && new_v[b] == old_v[b]);
                } else if b == pos {
                    assert(new_v[a] == old_v[a]);
                } else if a < pos {
                    assert(new_v[a] == old_v[a] && new_v[b] == old_v[b - 1]);
                } else if a == pos {
                    assert(new_v[b] == old_v[b - 1]);
                } else {
                    assert(new_v[a] == old_v[a - 1] && new_v[b] == old_v[b - 1]);
                }
            }
        }
        i += 1;
    }
    assert(strings_view(names@).take(names.len() as int) =~= strings_view(names@));
    r
}

/// An entry that is listed: a directory when instances are listed, else
/// a file other than the mod manifest `nexus_mods.toml`.
pub open spec fn listed_entry(dirs: bool, e: EntryInfo) -> bool {
    if dirs {
        e.is_dir
    } else {
        e.is_file && e.name@ != "nexus_mods.toml"@
    }
}

/// The names of the listed entries, in listing order.
pub open spec fn listed_names(entries: Seq<EntryInfo>, dirs: bool) -> Seq<Seq<char>> {
    entries.filter(|e: EntryInfo| listed_entry(dirs, e)).map_values(|e: EntryInfo| e.name@)
}

fn collect_names(entries: &Vec<EntryInfo>, dirs: bool) -> (r: Vec<String>)
    ensures
        strings_view(r@) == listed_names(entries@, dirs),
{
    let ghost p = |e: EntryInfo| listed_entry(dirs, e);
    let ghost f = |e: EntryInfo| e.name@;
    let mut r: Vec<String> = Vec::new();
    let mut i: usize = 0;
    assert(entries@.take(0).filter(p) =~= Seq::<EntryInfo>::empty()) by {
        reveal(Seq::filter);
    }
    while i < entries.len()
        invariant
            i <= entries.len(),
            p == (|e: EntryInfo| listed_entry(dirs, e)),
            f == (|e: EntryInfo| e.name@),
            strings_view(r@) == entries@.take(i as int).filter(p).map_values(f),
        decreases entries.len() - i,
    {
        let ghost prev = entries@.take(i as int).filter(p);
        let ghost rv = r@;
        proof {
            reveal(Seq::filter);
            assert(entries@.take(i + 1).drop_last() =~= entries@.take(i as int));
        }
        let e = &entries[i];
        let keep = if dirs { e.is_dir } else { e.is_file && !str_eq(e.name.as_str(), "nexus_mods.toml") };
        if keep {
            r.push(e.name.clone());
            assert(entries@.take(i + 1).filter(p) == prev.push(entries@[i as int]));
            assert(strings_view(r@) =~= strings_view(rv).push(e.name@));
            assert(prev.push(entries@[i as int]).map_values(f) =~= prev.map_values(f).push(e.name@));
        } else {
            assert(entries@.take(i + 1).filter(p) == prev);
        }
        i += 1;
    }
    assert(entries@.take(entries.len() as int) =~= entries@);
    r
}

/// `list instances`: the directories of the clients directory, sorted.
pub fn instance_names(entries: &Vec<EntryInfo>) -> (r: Vec<String>)
    ensures
        strings_view(r@).to_multiset() == listed_names(entries@, true).to_multiset(),
        texts_sorted(strings_view(r@)),
{
    let names = collect_names(entries, true);
    sort_texts(&names)
}

/// The mod files of an instance: its files other than the mod manifest,
/// sorted.
pub fn mod_file_names(entries: &Vec<EntryInfo>) -> (r: Vec<String>)
    ensures
        strings_view(r@).to_multiset() == listed_names(entries@, false).to_multiset(),
        texts_sorted(strings_view(r@)),
{
    let names = collect_names(entries, false);
    sort_texts(&names)
}

} // verus!
