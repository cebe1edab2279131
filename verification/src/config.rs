//! The launcher's persistent settings: user profiles, the username to UUID
//! map, cached Java runtimes and the launch mode.
use vstd::prelude::*;
use crate::assoc::{assoc_map, has_key, keys_unique, lemma_assoc_dom, lemma_assoc_ext, lemma_assoc_lookup};
use crate::cli::SetArgs;
use crate::text::{str_eq, string_from_chars, extend_str};

verus! {

pub open spec fn name_pairs(s: Seq<(String, String)>) -> Seq<(Seq<char>, Seq<char>)> {
    s.map_values(|e: (String, String)| (e.0@, e.1@))
}

/// A map from text keys to text values (here: username to UUID).
pub struct NameMap {
    entries: Vec<(String, String)>,
}

impl View for NameMap {
    type V = Map<Seq<char>, Seq<char>>;

    closed spec fn view(&self) -> Map<Seq<char>, Seq<char>> {
        assoc_map(name_pairs(self.entries@))
    }
}

impl NameMap {
    #[verifier::type_invariant]
    closed spec fn unique_keys(self) -> bool {
        keys_unique(name_pairs(self.entries@))
    }

    /// An empty map.
    pub fn new() -> (r: NameMap)
        ensures
            r@ == Map::<Seq<char>, Seq<char>>::empty(),
    {
        let r = NameMap { entries: Vec::new() };
        assert(name_pairs(r.entries@) =~= Seq::empty());
        r
    }

    /// Index of the entry holding `key`.
    fn position(entries: &Vec<(String, String)>, key: &str) -> (r: Option<usize>)
        ensures
            match r {
                Some(i) => i < entries.len() && entries@[i as int].0@ == key@,
                None => !has_key(name_pairs(entries@), key@),
            },
    {
        let mut i: usize = 0;
        while i < entries.len()
            invariant
                i <= entries.len(),
                forall|j: int| 0 <= j < i ==> entries@[j].0@ != key@,
            decreases entries.len() - i,
        {
            if str_eq(entries[i].0.as_str(), key) {
                return Some(i);
            }
            i += 1;
        }
        assert forall|j: int| 0 <= j < entries.len() implies #[trigger] name_pairs(entries@)[j].0
            != key@ by {
            assert(name_pairs(entries@)[j].0 == entries@[j].0@);
        }
        None
    }

    /// The value stored under `key`.
    pub fn get(&self, key: &str) -> (r: Option<String>)
        ensures
            r is Some <==> self@.dom().contains(key@),
            r matches Some(v) ==> v@ == self@[key@],
    {
        proof {
            use_type_invariant(self);
            lemma_assoc_dom(name_pairs(self.entries@), key@);
        }
        match NameMap::position(&self.entries, key) {
            Some(i) => {
                proof {
                    lemma_assoc_lookup(name_pairs(self.entries@), i as int);
                }
                Some(self.entries[i].1.clone())
            },
            None => None,
        }
    }

    /// The map holds no entry.
    pub fn is_empty(&self) -> (r: bool)
        ensures
            r == (self@ == Map::<Seq<char>, Seq<char>>::empty()),
    {
        proof {
            use_type_invariant(self);
        }
        if self.entries.len() == 0 {
            assert(name_pairs(self.entries@) =~= Seq::empty());
            true
        } else {
            proof {
                lemma_assoc_lookup(name_pairs(self.entries@), 0);
            }
            false
        }
    }

    /// Stores `value` under `key`, replacing what was there.
    pub fn insert(&mut self, key: String, value: String)
        ensures
            final(self)@ == old(self)@.insert(key@, value@),
    {
        proof {
            use_type_invariant(&*self);
        }
        let mut entries: Vec<(String, String)> = Vec::new();
        std::mem::swap(&mut entries, &mut self.entries);
        let ghost old_s = name_pairs(entries@);
        let ghost m = assoc_map(old_s).insert(key@, value@);
        let ghost kv = key@;
        let ghost vv = value@;
        match NameMap::position(&entries, key.as_str()) {
            Some(i) => {
                entries.set(i, (key, value));
                let ghost new_s = name_pairs(entries@);
                proof {
                    assert(new_s =~= old_s.update(i as int, (kv, vv)));
                    assert(old_s[i as int].0 == kv);
                    assert(new_s[i as int] == (kv, vv));
                    assert forall|k: Seq<char>| m.dom().contains(k) <==> has_key(new_s, k) by {
                        lemma_assoc_dom(old_s, k);
                        if k == kv {
                            assert(new_s[i as int].0 == k);
                        } else {
                            if has_key(old_s, k) {
                                let j = choose|j: int| 0 <= j < old_s.len() && #[trigger] old_s[j].0 == k;
                                assert(new_s[j].0 == k);
                            }
                            if has_key(new_s, k) {
                                let j = choose|j: int| 0 <= j < new_s.len() && #[trigger] new_s[j].0 == k;
                                assert(old_s[j].0 == k);
                            }
                        }
                    }
                    assert forall|j: int| #![trigger new_s[j]] 0 <= j < new_s.len() implies m.dom().contains(new_s[j].0)
                        && m[new_s[j].0] == new_s[j].1 by {
                        if j != i {
                            lemma_assoc_lookup(old_s, j);
                            assert(old_s[j].0 != old_s[i as int].0);
                            assert(new_s[j] == old_s[j]);
                        }
                    }
                    assert forall|a: int, b: int| 0 <= a < new_s.len() && 0 <= b < new_s.len() && a
                        != b implies #[trigger] new_s[a].0 != #[trigger] new_s[b].0 by {
                        assert(new_s[a].0 == old_s[a].0 && new_s[b].0 == old_s[b].0);
                    }
                    lemma_assoc_ext(new_s, m);
                }
            },
            None => {
                entries.push((key, value));
                let ghost new_s = name_pairs(entries@);
                proof {
                    assert(new_s =~= old_s.push((kv, vv)));
                    assert(new_s.drop_last() =~= old_s);
                    assert forall|a: int, b: int| 0 <= a < new_s.len() && 0 <= b < new_s.len() && a
                        != b implies #[trigger] new_s[a].0 != #[trigger] new_s[b].0 by {
                        if a == old_s.len() {
                            assert(old_s[b].0 == new_s[b].0);
                        } else if b == old_s.len() {
                            assert(old_s[a].0 == new_s[a].0);
                        } else {
                            assert(old_s[a].0 == new_s[a].0 && old_s[b].0 == new_s[b].0);
                        }
                    }
                }
            },
        }
        self.entries = entries;
    }

    /// Drops the entry under `key`, if any.
    pub fn remove(&mut self, key: &str)
        ensures
            final(self)@ == old(self)@.remove(key@),
    {
        proof {
            use_type_invariant(&*self);
        }
        let mut entries: Vec<(String, String)> = Vec::new();
        std::mem::swap(&mut entries, &mut self.entries);
        let ghost old_s = name_pairs(entries@);
        let ghost m = assoc_map(old_s).remove(key@);
        match NameMap::position(&entries, key) {
            Some(i) => {
                entries.remove(i);
                let ghost new_s = name_pairs(entries@);
                proof {
                    assert(new_s =~= old_s.remove(i as int));
                    assert forall|a: int, b: int| 0 <= a < new_s.len() && 0 <= b < new_s.len() && a
                        != b implies #[trigger] new_s[a].0 != #[trigger] new_s[b].0 by {
                        let a2 = if a < i { a } else { a + 1 };
                        let b2 = if b < i { b } else { b + 1 };
                        assert(new_s[a] == old_s[a2] && new_s[b] == old_s[b2]);
                    }
                    assert forall|k: Seq<char>| m.dom().contains(k) <==> has_key(new_s, k) by {
                        lemma_assoc_dom(old_s, k);
                        if has_key(old_s, k) && k != key@ {
                            let j = choose|j: int| 0 <= j < old_s.len() && #[trigger] old_s[j].0 == k;
                            assert(j != i);
                            let j2 = if j < i { j } else { j - 1 };
                            assert(new_s[j2].0 == k);
                        }
                        if has_key(new_s, k) {
                            let j = choose|j: int| 0 <= j < new_s.len() && #[trigger] new_s[j].0 == k;
                            let j2 = if j < i { j } else { j + 1 };
                            assert(old_s[j2].0 == k);
                            assert(j2 != i);
                            assert(old_s[j2].0 != old_s[i as int].0);
                        }
                    }
                    assert forall|j: int| #![trigger new_s[j]] 0 <= j < new_s.len() implies m.dom().contains(new_s[j].0)
                        && m[new_s[j].0] == new_s[j].1 by {
                        let j2 = if j < i { j } else { j + 1 };
                        assert(new_s[j] == old_s[j2]);
                        lemma_assoc_lookup(old_s, j2);
                        assert(old_s[j2].0 != old_s[i as int].0);
                    }
                    lemma_assoc_ext(new_s, m);
                }
            },
            None => {
                proof {
                    lemma_assoc_dom(old_s, key@);
                    assert(assoc_map(old_s) =~= m);
                }
            },
        }
        self.entries = entries;
    }

    /// All entries, each key once.
    pub fn pairs(&self) -> (r: Vec<(String, String)>)
        ensures
            keys_unique(name_pairs(r@)),
            assoc_map(name_pairs(r@)) == self@,
    {
        proof {
            use_type_invariant(self);
        }
        let mut r: Vec<(String, String)> = Vec::new();
        let mut i: usize = 0;
        while i < self.entries.len()
            invariant
                i <= self.entries.len(),
                name_pairs(r@) == name_pairs(self.entries@).take(i as int),
            decreases self.entries.len() - i,
        {
            let k = self.entries[i].0.clone();
            let v = self.entries[i].1.clone();
            let ghost prev = r@;
            r.push((k, v));
            assert(r@ == prev.push((k, v)));
            assert(name_pairs(r@) =~= name_pairs(prev).push((self.entries@[i as int].0@, self.entries@[i as int].1@)));
            assert(name_pairs(r@) =~= name_pairs(self.entries@).take(i + 1));
            i += 1;
        }
        assert(name_pairs(self.entries@).take(self.entries.len() as int) =~= name_pairs(
            self.entries@,
        ));
        r
    }
}

// ------------------------------------------------------------------
// Java runtime cache: major version to executable path, kept in
// ascending order of version.
// ------------------------------------------------------------------

pub open spec fn java_pairs(s: Seq<(u32, String)>) -> Seq<(u32, Seq<char>)> {
    s.map_values(|e: (u32, String)| (e.0, e.1@))
}

pub open spec fn ascending(s: Seq<(u32, Seq<char>)>) -> bool {
    forall|i: int, j: int| 0 <= i < j < s.len() ==> #[trigger] s[i].0 < #[trigger] s[j].0
}

/// Cached Java executables, keyed by major version.
pub struct JavaPaths {
    entries: Vec<(u32, String)>,
}

impl View for JavaPaths {
    type V = Map<u32, Seq<char>>;

    closed spec fn view(&self) -> Map<u32, Seq<char>> {
        assoc_map(java_pairs(self.entries@))
    }
}

proof fn lemma_ascending_unique(s: Seq<(u32, Seq<char>)>)
    requires
        ascending(s),
    ensures
        keys_unique(s),
{
    assert forall|a: int, b: int| 0 <= a < s.len() && 0 <= b < s.len() && a != b implies #[trigger] s[a].0
        != #[trigger] s[b].0 by {
        if a < b {
            assert(s[a].0 < s[b].0);
        } else {
            assert(s[b].0 < s[a].0);
        }
    }
}

impl JavaPaths {
    #[verifier::type_invariant]
    closed spec fn sorted(self) -> bool {
        ascending(java_pairs(self.entries@))
    }

    /// An empty cache.
    pub fn new() -> (r: JavaPaths)
        ensures
            r@ == Map::<u32, Seq<char>>::empty(),
    {
        let r = JavaPaths { entries: Vec::new() };
        assert(java_pairs(r.entries@) =~= Seq::empty());
        r
    }

    /// The first index whose version is at least `major`.
    fn lower_bound(entries: &Vec<(u32, String)>, major: u32) -> (r: usize)
        requires
            ascending(java_pairs(entries@)),
        ensures
            r <= entries.len(),
            forall|j: int| 0 <= j < r ==> entries@[j].0 < major,
            forall|j: int| r <= j < entries.len() ==> entries@[j].0 >= major,
    {
        let mut i: usize = 0;
        while i < entries.len()
            invariant
                i <= entries.len(),
                ascending(java_pairs(entries@)),
                forall|j: int| 0 <= j < i ==> entries@[j].0 < major,
            decreases entries.len() - i,
        {
            if entries[i].0 >= major {
                assert forall|j: int| i <= j < entries.len() implies entries@[j].0 >= major by {
                    if j > i {
                        assert(java_pairs(entries@)[i as int].0 < java_pairs(entries@)[j].0);
                    }
                }
                return i;
            }
            i += 1;
        }
        i
    }

    /// The executable cached for `major`.
    pub fn get(&self, major: u32) -> (r: Option<String>)
        ensures
            r is Some <==> self@.dom().contains(major),
            r matches Some(p) ==> p@ == self@[major],
    {
        proof {
            use_type_invariant(self);
            lemma_ascending_unique(java_pairs(self.entries@));
            lemma_assoc_dom(java_pairs(self.entries@), major);
        }
        let i = JavaPaths::lower_bound(&self.entries, major);
        if i < self.entries.len() && self.entries[i].0 == major {
            proof {
                lemma_assoc_lookup(java_pairs(self.entries@), i as int);
            }
            Some(self.entries[i].1.clone())
        } else {
            proof {
                if has_key(java_pairs(self.entries@), major) {
                    let j = choose|j: int| 0 <= j < java_pairs(self.entries@).len() && #[trigger] java_pairs(self.entries@)[j].0 == major;
                    if j > i {
                        assert(java_pairs(self.entries@)[i as int].0 < java_pairs(self.entries@)[j].0);
                    }
                }
            }
            None
        }
    }

    /// The cache holds no runtime.
    pub fn is_empty(&self) -> (r: bool)
        ensures
            r == (self@ == Map::<u32, Seq<char>>::empty()),
    {
        proof {
            use_type_invariant(self);
            lemma_ascending_unique(java_pairs(self.entries@));
        }
        if self.entries.len() == 0 {
            assert(java_pairs(self.entries@) =~= Seq::empty());
            true
        } else {
            proof {
                lemma_assoc_lookup(java_pairs(self.entries@), 0);
            }
            false
        }
    }

    /// Caches `path` for `major`, replacing an earlier entry.
    pub fn insert(&mut self, major: u32, path: String)
        ensures
            final(self)@ == old(self)@.insert(major, path@),
    {
        proof {
            use_type_invariant(&*self);
        }
        let mut entries: Vec<(u32, String)> = Vec::new();
        std::mem::swap(&mut entries, &mut self.entries);
        let ghost old_s = java_pairs(entries@);
        let ghost m = assoc_map(old_s).insert(major, path@);
        proof {
            lemma_ascending_unique(old_s);
        }
        let i = JavaPaths::lower_bound(&entries, major);
        let ghost pv = path@;
        if i < entries.len() && entries[i].0 == major {
            entries.set(i, (major, path));
            let ghost new_s = java_pairs(entries@);
            proof {
                assert(new_s =~= old_s.update(i as int, (major, pv)));
                assert(old_s[i as int].0 == major);
                assert(new_s[i as int] == (major, pv));
                assert forall|k: u32| m.dom().contains(k) <==> has_key(new_s, k) by {
                    lemma_assoc_dom(old_s, k);
                    if k == major {
                        assert(new_s[i as int].0 == k);
                    } else {
                        if has_key(old_s, k) {
                            let j = choose|j: int| 0 <= j < old_s.len() && #[trigger] old_s[j].0 == k;
                            assert(new_s[j].0 == k);
                        }
                        if has_key(new_s, k) {
                            let j = choose|j: int| 0 <= j < new_s.len() && #[trigger] new_s[j].0 == k;
                            assert(old_s[j].0 == k);
                        }
                    }
                }
                assert forall|j: int| #![trigger new_s[j]] 0 <= j < new_s.len() implies m.dom().contains(new_s[j].0)
                    && m[new_s[j].0] == new_s[j].1 by {
                    if j != i {
                        lemma_assoc_lookup(old_s, j);
                        assert(old_s[j].0 != old_s[i as int].0);
                        assert(new_s[j] == old_s[j]);
                    }
                }
                assert(ascending(new_s)) by {
                    assert forall|a: int, b: int| 0 <= a < b < new_s.len() implies #[trigger] new_s[a].0
                        < #[trigger] new_s[b].0 by {
                        assert(old_s[a].0 < old_s[b].0);
                    }
                }
                lemma_ascending_unique(new_s);
                lemma_assoc_ext(new_s, m);
            }
        } else {
            entries.insert(i, (major, path));
            let ghost new_s = java_pairs(entries@);
            proof {
                assert(new_s =~= old_s.insert(i as int, (major, pv)));
                assert(ascending(new_s)) by {
                    assert forall|a: int, b: int| 0 <= a < b < new_s.len() implies #[trigger] new_s[a].0
                        < #[trigger] new_s[b].0 by {
                        if b < i {
                            assert(old_s[a].0 < old_s[b].0);
                        } else if b == i {
                            assert(new_s[a].0 == old_s[a].0);
                        } else if a == i {
                            assert(new_s[b].0 == old_s[b - 1].0);
                            assert(old_s[b - 1].0 >= major);
                        } else if a < i {
                            assert(new_s[a].0 == old_s[a].0);
                            assert(new_s[b].0 == old_s[b - 1].0);
                            assert(old_s[b - 1].0 >= major);
                        } else {
                            assert(old_s[a - 1].0 < old_s[b - 1].0);
                        }
                    }
                }
                lemma_ascending_unique(new_s);
                assert forall|k: u32| m.dom().contains(k) <==> has_key(new_s, k) by {
                    lemma_assoc_dom(old_s, k);
                    if has_key(old_s, k) {
                        let j = choose|j: int| 0 <= j < old_s.len() && #[trigger] old_s[j].0 == k;
                        let j2 = if j < i { j } else { j + 1 };
                        assert(new_s[j2].0 == k);
                    }
                    if k == major {
                        assert(new_s[i as int].0 == k);
                    }
                    if has_key(new_s, k) && k != major {
                        let j = choose|j: int| 0 <= j < new_s.len() && #[trigger] new_s[j].0 == k;
                        let j2 = if j < i { j } else { j - 1 };
                        assert(old_s[j2].0 == k);
                    }
                }
                assert forall|j: int| #![trigger new_s[j]] 0 <= j < new_s.len() implies m.dom().contains(new_s[j].0)
                    && m[new_s[j].0] == new_s[j].1 by {
                    if j != i {
                        let j2 = if j < i { j } else { j - 1 };
                        assert(new_s[j] == old_s[j2]);
                        lemma_assoc_lookup(old_s, j2);
                        if j2 > i {
                            assert(old_s[i as int].0 < old_s[j2].0);
                        }
                        assert(old_s[j2].0 != major);
                    }
                }
                lemma_assoc_ext(new_s, m);
            }
        }
        self.entries = entries;
    }

    /// The cached runtimes in ascending order of version, keeping only the
    /// one of version `only` when that is given.
    pub fn listing(&self, only: Option<u32>) -> (r: Vec<(u32, String)>)
        ensures
            ascending(java_pairs(r@)),
            forall|i: int| 0 <= i < r.len() ==> self@.dom().contains(#[trigger] r@[i].0)
                && self@[r@[i].0] == r@[i].1@,
            forall|k: u32| self@.dom().contains(k) && (only matches Some(o) ==> k == o) ==> has_key(
                java_pairs(r@),
                k,
            ),
            forall|i: int| 0 <= i < r.len() ==> (only matches Some(o) ==> #[trigger] r@[i].0 == o),
    {
        proof {
            use_type_invariant(self);
            lemma_ascending_unique(java_pairs(self.entries@));
        }
        let ghost s = java_pairs(self.entries@);
        let mut r: Vec<(u32, String)> = Vec::new();
        let mut i: usize = 0;
        while i < self.entries.len()
            invariant
                i <= self.entries.len(),
                s == java_pairs(self.entries@),
                ascending(s),
                keys_unique(s),
                ascending(java_pairs(r@)),
                forall|a: int| 0 <= a < r.len() ==> has_key(s.take(i as int), #[trigger] r@[a].0),
                forall|a: int| 0 <= a < r.len() ==> (only matches Some(o) ==> #[trigger] r@[a].0 == o),
                forall|a: int| 0 <= a < r.len() ==> exists|j: int| 0 <= j < i && s[j] == #[trigger] java_pairs(r@)[a],
                forall|j: int| 0 <= j < i && (only matches Some(o) ==> s[j].0 == o) ==> has_key(
                    java_pairs(r@),
                    #[trigger] s[j].0,
                ),
            decreases self.entries.len() - i,
        {
            let k = self.entries[i].0;
            let keep = match only {
                Some(o) => k == o,
                None => true,
            };
            let ghost before = java_pairs(r@);
            if keep {
                let v = self.entries[i].1.clone();
                r.push((k, v));
            }
            proof {
                let after = java_pairs(r@);
                if keep {
                    assert(after =~= before.push((k, s[i as int].1)));
                } else {
                    assert(after =~= before);
                }
                assert forall|a: int| 0 <= a < before.len() implies after[a] == before[a] by {}
                assert(ascending(after)) by {
                    assert forall|a: int, b: int| 0 <= a < b < after.len() implies #[trigger] after[a].0
                        < #[trigger] after[b].0 by {
                        if b == before.len() {
                            let j = choose|j: int| 0 <= j < i && s[j] == #[trigger] before[a];
                            assert(s[j].0 < s[i as int].0);
                        } else {
                            assert(before[a].0 < before[b].0);
                        }
                    }
                }
                assert forall|a: int| 0 <= a < r.len() implies exists|j: int| 0 <= j < i + 1 && s[j] == #[trigger] java_pairs(r@)[a] by {
                    if a < before.len() {
                        let j = choose|j: int| 0 <= j < i && s[j] == #[trigger] before[a];
                        assert(s[j] == java_pairs(r@)[a]);
                    } else {
                        assert(s[i as int] == java_pairs(r@)[a]);
                    }
                }
                assert forall|a: int| 0 <= a < r.len() implies (only matches Some(o) ==> #[trigger] r@[a].0 == o) by {
                    if a < before.len() {
                        assert(r@[a].0 == after[a].0);
                        assert(after[a].0 == before[a].0);
                    }
                }
                assert forall|a: int| 0 <= a < r.len() implies has_key(s.take(i + 1), #[trigger] r@[a].0) by {
                    let j = choose|j: int| 0 <= j < i + 1 && s[j] == #[trigger] java_pairs(r@)[a];
                    assert(java_pairs(r@)[a].0 == r@[a].0);
                    assert(s.take(i + 1)[j].0 == r@[a].0);
                }
                assert forall|j: int| 0 <= j < i + 1 && (only matches Some(o) ==> s[j].0 == o) implies has_key(
                    after,
                    #[trigger] s[j].0,
                ) by {
                    if j == i {
                        assert(after[before.len() as int].0 == s[j].0);
                    } else {
                        assert(has_key(before, s[j].0));
                        let a = choose|a: int| 0 <= a < before.len() && #[trigger] before[a].0 == s[j].0;
                        assert(after[a].0 == s[j].0);
                    }
                }
            }
            i += 1;
        }
        proof {
            assert(s.take(self.entries.len() as int) =~= s);
            assert forall|a: int| 0 <= a < r.len() implies self@.dom().contains(#[trigger] r@[a].0)
                && self@[r@[a].0] == r@[a].1@ by {
                let j = choose|j: int| 0 <= j < self.entries.len() && s[j] == #[trigger] java_pairs(r@)[a];
                lemma_assoc_lookup(s, j);
            }
            assert forall|k: u32| self@.dom().contains(k) && (only matches Some(o) ==> k == o) implies has_key(
                java_pairs(r@),
                k,
            ) by {
                lemma_assoc_dom(s, k);
                let j = choose|j: int| 0 <= j < s.len() && #[trigger] s[j].0 == k;
                assert(has_key(java_pairs(r@), s[j].0));
            }
        }
        r
    }
}

// ------------------------------------------------------------------
// Configuration records
// ------------------------------------------------------------------

/// One player identity.
pub struct UserProfile {
    pub username: String,
    pub uuid: String,
}

/// The offline identity and the signed-in online identity.
pub struct UserProfiles {
    pub offline: UserProfile,
    pub online: UserProfile,
}

/// The user settings file.
pub struct UserConfig {
    pub user_profile: UserProfiles,
    /// Signed-in usernames and their UUIDs.
    pub username: NameMap,
}

/// The launch settings file.
pub struct LaunchConfig {
    pub java_paths: JavaPaths,
    pub offline: bool,
}

/// The combined settings file of the single-file layout.
pub struct LauncherConfig {
    pub user_profile: UserProfiles,
    pub username: NameMap,
    pub java_paths: JavaPaths,
}

impl Default for UserProfile {
    fn default() -> (r: UserProfile)
        ensures
            r.username@ == Seq::<char>::empty(),
            r.uuid@ == Seq::<char>::empty(),
    {
        UserProfile { username: String::new(), uuid: String::new() }
    }
}

impl Default for UserProfiles {
    fn default() -> (r: UserProfiles)
        ensures
            r.offline.username@ == Seq::<char>::empty(),
            r.offline.uuid@ == Seq::<char>::empty(),
            r.online.username@ == Seq::<char>::empty(),
            r.online.uuid@ == Seq::<char>::empty(),
    {
        UserProfiles { offline: UserProfile::default(), online: UserProfile::default() }
    }
}

impl Default for UserConfig {
    fn default() -> (r: UserConfig)
        ensures
            r.user_profile.offline.username@ == Seq::<char>::empty(),
            r.user_profile.offline.uuid@ == Seq::<char>::empty(),
            r.user_profile.online.username@ == Seq::<char>::empty(),
            r.user_profile.online.uuid@ == Seq::<char>::empty(),
            r.username@ == Map::<Seq<char>, Seq<char>>::empty(),
    {
        UserConfig { user_profile: UserProfiles::default(), username: NameMap::new() }
    }
}

impl Default for LaunchConfig {
    /// Offline launches, no cached runtime.
    fn default() -> (r: LaunchConfig)
        ensures
            r.offline,
            r.java_paths@ == Map::<u32, Seq<char>>::empty(),
    {
        LaunchConfig { java_paths: JavaPaths::new(), offline: true }
    }
}

impl Default for LauncherConfig {
    fn default() -> (r: LauncherConfig)
        ensures
            r.user_profile.offline.username@ == Seq::<char>::empty(),
            r.user_profile.offline.uuid@ == Seq::<char>::empty(),
            r.user_profile.online.username@ == Seq::<char>::empty(),
            r.user_profile.online.uuid@ == Seq::<char>::empty(),
            r.username@ == Map::<Seq<char>, Seq<char>>::empty(),
            r.java_paths@ == Map::<u32, Seq<char>>::empty(),
    {
        LauncherConfig {
            user_profile: UserProfiles::default(),
            username: NameMap::new(),
            java_paths: JavaPaths::new(),
        }
    }
}

/// `set`: a given name or UUID replaces the offline identity's; a given
/// offline flag replaces the launch mode. Nothing else changes.
pub fn apply_set(config: &mut UserConfig, launch_config: &mut LaunchConfig, args: &SetArgs)
    ensures
        final(config).user_profile.offline.username@ == match args.name {
            Some(n) => n@,
            None => old(config).user_profile.offline.username@,
        },
        final(config).user_profile.offline.uuid@ == match args.uuid {
            Some(u) => u@,
            None => old(config).user_profile.offline.uuid@,
        },
        final(config).user_profile.online.username@ == old(config).user_profile.online.username@,
        final(config).user_profile.online.uuid@ == old(config).user_profile.online.uuid@,
        final(config).username@ == old(config).username@,
        final(launch_config).offline == match args.offline {
            Some(b) => b,
            None => old(launch_config).offline,
        },
        final(launch_config).java_paths@ == old(launch_config).java_paths@,
{
    if let Some(username) = &args.name {
        config.user_profile.offline.username = username.clone();
    }
    if let Some(uuid) = &args.uuid {
        config.user_profile.offline.uuid = uuid.clone();
    }
    if let Some(judge) = args.offline {
        launch_config.offline = judge;
    }
}

/// A successful sign-in: the online identity becomes the player's, and the
/// name is remembered with its UUID.
pub fn record_login(config: &mut UserConfig, name: &String, id: &String)
    ensures
        final(config).user_profile.online.username@ == name@,
        final(config).user_profile.online.uuid@ == id@,
        final(config).user_profile.offline.username@ == old(config).user_profile.offline.username@,
        final(config).user_profile.offline.uuid@ == old(config).user_profile.offline.uuid@,
        final(config).username@ == old(config).username@.insert(name@, id@),
{
    config.user_profile.online.username = name.clone();
    config.user_profile.online.uuid = id.clone();
    config.username.insert(name.clone(), id.clone());
}

pub open spec fn user_not_found_message(name: Seq<char>) -> Seq<char> {
    "User "@ + name + " not found"@
}

/// Sign-out of `name`: when the name is known, its entry is dropped, the
/// online identity is cleared and the UUID whose credentials are to be
/// deleted is returned; otherwise the configuration stays as it was.
pub fn sign_out(config: &mut UserConfig, name: &str) -> (r: Result<String, String>)
    ensures
        match r {
            Ok(uuid) => {
                &&& old(config).username@.dom().contains(name@)
                &&& uuid@ == old(config).username@[name@]
                &&& final(config).username@ == old(config).username@.remove(name@)
                &&& final(config).user_profile.online.username@ == Seq::<char>::empty()
                &&& final(config).user_profile.online.uuid@ == Seq::<char>::empty()
                &&& final(config).user_profile.offline.username@ == old(
                    config,
                ).user_profile.offline.username@
                &&& final(config).user_profile.offline.uuid@ == old(config).user_profile.offline.uuid@
            },
            Err(m) => {
                &&& !old(config).username@.dom().contains(name@)
                &&& m@ == user_not_found_message(name@)
                &&& final(config).username@ == old(config).username@
                &&& final(config).user_profile.online.username@ == old(
                    config,
                ).user_profile.online.username@
                &&& final(config).user_profile.online.uuid@ == old(config).user_profile.online.uuid@
                &&& final(config).user_profile.offline.username@ == old(
                    config,
                ).user_profile.offline.username@
                &&& final(config).user_profile.offline.uuid@ == old(config).user_profile.offline.uuid@
            },
        },
{
    match config.username.get(name) {
        Some(uuid) => {
            config.username.remove(name);
            config.user_profile.online.username = String::new();
            config.user_profile.online.uuid = String::new();
            Ok(uuid)
        },
        None => {
            let mut m: Vec<char> = Vec::new();
            extend_str(&mut m, "User ");
            extend_str(&mut m, name);
            extend_str(&mut m, " not found");
            Err(string_from_chars(m.as_slice()))
        },
    }
}

/// Signing in and then out of the same name leaves no entry for it, and the
/// entries of other names as they were before signing in.
pub proof fn law_login_then_sign_out(before: Map<Seq<char>, Seq<char>>, name: Seq<char>, id: Seq<char>)
    ensures
        before.insert(name, id).dom().contains(name),
        before.insert(name, id)[name] == id,
        before.insert(name, id).remove(name) == before.remove(name),
{
    assert(before.insert(name, id).remove(name) =~= before.remove(name));
}

/// A cached runtime is read back as written, and other versions keep theirs.
pub proof fn law_java_cache_read_after_write(before: Map<u32, Seq<char>>, major: u32, path: Seq<char>, other: u32)
    requires
        other != major,
    ensures
        before.insert(major, path)[major] == path,
        before.insert(major, path).dom().contains(other) == before.dom().contains(other),
        before.dom().contains(other) ==> before.insert(major, path)[other] == before[other],
{
}

} // verus!
