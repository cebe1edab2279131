//! Association lists with unique keys, seen as finite maps.
use vstd::prelude::*;

verus! {

/// The map an association list denotes, later entries taking precedence.
pub open spec fn assoc_map<K, V>(s: Seq<(K, V)>) -> Map<K, V>
    decreases s.len(),
{
    if s.len() == 0 {
        Map::empty()
    } else {
        assoc_map(s.drop_last()).insert(s.last().0, s.last().1)
    }
}

/// No key occurs twice.
pub open spec fn keys_unique<K, V>(s: Seq<(K, V)>) -> bool {
    forall|i: int, j: int| 0 <= i < s.len() && 0 <= j < s.len() && i != j ==> #[trigger] s[i].0
        != #[trigger] s[j].0
}

pub open spec fn has_key<K, V>(s: Seq<(K, V)>, k: K) -> bool {
    exists|i: int| 0 <= i < s.len() && #[trigger] s[i].0 == k
}

pub proof fn lemma_assoc_dom<K, V>(s: Seq<(K, V)>, k: K)
    ensures
        assoc_map(s).dom().contains(k) <==> has_key(s, k),
    decreases s.len(),
{
    if s.len() > 0 {
        lemma_assoc_dom(s.drop_last(), k);
        if has_key(s.drop_last(), k) {
            let i = choose|i: int| 0 <= i < s.drop_last().len() && #[trigger] s.drop_last()[i].0 == k;
            assert(s[i].0 == k);
        }
        if has_key(s, k) && s.last().0 != k {
            let i = choose|i: int| 0 <= i < s.len() && #[trigger] s[i].0 == k;
            assert(i != s.len() - 1);
            assert(s.drop_last()[i].0 == k);
        }
        if s.last().0 == k {
            assert(s[s.len() - 1].0 == k);
        }
    }
}

pub proof fn lemma_assoc_lookup<K, V>(s: Seq<(K, V)>, i: int)
    requires
        keys_unique(s),
        0 <= i < s.len(),
    ensures
        assoc_map(s).dom().contains(s[i].0),
        assoc_map(s)[s[i].0] == s[i].1,
    decreases s.len(),
{
    if i < s.len() - 1 {
        let t = s.drop_last();
        assert(keys_unique(t)) by {
            assert forall|a: int, b: int| 0 <= a < t.len() && 0 <= b < t.len() && a != b implies #[trigger] t[a].0
                != #[trigger] t[b].0 by {
                assert(t[a] == s[a] && t[b] == s[b]);
            }
        }
        lemma_assoc_lookup(t, i);
        assert(t[i] == s[i]);
        assert(s[i].0 != s[s.len() - 1].0);
    }
}

/// Two lists with unique keys denote the same map when they hold the same
/// keys and agree on each.
pub proof fn lemma_assoc_ext<K, V>(s: Seq<(K, V)>, m: Map<K, V>)
    requires
        keys_unique(s),
        forall|k: K| m.dom().contains(k) <==> has_key(s, k),
        forall|i: int| #![trigger s[i]] 0 <= i < s.len() ==> m.dom().contains(s[i].0) && m[s[i].0] == s[i].1,
    ensures
        assoc_map(s) == m,
{
    assert forall|k: K| assoc_map(s).dom().contains(k) <==> m.dom().contains(k) by {
        lemma_assoc_dom(s, k);
    }
    assert forall|k: K| #[trigger] assoc_map(s).dom().contains(k) implies assoc_map(s)[k] == m[k] by {
        lemma_assoc_dom(s, k);
        let i = choose|i: int| 0 <= i < s.len() && #[trigger] s[i].0 == k;
        lemma_assoc_lookup(s, i);
        assert(m[s[i].0] == s[i].1);
    }
    assert(assoc_map(s) =~= m);
}

} // verus!
