//! Association lists read as maps: the model of the registries, whose keys
//! (addresses, IPs and pair codes) are not integers. vstd's model of `HashMap`
//! holds only for key types that obey its key model, which it grants to
//! integer types alone, so the registries keep their entries in a `Vec` with
//! distinct keys and are read through `assoc_map`.
use vstd::prelude::*;

verus! {

/// The map that an association list stands for; a later entry wins.
pub open spec fn assoc_map<K, V>(s: Seq<(K, V)>) -> Map<K, V>
    decreases s.len(),
{
    if s.len() == 0 {
        Map::empty()
    } else {
        assoc_map(s.drop_last()).insert(s.last().0, s.last().1)
    }
}

/// No key occurs twice.
pub open spec fn keys_distinct<K, V>(s: Seq<(K, V)>) -> bool {
    forall|i: int, j: int| 0 <= i < j < s.len() ==> s[i].0 != s[j].0
}

/// The index of the entry with key `k`, or -1.
pub open spec fn index_of_key<K, V>(s: Seq<(K, V)>, k: K) -> int
    decreases s.len(),
{
    if s.len() == 0 {
        -1
    } else if s.last().0 == k {
        s.len() - 1
    } else {
        index_of_key(s.drop_last(), k)
    }
}

pub proof fn lemma_index_of_key<K, V>(s: Seq<(K, V)>, k: K)
    ensures
        -1 <= index_of_key(s, k) < s.len(),
        index_of_key(s, k) >= 0 ==> s[index_of_key(s, k)].0 == k,
        index_of_key(s, k) == -1 <==> (forall|i: int| 0 <= i < s.len() ==> s[i].0 != k),
        assoc_map(s).dom().contains(k) <==> index_of_key(s, k) >= 0,
        index_of_key(s, k) >= 0 ==> assoc_map(s)[k] == s[index_of_key(s, k)].1,
    decreases s.len(),
{
    if s.len() > 0 {
        lemma_index_of_key(s.drop_last(), k);
        if s.last().0 != k {
            assert forall|i: int| 0 <= i < s.len() && s[i].0 == k implies i < s.len() - 1 by {}
            if index_of_key(s, k) == -1 {
                assert forall|i: int| 0 <= i < s.len() implies s[i].0 != k by {
                    if i < s.len() - 1 {
                        assert(s.drop_last()[i] == s[i]);
                    }
                }
            }
        }
    }
}

/// With distinct keys, each entry is what the map gives for its key.
pub proof fn lemma_assoc_entry<K, V>(s: Seq<(K, V)>, i: int)
    requires
        keys_distinct(s),
        0 <= i < s.len(),
    ensures
        index_of_key(s, s[i].0) == i,
        assoc_map(s).dom().contains(s[i].0),
        assoc_map(s)[s[i].0] == s[i].1,
{
    lemma_index_of_key(s, s[i].0);
    let j = index_of_key(s, s[i].0);
    assert(j == i);
}

/// The domain of the map is the set of keys.
pub proof fn lemma_assoc_dom<K, V>(s: Seq<(K, V)>, k: K)
    ensures
        assoc_map(s).dom().contains(k) <==> (exists|i: int| 0 <= i < s.len() && s[i].0 == k),
{
    lemma_index_of_key(s, k);
    if assoc_map(s).dom().contains(k) {
        let i = index_of_key(s, k);
        assert(0 <= i < s.len() && s[i].0 == k);
    }
}

/// Appending an entry with a fresh key keeps the keys distinct and inserts it.
pub proof fn lemma_assoc_push<K, V>(s: Seq<(K, V)>, k: K, v: V)
    requires
        keys_distinct(s),
        !assoc_map(s).dom().contains(k),
    ensures
        keys_distinct(s.push((k, v))),
        assoc_map(s.push((k, v))) == assoc_map(s).insert(k, v),
{
    lemma_index_of_key(s, k);
    let t = s.push((k, v));
    assert(t.drop_last() =~= s);
    assert forall|i: int, j: int| 0 <= i < j < t.len() implies t[i].0 != t[j].0 by {
        if j == s.len() {
            assert(t[i] == s[i]);
        } else {
            assert(t[i] == s[i] && t[j] == s[j]);
        }
    }
}

/// Replacing the value of entry `i` inserts the new value under its key.
pub proof fn lemma_assoc_update<K, V>(s: Seq<(K, V)>, i: int, v: V)
    requires
        keys_distinct(s),
        0 <= i < s.len(),
    ensures
        keys_distinct(s.update(i, (s[i].0, v))),
        assoc_map(s.update(i, (s[i].0, v))) == assoc_map(s).insert(s[i].0, v),
    decreases s.len(),
{
    let t = s.update(i, (s[i].0, v));
    assert forall|a: int, b: int| 0 <= a < b < t.len() implies t[a].0 != t[b].0 by {
        assert(t[a].0 == s[a].0 && t[b].0 == s[b].0);
    }
    if i == s.len() - 1 {
        assert(t.drop_last() =~= s.drop_last());
        assert(assoc_map(t) =~= assoc_map(s).insert(s[i].0, v));
    } else {
        let d = s.drop_last();
        assert forall|a: int, b: int| 0 <= a < b < d.len() implies d[a].0 != d[b].0 by {
            assert(d[a] == s[a] && d[b] == s[b]);
        }
        lemma_assoc_update(d, i, v);
        assert(t.drop_last() =~= d.update(i, (d[i].0, v)));
        assert(s.last().0 != s[i].0);
        assert(assoc_map(t) =~= assoc_map(s).insert(s[i].0, v));
    }
}

/// Removing entry `i` removes its key.
pub proof fn lemma_assoc_remove<K, V>(s: Seq<(K, V)>, i: int)
    requires
        keys_distinct(s),
        0 <= i < s.len(),
    ensures
        keys_distinct(s.remove(i)),
        assoc_map(s.remove(i)) == assoc_map(s).remove(s[i].0),
    decreases s.len(),
{
    let t = s.remove(i);
    assert forall|a: int, b: int| 0 <= a < b < t.len() implies t[a].0 != t[b].0 by {
        let a2 = if a < i { a } else { a + 1 };
        let b2 = if b < i { b } else { b + 1 };
        assert(t[a] == s[a2] && t[b] == s[b2]);
    }
    let d = s.drop_last();
    assert forall|a: int, b: int| 0 <= a < b < d.len() implies d[a].0 != d[b].0 by {
        assert(d[a] == s[a] && d[b] == s[b]);
    }
    if i == s.len() - 1 {
        assert(t =~= d);
        lemma_index_of_key(d, s[i].0);
        assert forall|a: int| 0 <= a < d.len() implies d[a].0 != s[i].0 by {
            assert(d[a] == s[a]);
        }
        assert(assoc_map(t) =~= assoc_map(s).remove(s[i].0));
    } else {
        lemma_assoc_remove(d, i);
        assert(t.drop_last() =~= d.remove(i));
        assert(t.last() == s.last());
        assert(s.last().0 != s[i].0);
        assert(assoc_map(t) =~= assoc_map(s).remove(s[i].0));
    }
}

/// With distinct keys the map has as many keys as the list has entries.
pub proof fn lemma_assoc_len<K, V>(s: Seq<(K, V)>)
    requires
        keys_distinct(s),
    ensures
        assoc_map(s).dom().finite(),
        assoc_map(s).dom().len() == s.len(),
    decreases s.len(),
{
    if s.len() > 0 {
        let d = s.drop_last();
        assert forall|a: int, b: int| 0 <= a < b < d.len() implies d[a].0 != d[b].0 by {
            assert(d[a] == s[a] && d[b] == s[b]);
        }
        lemma_assoc_len(d);
        lemma_index_of_key(d, s.last().0);
        assert forall|a: int| 0 <= a < d.len() implies d[a].0 != s.last().0 by {
            assert(d[a] == s[a]);
        }
    }
}

} // verus!
