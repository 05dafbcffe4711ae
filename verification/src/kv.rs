//! Association sequences. The executable stores keep key/value pairs in
//! vectors with pairwise-distinct keys; contracts read such a sequence as a
//! `Map` through `kvs_map`.

use vstd::prelude::*;

verus! {

/// The map an association sequence denotes; a later pair would win, though
/// the stores keep keys distinct.
pub open spec fn kvs_map<K, V>(s: Seq<(K, V)>) -> Map<K, V>
    decreases s.len(),
{
    if s.len() == 0 {
        Map::empty()
    } else {
        kvs_map(s.drop_last()).insert(s.last().0, s.last().1)
    }
}

/// No key occurs twice.
pub open spec fn distinct_keys<K, V>(s: Seq<(K, V)>) -> bool {
    forall|i: int, j: int| 0 <= i < j < s.len() ==> s[i].0 != s[j].0
}

/// A key is in the map exactly when some pair carries it.
pub proof fn lemma_kvs_map_domain<K, V>(s: Seq<(K, V)>, k: K)
    ensures
        kvs_map(s).contains_key(k) <==> exists|i: int| 0 <= i < s.len() && s[i].0 == k,
    decreases s.len(),
{
    if s.len() > 0 {
        lemma_kvs_map_domain(s.drop_last(), k);
        if s.last().0 == k {
            assert(s[s.len() - 1].0 == k);
        } else if kvs_map(s).contains_key(k) {
            let i = choose|i: int| 0 <= i < s.drop_last().len() && s.drop_last()[i].0 == k;
            assert(s[i].0 == k);
        } else if exists|i: int| 0 <= i < s.len() && s[i].0 == k {
            let i = choose|i: int| 0 <= i < s.len() && s[i].0 == k;
            assert(s.drop_last()[i].0 == k);
        }
    }
}

/// With distinct keys, the pair at `i` is what the map holds for its key.
pub proof fn lemma_kvs_map_index<K, V>(s: Seq<(K, V)>, i: int)
    requires
        distinct_keys(s),
        0 <= i < s.len(),
    ensures
        kvs_map(s).contains_key(s[i].0),
        kvs_map(s)[s[i].0] == s[i].1,
    decreases s.len(),
{
    if i < s.len() - 1 {
        assert(distinct_keys(s.drop_last())) by {
            assert(forall|x: int, y: int|
                0 <= x < y < s.drop_last().len() ==> s.drop_last()[x].0 == s[x].0
                    && s.drop_last()[y].0 == s[y].0);
        }
        lemma_kvs_map_index(s.drop_last(), i);
        assert(s.drop_last()[i] == s[i]);
        assert(s[i].0 != s.last().0);
    }
}

/// Appending a fresh pair inserts it into the map.
pub proof fn lemma_kvs_map_push<K, V>(s: Seq<(K, V)>, k: K, v: V)
    ensures
        kvs_map(s.push((k, v))) == kvs_map(s).insert(k, v),
{
    assert(s.push((k, v)).drop_last() =~= s);
    assert(s.push((k, v)).last() == (k, v));
}

/// Overwriting the value at `i` updates the map at that pair's key.
pub proof fn lemma_kvs_map_update<K, V>(s: Seq<(K, V)>, i: int, v: V)
    requires
        distinct_keys(s),
        0 <= i < s.len(),
    ensures
        kvs_map(s.update(i, (s[i].0, v))) == kvs_map(s).insert(s[i].0, v),
        distinct_keys(s.update(i, (s[i].0, v))),
    decreases s.len(),
{
    let k = s[i].0;
    let t = s.update(i, (k, v));
    assert(distinct_keys(t)) by {
        assert(forall|x: int| 0 <= x < t.len() ==> t[x].0 == s[x].0);
    }
    if i == s.len() - 1 {
        assert(t.drop_last() =~= s.drop_last());
        assert(kvs_map(t) == kvs_map(s.drop_last()).insert(k, v));
        assert(kvs_map(s).insert(k, v) =~= kvs_map(s.drop_last()).insert(k, v));
    } else {
        assert(distinct_keys(s.drop_last())) by {
            assert(forall|x: int|
                0 <= x < s.drop_last().len() ==> s.drop_last()[x].0 == s[x].0);
        }
        assert(s.drop_last()[i] == s[i]);
        lemma_kvs_map_update(s.drop_last(), i, v);
        assert(t.drop_last() =~= s.drop_last().update(i, (k, v)));
        assert(t.last() == s.last());
        assert(k != s.last().0);
        assert(kvs_map(t) == kvs_map(s.drop_last()).insert(k, v).insert(s.last().0, s.last().1));
        assert(kvs_map(s.drop_last()).insert(k, v).insert(s.last().0, s.last().1) =~= kvs_map(
            s,
        ).insert(k, v));
    }
}

/// Removing the pair at `i` removes its key from the map.
pub proof fn lemma_kvs_map_remove<K, V>(s: Seq<(K, V)>, i: int)
    requires
        distinct_keys(s),
        0 <= i < s.len(),
    ensures
        kvs_map(s.remove(i)) == kvs_map(s).remove(s[i].0),
        distinct_keys(s.remove(i)),
    decreases s.len(),
{
    let k = s[i].0;
    let t = s.remove(i);
    assert(distinct_keys(t)) by {
        assert(forall|x: int|
            0 <= x < t.len() ==> t[x] == (if x < i {
                s[x]
            } else {
                s[x + 1]
            }));
    }
    if i == s.len() - 1 {
        assert(t =~= s.drop_last());
        lemma_kvs_map_domain(s.drop_last(), k);
        assert(forall|x: int| 0 <= x < s.drop_last().len() ==> s.drop_last()[x].0 == s[x].0);
        assert(!kvs_map(s.drop_last()).contains_key(k));
        assert(kvs_map(s.drop_last()) =~= kvs_map(s.drop_last()).insert(k, s[i].1).remove(k));
    } else {
        assert(distinct_keys(s.drop_last())) by {
            assert(forall|x: int|
                0 <= x < s.drop_last().len() ==> s.drop_last()[x].0 == s[x].0);
        }
        assert(s.drop_last()[i] == s[i]);
        lemma_kvs_map_remove(s.drop_last(), i);
        assert(t.drop_last() =~= s.drop_last().remove(i));
        assert(t.last() == s.last());
        assert(k != s.last().0);
        assert(kvs_map(t) == kvs_map(s.drop_last()).remove(k).insert(s.last().0, s.last().1));
        assert(kvs_map(s.drop_last()).remove(k).insert(s.last().0, s.last().1) =~= kvs_map(
            s,
        ).remove(k));
    }
}

} // verus!
