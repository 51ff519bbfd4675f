//! Association lists over `String` keys, and their abstraction to
//! `Map<Seq<char>, _>`. The containers of this crate (field maps, the
//! in-memory store) keep their entries in a `Vec` with pairwise distinct
//! keys; these helpers give them a common mathematical view.

use vstd::prelude::*;

verus! {

use vstd::pervasive::VecAdditionalExecFns;

/// The map denoted by an association list; later entries win.
pub open spec fn assoc_map<V: View>(s: Seq<(String, V)>) -> Map<Seq<char>, V::V>
    decreases s.len(),
{
    if s.len() == 0 {
        Map::empty()
    } else {
        assoc_map(s.drop_last()).insert(s.last().0@, s.last().1@)
    }
}

/// Keys of the list are pairwise distinct.
pub open spec fn distinct_keys<V>(s: Seq<(String, V)>) -> bool {
    forall|i: int, j: int| 0 <= i < j < s.len() ==> s[i].0@ != s[j].0@
}

/// A key the denoted map holds stands somewhere in the list.
pub proof fn lemma_assoc_map_key_exists<V: View>(s: Seq<(String, V)>, k: Seq<char>)
    requires
        assoc_map(s).contains_key(k),
    ensures
        exists|i: int| 0 <= i < s.len() && s[i].0@ == k,
    decreases s.len(),
{
    if s.len() > 0 {
        if k == s.last().0@ {
            assert(s[s.len() - 1].0@ == k);
        } else {
            lemma_assoc_map_key_exists(s.drop_last(), k);
            let i = choose|i: int| 0 <= i < s.drop_last().len() && s.drop_last()[i].0@ == k;
            assert(s[i].0@ == k);
        }
    }
}

/// With distinct keys, every entry of the list is reflected in the map.
pub proof fn lemma_assoc_map_index<V: View>(s: Seq<(String, V)>, i: int)
    requires
        distinct_keys(s),
        0 <= i < s.len(),
    ensures
        assoc_map(s).contains_key(s[i].0@),
        assoc_map(s)[s[i].0@] == s[i].1@,
    decreases s.len(),
{
    if i == s.len() - 1 {
    } else {
        lemma_assoc_map_index(s.drop_last(), i);
        assert(s.drop_last()[i] == s[i]);
        assert(s.last().0@ != s[i].0@);
    }
}

/// Updating the entry at position `i` denotes a map insert of that key.
pub proof fn lemma_assoc_map_update<V: View>(s: Seq<(String, V)>, i: int, k: String, v: V)
    requires
        distinct_keys(s),
        0 <= i < s.len(),
        s[i].0@ == k@,
    ensures
        assoc_map(s.update(i, (k, v))) =~= assoc_map(s).insert(k@, v@),
        distinct_keys(s.update(i, (k, v))),
    decreases s.len(),
{
    let t = s.update(i, (k, v));
    assert forall|p: int, q: int| 0 <= p < q < t.len() implies t[p].0@ != t[q].0@ by {
        assert(s[p].0@ != s[q].0@);
    }
    if i == s.len() - 1 {
        assert(t.drop_last() =~= s.drop_last());
    } else {
        lemma_assoc_map_update(s.drop_last(), i, k, v);
        assert(t.drop_last() =~= s.drop_last().update(i, (k, v)));
        assert(t.last() == s.last());
        assert(s.last().0@ != k@);
    }
}

/// Appending a fresh key denotes a map insert, and keeps the keys distinct.
pub proof fn lemma_assoc_map_push<V: View>(s: Seq<(String, V)>, k: String, v: V)
    requires
        distinct_keys(s),
        forall|i: int| 0 <= i < s.len() ==> s[i].0@ != k@,
    ensures
        assoc_map(s.push((k, v))) =~= assoc_map(s).insert(k@, v@),
        distinct_keys(s.push((k, v))),
{
    assert(s.push((k, v)).drop_last() =~= s);
}

/// Removing the entry at position `i` denotes a map remove.
pub proof fn lemma_assoc_map_remove<V: View>(s: Seq<(String, V)>, i: int)
    requires
        distinct_keys(s),
        0 <= i < s.len(),
    ensures
        assoc_map(s.remove(i)) =~= assoc_map(s).remove(s[i].0@),
        distinct_keys(s.remove(i)),
    decreases s.len(),
{
    let t = s.remove(i);
    assert forall|p: int, q: int| 0 <= p < q < t.len() implies t[p].0@ != t[q].0@ by {
        let p0 = if p < i { p } else { p + 1 };
        let q0 = if q < i { q } else { q + 1 };
        assert(t[p] == s[p0]);
        assert(t[q] == s[q0]);
    }
    if i == s.len() - 1 {
        assert(t =~= s.drop_last());
        lemma_assoc_map_absent(s.drop_last(), s[i].0@);
        assert(assoc_map(s.drop_last()) =~= assoc_map(s.drop_last()).remove(s[i].0@));
    } else {
        lemma_assoc_map_remove(s.drop_last(), i);
        assert(t.drop_last() =~= s.drop_last().remove(i));
        assert(t.last() == s.last());
        assert(s.last().0@ != s[i].0@);
    }
}

/// When no entry has the key, the denoted map has no such key.
pub proof fn lemma_assoc_map_absent<V: View>(s: Seq<(String, V)>, k: Seq<char>)
    requires
        forall|i: int| 0 <= i < s.len() ==> s[i].0@ != k,
    ensures
        !assoc_map(s).contains_key(k),
{
    if assoc_map(s).contains_key(k) {
        lemma_assoc_map_key_exists(s, k);
    }
}

/// Looks a key up in an association list.
pub fn assoc_get<'a, V: View>(pairs: &'a Vec<(String, V)>, key: &String) -> (r: Option<&'a V>)
    requires
        distinct_keys(pairs@),
    ensures
        match r {
            Some(v) => assoc_map(pairs@).contains_key(key@) && assoc_map(pairs@)[key@] == v@,
            None => !assoc_map(pairs@).contains_key(key@),
        },
{
    let ghost s = pairs@;
    for i in 0..pairs.len()
        invariant
            distinct_keys(s),
            pairs@ == s,
            forall|j: int| 0 <= j < i ==> s[j].0@ != key@,
    {
        if pairs[i].0 == *key {
            proof {
                lemma_assoc_map_index(s, i as int);
            }
            return Some(&pairs[i].1);
        }
    }
    proof {
        lemma_assoc_map_absent(s, key@);
    }
    None
}

/// Inserts a pair, replacing the entry with the same key if one exists.
pub fn assoc_insert<V: View>(pairs: &mut Vec<(String, V)>, key: String, value: V)
    requires
        distinct_keys(old(pairs)@),
    ensures
        distinct_keys(final(pairs)@),
        assoc_map(final(pairs)@) =~= assoc_map(old(pairs)@).insert(key@, value@),
        final(pairs)@.len() <= old(pairs)@.len() + 1,
{
    let ghost s = old(pairs)@;
    let n = pairs.len();
    for i in 0..n
        invariant
            s == old(pairs)@,
            distinct_keys(s),
            pairs@ == s,
            n == s.len(),
            forall|j: int| 0 <= j < i ==> s[j].0@ != key@,
    {
        if pairs[i].0 == *(&key) {
            proof {
                lemma_assoc_map_update(s, i as int, key, value);
            }
            pairs.set(i, (key, value));
            return ;
        }
    }
    proof {
        lemma_assoc_map_push(s, key, value);
    }
    pairs.push((key, value));
}

/// Removes the entry with the given key, if any.
pub fn assoc_remove<V: View>(pairs: &mut Vec<(String, V)>, key: &String)
    requires
        distinct_keys(old(pairs)@),
    ensures
        distinct_keys(final(pairs)@),
        assoc_map(final(pairs)@) =~= assoc_map(old(pairs)@).remove(key@),
        final(pairs)@.len() <= old(pairs)@.len(),
{
    let ghost s = old(pairs)@;
    let n = pairs.len();
    for i in 0..n
        invariant
            s == old(pairs)@,
            distinct_keys(s),
            pairs@ == s,
            n == s.len(),
            forall|j: int| 0 <= j < i ==> s[j].0@ != key@,
    {
        if pairs[i].0 == *key {
            proof {
                lemma_assoc_map_remove(s, i as int);
            }
            pairs.remove(i);
            return ;
        }
    }
    proof {
        lemma_assoc_map_absent(s, key@);
        assert(assoc_map(s) =~= assoc_map(s).remove(key@));
    }
}

} // verus!
