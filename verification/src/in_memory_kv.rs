//! The in-process store backend. Groups live in a vector keyed by group
//! key; the TTL is recorded but never enforced, since the store's
//! lifetime is the process's. It proves the whole [`KvStore`] contract.

use vstd::prelude::*;

use crate::assoc::{
    assoc_map, distinct_keys, lemma_assoc_map_absent, lemma_assoc_map_index,
    lemma_assoc_map_key_exists, lemma_assoc_map_push, lemma_assoc_map_remove,
    lemma_assoc_map_update,
};
use crate::errors::StorageError;
use crate::kv_store::{
    field_index_of, fields_distinct, fields_has, fields_insert, fields_remove, group_fields,
    kv_delete_field, kv_distinct, kv_insert, KvGroupView, KvStore, KvStoreFactory, KvView,
    lemma_field_index_absent, lemma_field_index_at, lemma_fields_insert_distinct,
    lemma_fields_remove_distinct,
};

verus! {

use vstd::pervasive::VecAdditionalExecFns;

/// The entries of one group.
pub struct KvGroup {
    pub ttl_ms: u64,
    pub fields: Vec<(String, Vec<u8>)>,
}

/// The field sequence a field vector denotes.
pub open spec fn fields_view(s: Seq<(String, Vec<u8>)>) -> Seq<(Seq<char>, Seq<u8>)> {
    s.map_values(|p: (String, Vec<u8>)| (p.0@, p.1@))
}

impl View for KvGroup {
    type V = KvGroupView;

    open spec fn view(&self) -> KvGroupView {
        KvGroupView { ttl_ms: self.ttl_ms, fields: fields_view(self.fields@) }
    }
}

/// Copies a byte vector.
fn clone_bytes(v: &Vec<u8>) -> (r: Vec<u8>)
    ensures
        r@ == v@,
{
    let mut r: Vec<u8> = Vec::new();
    let n = v.len();
    for i in 0..n
        invariant
            n == v@.len(),
            r@ =~= v@.subrange(0, i as int),
    {
        r.push(v[i]);
        assert(r@ =~= v@.subrange(0, i as int + 1));
    }
    proof {
        assert(v@.subrange(0, n as int) =~= v@);
    }
    r
}

/// Writes one field of a group vector, in place or appended, following
/// [`fields_insert`].
fn update_fields(fields: &mut Vec<(String, Vec<u8>)>, name: String, value: Vec<u8>)
    ensures
        fields_view(final(fields)@) == fields_insert(fields_view(old(fields)@), name@, value@),
{
    let ghost s = fields_view(old(fields)@);
    let n = fields.len();
    for i in 0..n
        invariant
            s == fields_view(old(fields)@),
            fields@ == old(fields)@,
            n == s.len(),
            forall|j: int| 0 <= j < i ==> s[j].0 != name@,
    {
        if fields[i].0 == *(&name) {
            proof {
                lemma_field_index_at(s, name@, i as int);
            }
            fields.set(i, (name, value));
            proof {
                assert(fields_view(fields@) =~= s.update(i as int, (name@, value@)));
            }
            return ;
        }
        proof {
            assert(s[i as int] == (fields@[i as int].0@, fields@[i as int].1@));
        }
    }
    proof {
        lemma_field_index_absent(s, name@);
    }
    fields.push((name, value));
    proof {
        assert(fields_view(fields@) =~= s.push((name@, value@)));
    }
}

/// Removes one field of a group vector, following [`fields_remove`].
fn remove_field(fields: &mut Vec<(String, Vec<u8>)>, name: &String)
    ensures
        fields_view(final(fields)@) == fields_remove(fields_view(old(fields)@), name@),
{
    let ghost s = fields_view(old(fields)@);
    let n = fields.len();
    for i in 0..n
        invariant
            s == fields_view(old(fields)@),
            fields@ == old(fields)@,
            n == s.len(),
            forall|j: int| 0 <= j < i ==> s[j].0 != name@,
    {
        if fields[i].0 == *name {
            proof {
                lemma_field_index_at(s, name@, i as int);
            }
            fields.remove(i);
            proof {
                assert(fields_view(fields@) =~= s.remove(i as int));
            }
            return ;
        }
        proof {
            assert(s[i as int] == (fields@[i as int].0@, fields@[i as int].1@));
        }
    }
    proof {
        lemma_field_index_absent(s, name@);
    }
}

/// An in-process [`KvStore`], scoped to the process lifetime. The TTL is
/// recorded with each group and otherwise ignored.
pub struct InMemoryKvStore {
    groups: Vec<(String, KvGroup)>,
}

impl InMemoryKvStore {
    pub fn new() -> (r: Self)
        ensures
            r.inv(),
            r.kv_view() =~= Map::<Seq<char>, KvGroupView>::empty(),
    {
        InMemoryKvStore { groups: Vec::new() }
    }

    /// The TTL a group was last given, for inspection.
    pub fn group_ttl(&self, key: &String) -> (r: Option<u64>)
        requires
            self.inv(),
        ensures
            match r {
                Some(ttl_ms) => self.kv_view().contains_key(key@) && self.kv_view()[key@].ttl_ms
                    == ttl_ms,
                None => !self.kv_view().contains_key(key@),
            },
    {
        let ghost s = self.groups@;
        let n = self.groups.len();
        for i in 0..n
            invariant
                s == self.groups@,
                distinct_keys(s),
                n == s.len(),
                forall|j: int| 0 <= j < i ==> s[j].0@ != key@,
        {
            if self.groups[i].0 == *key {
                proof {
                    lemma_assoc_map_index(s, i as int);
                }
                return Some(self.groups[i].1.ttl_ms);
            }
        }
        proof {
            lemma_assoc_map_absent(s, key@);
        }
        None
    }
}

impl KvStore for InMemoryKvStore {
    closed spec fn kv_view(&self) -> KvView {
        assoc_map(self.groups@)
    }

    closed spec fn inv(&self) -> bool {
        distinct_keys(self.groups@) && forall|i: int|
            0 <= i < self.groups@.len() ==> fields_distinct(
                fields_view(#[trigger] self.groups@[i].1.fields@),
            )
    }

    proof fn inv_distinct(&self) {
        let s = self.groups@;
        assert forall|key: Seq<char>| #[trigger]
            self.kv_view().contains_key(key) implies fields_distinct(
            self.kv_view()[key].fields,
        ) by {
            lemma_assoc_map_key_exists(s, key);
            let i = choose|i: int| 0 <= i < s.len() && s[i].0@ == key;
            lemma_assoc_map_index(s, i);
        }
    }

    fn insert_map_key(&mut self, key: String, map_key: String, value: Vec<u8>, ttl_ms: u64) -> (r:
        Result<(), StorageError>)
        ensures
            r is Ok,
    {
        let ghost s = self.groups@;
        let ghost v0 = self.kv_view();
        let n = self.groups.len();
        for i in 0..n
            invariant
                s == old(self).groups@,
                self.groups@ == s,
                v0 == assoc_map(s),
                distinct_keys(s),
                forall|p: int|
                    0 <= p < s.len() ==> fields_distinct(fields_view(#[trigger] s[p].1.fields@)),
                n == s.len(),
                forall|j: int| 0 <= j < i ==> s[j].0@ != key@,
        {
            if self.groups[i].0 == *(&key) {
                let (gk, mut g) = self.groups.remove(i);
                update_fields(&mut g.fields, map_key, value);
                g.ttl_ms = ttl_ms;
                proof {
                    lemma_assoc_map_index(s, i as int);
                    assert(group_fields(v0, key@) == s[i as int].1@.fields);
                }
                let ghost gnew = g@;
                self.groups.insert(i, (gk, g));
                proof {
                    assert(self.groups@ =~= s.update(i as int, (gk, self.groups@[i as int].1)));
                    lemma_assoc_map_update(s, i as int, gk, self.groups@[i as int].1);
                    assert(self.kv_view() =~= kv_insert(v0, key@, map_key@, value@, ttl_ms));
                    lemma_fields_insert_distinct(fields_view(s[i as int].1.fields@), map_key@, value@);
                    assert forall|p: int|
                        0 <= p < self.groups@.len() implies fields_distinct(
                        fields_view(#[trigger] self.groups@[p].1.fields@),
                    ) by {
                        if p != i {
                            assert(self.groups@[p] == s[p]);
                        }
                    }
                }
                return Ok(());
            }
        }
        let mut fields: Vec<(String, Vec<u8>)> = Vec::new();
        let ghost mk = map_key@;
        let ghost vv = value@;
        fields.push((map_key, value));
        let g = KvGroup { ttl_ms, fields };
        proof {
            lemma_assoc_map_absent(s, key@);
            assert(group_fields(v0, key@) =~= Seq::<(Seq<char>, Seq<u8>)>::empty());
            assert(!fields_has(group_fields(v0, key@), mk));
            assert(g@.fields =~= group_fields(v0, key@).push((mk, vv)));
            lemma_assoc_map_push(s, key, g);
        }
        let ghost gv = g@;
        self.groups.push((key, g));
        proof {
            assert(self.kv_view() =~= kv_insert(v0, key@, mk, vv, ttl_ms));
            assert forall|p: int|
                0 <= p < self.groups@.len() implies fields_distinct(
                fields_view(#[trigger] self.groups@[p].1.fields@),
            ) by {
                if p < s.len() {
                    assert(self.groups@[p] == s[p]);
                } else {
                    assert(self.groups@[p].1@ == gv);
                }
            }
        }
        Ok(())
    }

    fn get_map(&mut self, key: &String) -> (r: Result<Vec<(String, Vec<u8>)>, StorageError>)
        ensures
            r is Ok,
    {
        let ghost s = self.groups@;
        let n = self.groups.len();
        for i in 0..n
            invariant
                s == old(self).groups@,
                self.groups@ == s,
                distinct_keys(s),
                forall|p: int|
                    0 <= p < s.len() ==> fields_distinct(fields_view(#[trigger] s[p].1.fields@)),
                n == s.len(),
                forall|j: int| 0 <= j < i ==> s[j].0@ != key@,
        {
            if self.groups[i].0 == *key {
                proof {
                    lemma_assoc_map_index(s, i as int);
                }
                let ghost ii = i as int;
                let src = &self.groups[i].1.fields;
                let mut entries: Vec<(String, Vec<u8>)> = Vec::new();
                let m = src.len();
                for j in 0..m
                    invariant
                        s == old(self).groups@,
                        self.groups@ == s,
                        distinct_keys(s),
                        forall|p: int|
                            0 <= p < s.len() ==> fields_distinct(
                                fields_view(#[trigger] s[p].1.fields@),
                            ),
                        0 <= ii < s.len(),
                        s[ii].0@ == key@,
                        src == &self.groups@[ii].1.fields,
                        m == src@.len(),
                        entries@.len() == j,
                        forall|q: int|
                            0 <= q < j ==> entries@[q].0@ == src@[q].0@ && entries@[q].1@
                                == src@[q].1@,
                {
                    let name = src[j].0.clone();
                    let bytes = clone_bytes(&src[j].1);
                    entries.push((name, bytes));
                }
                proof {
                    assert(entries@.map_values(|p: (String, Vec<u8>)| (p.0@, p.1@)) =~= fields_view(
                        src@,
                    ));
                }
                return Ok(entries);
            }
        }
        proof {
            lemma_assoc_map_absent(s, key@);
            assert(group_fields(self.kv_view(), key@) =~= Seq::<(Seq<char>, Seq<u8>)>::empty());
            assert(Seq::<(String, Vec<u8>)>::empty().map_values(
                |p: (String, Vec<u8>)| (p.0@, p.1@),
            ) =~= Seq::<(Seq<char>, Seq<u8>)>::empty());
        }
        Ok(Vec::new())
    }

    fn delete_map_value(&mut self, key: &String, map_key: &String) -> (r: Result<
        (),
        StorageError,
    >)
        ensures
            r is Ok,
    {
        let ghost s = self.groups@;
        let ghost v0 = self.kv_view();
        let n = self.groups.len();
        for i in 0..n
            invariant
                s == old(self).groups@,
                self.groups@ == s,
                v0 == assoc_map(s),
                distinct_keys(s),
                forall|p: int|
                    0 <= p < s.len() ==> fields_distinct(fields_view(#[trigger] s[p].1.fields@)),
                n == s.len(),
                forall|j: int| 0 <= j < i ==> s[j].0@ != key@,
        {
            if self.groups[i].0 == *key {
                let (gk, mut g) = self.groups.remove(i);
                remove_field(&mut g.fields, map_key);
                proof {
                    lemma_assoc_map_index(s, i as int);
                    lemma_fields_remove_distinct(fields_view(s[i as int].1.fields@), map_key@);
                }
                self.groups.insert(i, (gk, g));
                proof {
                    assert(self.groups@ =~= s.update(i as int, (gk, self.groups@[i as int].1)));
                    lemma_assoc_map_update(s, i as int, gk, self.groups@[i as int].1);
                    assert(self.kv_view() =~= kv_delete_field(v0, key@, map_key@));
                    assert forall|p: int|
                        0 <= p < self.groups@.len() implies fields_distinct(
                        fields_view(#[trigger] self.groups@[p].1.fields@),
                    ) by {
                        if p != i {
                            assert(self.groups@[p] == s[p]);
                        }
                    }
                }
                return Ok(());
            }
        }
        proof {
            lemma_assoc_map_absent(s, key@);
            assert(kv_delete_field(v0, key@, map_key@) == v0);
        }
        Ok(())
    }

    fn delete_map(&mut self, key: &String) -> (r: Result<(), StorageError>)
        ensures
            r is Ok,
    {
        let ghost s = self.groups@;
        let ghost v0 = self.kv_view();
        let n = self.groups.len();
        for i in 0..n
            invariant
                s == old(self).groups@,
                self.groups@ == s,
                v0 == assoc_map(s),
                distinct_keys(s),
                forall|p: int|
                    0 <= p < s.len() ==> fields_distinct(fields_view(#[trigger] s[p].1.fields@)),
                n == s.len(),
                forall|j: int| 0 <= j < i ==> s[j].0@ != key@,
        {
            if self.groups[i].0 == *key {
                proof {
                    lemma_assoc_map_remove(s, i as int);
                }
                self.groups.remove(i);
                proof {
                    assert forall|p: int|
                        0 <= p < self.groups@.len() implies fields_distinct(
                        fields_view(#[trigger] self.groups@[p].1.fields@),
                    ) by {
                        let p0 = if p < i {
                            p
                        } else {
                            p + 1
                        };
                        assert(self.groups@[p] == s[p0]);
                    }
                }
                return Ok(());
            }
        }
        proof {
            lemma_assoc_map_absent(s, key@);
            assert(v0.remove(key@) =~= v0);
        }
        Ok(())
    }
}

/// Builds fresh, empty in-process stores.
#[derive(Clone)]
pub struct InMemoryKvStoreFactory {}

impl InMemoryKvStoreFactory {
    pub fn new() -> (r: Self)
        ensures
            true,
    {
        InMemoryKvStoreFactory {  }
    }
}

impl KvStoreFactory for InMemoryKvStoreFactory {
    type Store = InMemoryKvStore;

    fn create(&self) -> (r: Result<InMemoryKvStore, StorageError>)
        ensures
            r is Ok,
            r matches Ok(s) ==> s.inv() && s.kv_view() =~= Map::<Seq<char>, KvGroupView>::empty(),
    {
        Ok(InMemoryKvStore::new())
    }
}

} // verus!
