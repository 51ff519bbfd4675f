//! The store port: per-key field maps with a group TTL.
//!
//! A backend maps a group key to a group: the TTL it was last given and
//! its fields, a sequence of `(field, bytes)` pairs with pairwise
//! distinct field names kept in insertion order. Writing a field
//! refreshes the whole group's TTL; expiry is the backend's business and
//! best-effort, so readers tolerate an absent group.

use vstd::prelude::*;

use crate::errors::StorageError;

verus! {

/// One group: its last-set TTL and its fields in insertion order.
pub struct KvGroupView {
    pub ttl_ms: u64,
    pub fields: Seq<(Seq<char>, Seq<u8>)>,
}

/// The whole store, by group key.
pub type KvView = Map<Seq<char>, KvGroupView>;

/// The fields of a group, or nothing for an absent group.
pub open spec fn group_fields(v: KvView, key: Seq<char>) -> Seq<(Seq<char>, Seq<u8>)> {
    if v.contains_key(key) {
        v[key].fields
    } else {
        Seq::empty()
    }
}

/// Some field has this name.
pub open spec fn fields_has(fields: Seq<(Seq<char>, Seq<u8>)>, name: Seq<char>) -> bool {
    exists|i: int| 0 <= i < fields.len() && fields[i].0 == name
}

/// The first position holding this name; the length when there is none.
pub open spec fn field_index_of(fields: Seq<(Seq<char>, Seq<u8>)>, name: Seq<char>) -> int
    decreases fields.len(),
{
    if fields.len() == 0 {
        0
    } else if fields[0].0 == name {
        0
    } else {
        1 + field_index_of(fields.drop_first(), name)
    }
}

/// Writes a field: in place when the name exists, appended otherwise.
pub open spec fn fields_insert(
    fields: Seq<(Seq<char>, Seq<u8>)>,
    name: Seq<char>,
    value: Seq<u8>,
) -> Seq<(Seq<char>, Seq<u8>)> {
    if fields_has(fields, name) {
        fields.update(field_index_of(fields, name), (name, value))
    } else {
        fields.push((name, value))
    }
}

/// Drops the field with this name, if any.
pub open spec fn fields_remove(
    fields: Seq<(Seq<char>, Seq<u8>)>,
    name: Seq<char>,
) -> Seq<(Seq<char>, Seq<u8>)> {
    if fields_has(fields, name) {
        fields.remove(field_index_of(fields, name))
    } else {
        fields
    }
}

/// Field names are pairwise distinct.
pub open spec fn fields_distinct(fields: Seq<(Seq<char>, Seq<u8>)>) -> bool {
    forall|i: int, j: int| 0 <= i < j < fields.len() ==> fields[i].0 != fields[j].0
}

/// What a store looks like after a field write: the group's TTL becomes
/// the given one, and the field is written.
pub open spec fn kv_insert(
    v: KvView,
    key: Seq<char>,
    name: Seq<char>,
    value: Seq<u8>,
    ttl_ms: u64,
) -> KvView {
    v.insert(key, KvGroupView { ttl_ms, fields: fields_insert(group_fields(v, key), name, value) })
}

/// What a store looks like after a field delete; an absent group stays
/// absent.
pub open spec fn kv_delete_field(v: KvView, key: Seq<char>, name: Seq<char>) -> KvView {
    if v.contains_key(key) {
        v.insert(
            key,
            KvGroupView { ttl_ms: v[key].ttl_ms, fields: fields_remove(v[key].fields, name) },
        )
    } else {
        v
    }
}

/// Every group of the store has pairwise distinct field names.
pub open spec fn kv_distinct(v: KvView) -> bool {
    forall|key: Seq<char>| #[trigger]
        v.contains_key(key) ==> fields_distinct(v[key].fields)
}

/// When `name` stands at `i` and nowhere before, it is the first index.
pub proof fn lemma_field_index_at(fields: Seq<(Seq<char>, Seq<u8>)>, name: Seq<char>, i: int)
    requires
        0 <= i < fields.len(),
        fields[i].0 == name,
        forall|j: int| 0 <= j < i ==> fields[j].0 != name,
    ensures
        fields_has(fields, name),
        field_index_of(fields, name) == i,
    decreases fields.len(),
{
    if i > 0 {
        assert(fields[0].0 != name);
        let rest = fields.drop_first();
        assert(rest[i - 1] == fields[i]);
        assert(forall|j: int| 0 <= j < i - 1 ==> rest[j] == fields[j + 1]);
        lemma_field_index_at(rest, name, i - 1);
    }
}

/// A name no field has is not found.
pub proof fn lemma_field_index_absent(fields: Seq<(Seq<char>, Seq<u8>)>, name: Seq<char>)
    requires
        forall|j: int| 0 <= j < fields.len() ==> fields[j].0 != name,
    ensures
        !fields_has(fields, name),
{
}

/// Writing a field keeps field names pairwise distinct.
pub proof fn lemma_fields_insert_distinct(
    fields: Seq<(Seq<char>, Seq<u8>)>,
    name: Seq<char>,
    value: Seq<u8>,
)
    requires
        fields_distinct(fields),
    ensures
        fields_distinct(fields_insert(fields, name, value)),
{
    if fields_has(fields, name) {
        let i = field_index_of(fields, name);
        lemma_field_index_bounds(fields, name);
        let t = fields.update(i, (name, value));
        assert forall|p: int, q: int| 0 <= p < q < t.len() implies t[p].0 != t[q].0 by {
            if p != i && q != i {
                assert(t[p] == fields[p] && t[q] == fields[q]);
            } else if p == i {
                assert(t[q] == fields[q]);
                assert(fields[i].0 == name);
            } else {
                assert(t[p] == fields[p]);
                assert(fields[i].0 == name);
            }
        }
    } else {
        let t = fields.push((name, value));
        assert forall|p: int, q: int| 0 <= p < q < t.len() implies t[p].0 != t[q].0 by {
            if q == fields.len() {
                assert(t[p] == fields[p]);
                assert(fields[p].0 != name);
            } else {
                assert(t[p] == fields[p] && t[q] == fields[q]);
            }
        }
    }
}

/// The found index is in range and holds the name.
pub proof fn lemma_field_index_bounds(fields: Seq<(Seq<char>, Seq<u8>)>, name: Seq<char>)
    requires
        fields_has(fields, name),
    ensures
        0 <= field_index_of(fields, name) < fields.len(),
        fields[field_index_of(fields, name)].0 == name,
    decreases fields.len(),
{
    if fields.len() > 0 && fields[0].0 != name {
        let rest = fields.drop_first();
        assert forall|i: int|
            0 <= i < fields.len() && fields[i].0 == name implies 1 <= i by {}
        let i = choose|i: int| 0 <= i < fields.len() && fields[i].0 == name;
        assert(rest[i - 1] == fields[i]);
        lemma_field_index_bounds(rest, name);
    }
}

/// Dropping a field keeps field names pairwise distinct.
pub proof fn lemma_fields_remove_distinct(fields: Seq<(Seq<char>, Seq<u8>)>, name: Seq<char>)
    requires
        fields_distinct(fields),
    ensures
        fields_distinct(fields_remove(fields, name)),
{
    if fields_has(fields, name) {
        let i = field_index_of(fields, name);
        lemma_field_index_bounds(fields, name);
        let t = fields.remove(i);
        assert forall|p: int, q: int| 0 <= p < q < t.len() implies t[p].0 != t[q].0 by {
            let p0 = if p < i {
                p
            } else {
                p + 1
            };
            let q0 = if q < i {
                q
            } else {
                q + 1
            };
            assert(t[p] == fields[p0]);
            assert(t[q] == fields[q0]);
        }
    }
}

/// The store port. Every backend presents itself as a [`KvView`]; the
/// in-process backend proves this contract, a remote backend is wired up
/// outside the library and trusted to it.
pub trait KvStore: Sized {
    /// The store's contents.
    spec fn kv_view(&self) -> KvView;

    /// The backend's own well-formedness.
    spec fn inv(&self) -> bool;

    /// Every group it presents has distinct field names.
    proof fn inv_distinct(&self)
        requires
            self.inv(),
        ensures
            kv_distinct(self.kv_view()),
    ;

    /// Sets one field of a group's map and refreshes the group's TTL.
    fn insert_map_key(&mut self, key: String, map_key: String, value: Vec<u8>, ttl_ms: u64) -> (r:
        Result<(), StorageError>)
        requires
            old(self).inv(),
        ensures
            final(self).inv(),
            match r {
                Ok(()) => final(self).kv_view() == kv_insert(
                    old(self).kv_view(),
                    key@,
                    map_key@,
                    value@,
                    ttl_ms,
                ),
                Err(_) => final(self).kv_view() == old(self).kv_view(),
            },
    ;

    /// Reads a whole group; an absent group reads as empty.
    fn get_map(&mut self, key: &String) -> (r: Result<Vec<(String, Vec<u8>)>, StorageError>)
        requires
            old(self).inv(),
        ensures
            final(self).inv(),
            final(self).kv_view() == old(self).kv_view(),
            match r {
                Ok(entries) => entries@.map_values(|p: (String, Vec<u8>)| (p.0@, p.1@))
                    == group_fields(old(self).kv_view(), key@),
                Err(_) => true,
            },
    ;

    /// Deletes a single field of a group.
    fn delete_map_value(&mut self, key: &String, map_key: &String) -> (r: Result<(), StorageError>)
        requires
            old(self).inv(),
        ensures
            final(self).inv(),
            match r {
                Ok(()) => final(self).kv_view() == kv_delete_field(
                    old(self).kv_view(),
                    key@,
                    map_key@,
                ),
                Err(_) => final(self).kv_view() == old(self).kv_view(),
            },
    ;

    /// Deletes a whole group.
    fn delete_map(&mut self, key: &String) -> (r: Result<(), StorageError>)
        requires
            old(self).inv(),
        ensures
            final(self).inv(),
            match r {
                Ok(()) => final(self).kv_view() == old(self).kv_view().remove(key@),
                Err(_) => final(self).kv_view() == old(self).kv_view(),
            },
    ;
}

/// Builds store handles: each logical user of the backend gets its own.
pub trait KvStoreFactory: Sized {
    type Store: KvStore;

    /// Opens a store handle.
    fn create(&self) -> (r: Result<Self::Store, StorageError>)
        ensures
            r matches Ok(s) ==> s.inv(),
    ;
}

} // verus!
