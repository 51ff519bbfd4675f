//! Persisted subscriptions, and the typed facade over the store port.
//!
//! A record is keyed by `(operation, operation_id_value)`: all records of
//! one logical key share a store group named `"{operation}:{id_value}"`,
//! and within the group each record sits under its router-assigned `id`.
//! Records are framed to bytes by a length-prefixed encoding that is
//! proved to round-trip; a stored entry that does not decode is dropped
//! by readers rather than poisoning the whole group.

use vstd::prelude::*;

use crate::encoding::{le64_bytes, lemma_take_u64_of, push_u64_le, subrange_vec, take_u64, take_u64_exec};
use crate::errors::StorageError;
use crate::kv_store::{
    fields_distinct, fields_has, fields_remove, group_fields, kv_delete_field, kv_distinct,
    kv_insert, KvStore, KvStoreFactory, KvView,
};
use crate::strings::bytes_to_string;
use vstd::string::StrSliceExecFns;
use vstd::utf8::{decode_utf8, encode_utf8, valid_utf8};

verus! {

broadcast use vstd::utf8::encode_utf8_valid_utf8, vstd::utf8::encode_utf8_decode_utf8;

/// The store group key of a logical subscription key.
pub open spec fn group_key_spec(operation: Seq<char>, operation_id_value: Seq<char>) -> Seq<char> {
    operation + seq![':'] + operation_id_value
}

/// A framed string: its UTF-8 byte length, then its UTF-8 bytes.
pub open spec fn encode_str_spec(s: Seq<char>) -> Seq<u8> {
    le64_bytes(encode_utf8(s).len() as u64) + encode_utf8(s)
}

/// Splits off a framed string and hands back the rest.
pub open spec fn take_str(s: Seq<u8>) -> Option<(Seq<char>, Seq<u8>)> {
    match take_u64(s) {
        Some((n, rest)) => if n <= rest.len() && valid_utf8(rest.take(n as int)) {
            Some((decode_utf8(rest.take(n as int)), rest.skip(n as int)))
        } else {
            None
        },
        None => None,
    }
}

/// A string whose UTF-8 form fits the length frame.
pub open spec fn frameable(s: Seq<char>) -> bool {
    encode_utf8(s).len() <= u64::MAX
}

pub proof fn lemma_take_str_of(f: Seq<char>, rest: Seq<u8>)
    requires
        frameable(f),
    ensures
        take_str(encode_str_spec(f) + rest) == Some((f, rest)),
{
    let eb = encode_utf8(f);
    let n = eb.len() as u64;
    assert(encode_str_spec(f) + rest =~= le64_bytes(n) + (eb + rest));
    lemma_take_u64_of(n, eb + rest);
    assert((eb + rest).take(n as int) =~= eb);
    assert((eb + rest).skip(n as int) =~= rest);
}

/// The mathematical value of a [`SubscriptionRecord`].
pub struct SubscriptionRecordView {
    pub id: Seq<char>,
    pub created_at: u64,
    pub verifier: Seq<char>,
    pub heartbeat_interval_ms: u64,
    pub callback_url: Seq<char>,
    pub operation: Seq<char>,
    pub operation_id_value: Seq<char>,
}

impl SubscriptionRecordView {
    /// The record's store group key.
    pub open spec fn group_key(self) -> Seq<char> {
        group_key_spec(self.operation, self.operation_id_value)
    }

    /// Every string field fits the length frame; true of any record built
    /// in executable code.
    pub open spec fn frameable(self) -> bool {
        frameable(self.id) && frameable(self.verifier) && frameable(self.callback_url)
            && frameable(self.operation) && frameable(self.operation_id_value)
    }
}

/// The framed bytes of a record.
pub open spec fn encode_record_spec(r: SubscriptionRecordView) -> Seq<u8> {
    encode_str_spec(r.id) + le64_bytes(r.created_at) + encode_str_spec(r.verifier) + le64_bytes(
        r.heartbeat_interval_ms,
    ) + encode_str_spec(r.callback_url) + encode_str_spec(r.operation) + encode_str_spec(
        r.operation_id_value,
    )
}

/// The record a byte string frames, if it frames exactly one.
pub open spec fn decode_record_spec(s: Seq<u8>) -> Option<SubscriptionRecordView> {
    match take_str(s) {
        Some((id, s)) => match take_u64(s) {
            Some((created_at, s)) => match take_str(s) {
                Some((verifier, s)) => match take_u64(s) {
                    Some((heartbeat_interval_ms, s)) => match take_str(s) {
                        Some((callback_url, s)) => match take_str(s) {
                            Some((operation, s)) => match take_str(s) {
                                Some((operation_id_value, s)) => if s.len() == 0 {
                                    Some(
                                        SubscriptionRecordView {
                                            id,
                                            created_at,
                                            verifier,
                                            heartbeat_interval_ms,
                                            callback_url,
                                            operation,
                                            operation_id_value,
                                        },
                                    )
                                } else {
                                    None
                                },
                                None => None,
                            },
                            None => None,
                        },
                        None => None,
                    },
                    None => None,
                },
                None => None,
            },
            None => None,
        },
        None => None,
    }
}

/// Encoding loses nothing: a frameable record decodes back to itself.
pub proof fn lemma_record_roundtrip(r: SubscriptionRecordView)
    requires
        r.frameable(),
    ensures
        decode_record_spec(encode_record_spec(r)) == Some(r),
{
    let t6 = encode_str_spec(r.operation_id_value);
    let t5 = encode_str_spec(r.operation) + t6;
    let t4 = encode_str_spec(r.callback_url) + t5;
    let t3 = le64_bytes(r.heartbeat_interval_ms) + t4;
    let t2 = encode_str_spec(r.verifier) + t3;
    let t1 = le64_bytes(r.created_at) + t2;
    assert(encode_record_spec(r) =~= encode_str_spec(r.id) + t1);
    lemma_take_str_of(r.id, t1);
    lemma_take_u64_of(r.created_at, t2);
    lemma_take_str_of(r.verifier, t3);
    lemma_take_u64_of(r.heartbeat_interval_ms, t4);
    lemma_take_str_of(r.callback_url, t5);
    lemma_take_str_of(r.operation, t6);
    assert(t6 =~= encode_str_spec(r.operation_id_value) + Seq::<u8>::empty());
    lemma_take_str_of(r.operation_id_value, Seq::empty());
}

/// A persisted subscription. Identity is `id`; the logical key is
/// `(operation, operation_id_value)`. Records are created at
/// registration, never mutated, and deleted on group expiry, on a failed
/// callback, or when a terminal topic drains the group.
pub struct SubscriptionRecord {
    pub id: String,
    pub created_at: u64,
    pub verifier: String,
    pub heartbeat_interval_ms: u64,
    pub callback_url: String,
    pub operation: String,
    pub operation_id_value: String,
}

impl View for SubscriptionRecord {
    type V = SubscriptionRecordView;

    open spec fn view(&self) -> SubscriptionRecordView {
        SubscriptionRecordView {
            id: self.id@,
            created_at: self.created_at,
            verifier: self.verifier@,
            heartbeat_interval_ms: self.heartbeat_interval_ms,
            callback_url: self.callback_url@,
            operation: self.operation@,
            operation_id_value: self.operation_id_value@,
        }
    }
}

impl Clone for SubscriptionRecord {
    fn clone(&self) -> (r: Self)
        ensures
            r@ == self@,
    {
        SubscriptionRecord {
            id: self.id.clone(),
            created_at: self.created_at,
            verifier: self.verifier.clone(),
            heartbeat_interval_ms: self.heartbeat_interval_ms,
            callback_url: self.callback_url.clone(),
            operation: self.operation.clone(),
            operation_id_value: self.operation_id_value.clone(),
        }
    }
}

/// The logical key a record is grouped under.
pub struct SubscriptionKey {
    pub operation: String,
    pub operation_id_value: String,
}

impl SubscriptionKey {
    /// The group key string, `"{operation}:{operation_id_value}"`.
    pub fn storage_key(&self) -> (r: String)
        ensures
            r@ == group_key_spec(self.operation@, self.operation_id_value@),
    {
        let mut out = self.operation.clone();
        out.append(":");
        out.append(self.operation_id_value.as_str());
        proof {
            assert(":"@ =~= seq![':']) by {
                reveal_strlit(":");
            }
        }
        out
    }
}

impl Clone for SubscriptionKey {
    fn clone(&self) -> (r: Self)
        ensures
            r.operation@ == self.operation@,
            r.operation_id_value@ == self.operation_id_value@,
    {
        SubscriptionKey {
            operation: self.operation.clone(),
            operation_id_value: self.operation_id_value.clone(),
        }
    }
}

/// Appends a framed string.
fn push_str_field(out: &mut Vec<u8>, s: &String)
    ensures
        final(out)@ == old(out)@ + encode_str_spec(s@),
        frameable(s@),
{
    let mut bytes = s.as_str().as_bytes_vec();
    let n = bytes.len() as u64;
    proof {
        assert(usize::MAX <= u64::MAX);
    }
    push_u64_le(out, n);
    out.append(&mut bytes);
    proof {
        assert(out@ =~= old(out)@ + encode_str_spec(s@));
    }
}

impl SubscriptionRecord {
    /// The record's logical key.
    pub fn key(&self) -> (r: SubscriptionKey)
        ensures
            r.operation@ == self.operation@,
            r.operation_id_value@ == self.operation_id_value@,
    {
        SubscriptionKey {
            operation: self.operation.clone(),
            operation_id_value: self.operation_id_value.clone(),
        }
    }

    /// The record's identity, the sub-key it is stored under.
    pub fn id(&self) -> (r: String)
        ensures
            r@ == self.id@,
    {
        self.id.clone()
    }

    /// The framed bytes persisted for this record.
    pub fn value(&self) -> (r: Vec<u8>)
        ensures
            r@ == encode_record_spec(self@),
            self@.frameable(),
    {
        let mut out: Vec<u8> = Vec::new();
        push_str_field(&mut out, &self.id);
        push_u64_le(&mut out, self.created_at);
        push_str_field(&mut out, &self.verifier);
        push_u64_le(&mut out, self.heartbeat_interval_ms);
        push_str_field(&mut out, &self.callback_url);
        push_str_field(&mut out, &self.operation);
        push_str_field(&mut out, &self.operation_id_value);
        proof {
            assert(out@ =~= encode_record_spec(self@));
        }
        out
    }
}

/// Reads one framed string, following [`take_str`].
fn take_str_exec(s: Vec<u8>) -> (r: Option<(String, Vec<u8>)>)
    ensures
        match r {
            Some((text, rest)) => take_str(s@) == Some((text@, rest@)),
            None => take_str(s@) is None,
        },
{
    let ghost sv = s@;
    match take_u64_exec(s) {
        Some((n, rest)) => {
            if n <= rest.len() as u64 {
                let nn = n as usize;
                let head = subrange_vec(&rest, 0, nn);
                let tail = subrange_vec(&rest, nn, rest.len());
                proof {
                    assert(head@ =~= sv.skip(8).take(n as int));
                    assert(tail@ =~= sv.skip(8).skip(n as int));
                }
                match bytes_to_string(head) {
                    Some(text) => Some((text, tail)),
                    None => None,
                }
            } else {
                None
            }
        },
        None => None,
    }
}

/// Decodes one persisted record, following [`decode_record_spec`].
pub fn decode_record(bytes: Vec<u8>) -> (r: Option<SubscriptionRecord>)
    ensures
        match r {
            Some(rec) => decode_record_spec(bytes@) == Some(rec@),
            None => decode_record_spec(bytes@) is None,
        },
{
    let s = bytes;
    match take_str_exec(s) {
        Some((id, s)) => match take_u64_exec(s) {
            Some((created_at, s)) => match take_str_exec(s) {
                Some((verifier, s)) => match take_u64_exec(s) {
                    Some((heartbeat_interval_ms, s)) => match take_str_exec(s) {
                        Some((callback_url, s)) => match take_str_exec(s) {
                            Some((operation, s)) => match take_str_exec(s) {
                                Some((operation_id_value, s)) => {
                                    if s.len() == 0 {
                                        Some(
                                            SubscriptionRecord {
                                                id,
                                                created_at,
                                                verifier,
                                                heartbeat_interval_ms,
                                                callback_url,
                                                operation,
                                                operation_id_value,
                                            },
                                        )
                                    } else {
                                        None
                                    }
                                },
                                None => None,
                            },
                            None => None,
                        },
                        None => None,
                    },
                    None => None,
                },
                None => None,
            },
            None => None,
        },
        None => None,
    }
}

/// The records a group's fields decode to, in field order; entries that
/// do not decode are dropped.
pub open spec fn decoded_records(fields: Seq<(Seq<char>, Seq<u8>)>) -> Seq<SubscriptionRecordView>
    decreases fields.len(),
{
    if fields.len() == 0 {
        Seq::empty()
    } else {
        match decode_record_spec(fields[0].1) {
            Some(rv) => seq![rv] + decoded_records(fields.drop_first()),
            None => decoded_records(fields.drop_first()),
        }
    }
}

/// Every stored entry decodes to a record whose id names its field and
/// whose operation and id value name its group; readers drop entries that
/// do not decode, so corrupted bytes only ever lose their own record.
pub open spec fn wf_records(v: KvView) -> bool {
    forall|key: Seq<char>, i: int|
        #![trigger v[key].fields[i]]
        v.contains_key(key) && 0 <= i < v[key].fields.len() ==> match decode_record_spec(
            v[key].fields[i].1,
        ) {
            Some(rv) => rv.id == v[key].fields[i].0 && rv.group_key() == key,
            None => true,
        }
}

/// Inserting a record under its own key and id keeps [`wf_records`].
pub proof fn lemma_wf_records_insert(v: KvView, r: SubscriptionRecordView, ttl_ms: u64)
    requires
        wf_records(v),
        r.frameable(),
    ensures
        wf_records(kv_insert(v, r.group_key(), r.id, encode_record_spec(r), ttl_ms)),
{
    lemma_record_roundtrip(r);
    let v2 = kv_insert(v, r.group_key(), r.id, encode_record_spec(r), ttl_ms);
    let f0 = group_fields(v, r.group_key());
    let f2 = v2[r.group_key()].fields;
    assert forall|key: Seq<char>, i: int|
        #![trigger v2[key].fields[i]]
        v2.contains_key(key) && 0 <= i < v2[key].fields.len() implies match decode_record_spec(
        v2[key].fields[i].1,
    ) {
        Some(rv) => rv.id == v2[key].fields[i].0 && rv.group_key() == key,
        None => true,
    } by {
        if key == r.group_key() {
            if crate::kv_store::fields_has(f0, r.id) {
                crate::kv_store::lemma_field_index_bounds(f0, r.id);
                let ix = crate::kv_store::field_index_of(f0, r.id);
                if i != ix {
                    assert(f2[i] == f0[i]);
                    assert(v.contains_key(key) && v[key].fields[i] == f0[i]);
                }
            } else {
                if i < f0.len() {
                    assert(f2[i] == f0[i]);
                    assert(v.contains_key(key) && v[key].fields[i] == f0[i]);
                }
            }
        } else {
            assert(v2[key] == v[key]);
            assert(v[key].fields[i] == v2[key].fields[i]);
        }
    }
}

/// Deleting a field keeps [`wf_records`].
pub proof fn lemma_wf_records_delete(v: KvView, key: Seq<char>, name: Seq<char>)
    requires
        wf_records(v),
    ensures
        wf_records(kv_delete_field(v, key, name)),
{
    let v2 = kv_delete_field(v, key, name);
    assert forall|k2: Seq<char>, i: int|
        #![trigger v2[k2].fields[i]]
        v2.contains_key(k2) && 0 <= i < v2[k2].fields.len() implies match decode_record_spec(
        v2[k2].fields[i].1,
    ) {
        Some(rv) => rv.id == v2[k2].fields[i].0 && rv.group_key() == k2,
        None => true,
    } by {
        if v.contains_key(key) && k2 == key && crate::kv_store::fields_has(v[key].fields, name) {
            crate::kv_store::lemma_field_index_bounds(v[key].fields, name);
            let ix = crate::kv_store::field_index_of(v[key].fields, name);
            let i0 = if i < ix {
                i
            } else {
                i + 1
            };
            assert(v2[k2].fields[i] == v[key].fields[i0]);
        } else {
            assert(v2[k2] == v[k2]);
            assert(v[k2].fields[i] == v2[k2].fields[i]);
        }
    }
}

/// Deleting a whole group keeps [`wf_records`].
pub proof fn lemma_wf_records_delete_group(v: KvView, key: Seq<char>)
    requires
        wf_records(v),
    ensures
        wf_records(v.remove(key)),
{
    let v2 = v.remove(key);
    assert forall|k2: Seq<char>, i: int|
        #![trigger v2[k2].fields[i]]
        v2.contains_key(k2) && 0 <= i < v2[k2].fields.len() implies match decode_record_spec(
        v2[k2].fields[i].1,
    ) {
        Some(rv) => rv.id == v2[k2].fields[i].0 && rv.group_key() == k2,
        None => true,
    } by {
        assert(v[k2].fields[i] == v2[k2].fields[i]);
    }
}

/// Each decoded record of a well-formed group carries the group's
/// operation and id value, and its id names one of the group's fields.
pub proof fn lemma_decoded_records_ids(key: Seq<char>, fields: Seq<(Seq<char>, Seq<u8>)>)
    requires
        forall|i: int|
            #![trigger fields[i]]
            0 <= i < fields.len() ==> match decode_record_spec(fields[i].1) {
                Some(rv) => rv.id == fields[i].0 && rv.group_key() == key,
                None => true,
            },
    ensures
        forall|p: int|
            #![trigger decoded_records(fields)[p]]
            0 <= p < decoded_records(fields).len() ==> fields_has(
                fields,
                decoded_records(fields)[p].id,
            ) && decoded_records(fields)[p].group_key() == key,
    decreases fields.len(),
{
    if fields.len() > 0 {
        let rest = fields.drop_first();
        assert(forall|i: int| 0 <= i < rest.len() ==> #[trigger] rest[i] == fields[i + 1]);
        lemma_decoded_records_ids(key, rest);
        let d = decoded_records(fields);
        assert forall|p: int|
            #![trigger d[p]]
            0 <= p < d.len() implies fields_has(fields, d[p].id) && d[p].group_key() == key by {
            match decode_record_spec(fields[0].1) {
                Some(rv) => {
                    if p == 0 {
                        assert(d[0] == rv);
                        assert(fields[0].0 == rv.id);
                    } else {
                        assert(d[p] == decoded_records(rest)[p - 1]);
                        let j = choose|j: int|
                            0 <= j < rest.len() && rest[j].0 == decoded_records(rest)[p - 1].id;
                        assert(fields[j + 1].0 == d[p].id);
                    }
                },
                None => {
                    assert(d[p] == decoded_records(rest)[p]);
                    let j = choose|j: int|
                        0 <= j < rest.len() && rest[j].0 == decoded_records(rest)[p].id;
                    assert(fields[j + 1].0 == d[p].id);
                },
            }
        }
    }
}

/// Key uniqueness: in a well-formed group with distinct field names, the
/// decoded records have pairwise distinct ids — so the composite key
/// `(operation, operation_id_value, id)` identifies at most one record.
pub proof fn lemma_store_key_uniqueness(key: Seq<char>, fields: Seq<(Seq<char>, Seq<u8>)>)
    requires
        fields_distinct(fields),
        forall|i: int|
            #![trigger fields[i]]
            0 <= i < fields.len() ==> match decode_record_spec(fields[i].1) {
                Some(rv) => rv.id == fields[i].0 && rv.group_key() == key,
                None => true,
            },
    ensures
        forall|p: int, q: int|
            0 <= p < q < decoded_records(fields).len() ==> #[trigger] decoded_records(fields)[p].id
                != #[trigger] decoded_records(fields)[q].id,
        forall|p: int|
            #![trigger decoded_records(fields)[p]]
            0 <= p < decoded_records(fields).len() ==> decoded_records(fields)[p].group_key()
                == key,
    decreases fields.len(),
{
    lemma_decoded_records_ids(key, fields);
    if fields.len() > 0 {
        let rest = fields.drop_first();
        assert(forall|i: int| 0 <= i < rest.len() ==> #[trigger] rest[i] == fields[i + 1]);
        lemma_store_key_uniqueness(key, rest);
        lemma_decoded_records_ids(key, rest);
        let d = decoded_records(fields);
        assert forall|p: int, q: int| 0 <= p < q < d.len() implies #[trigger] d[p].id
            != #[trigger] d[q].id by {
            match decode_record_spec(fields[0].1) {
                Some(rv) => {
                    if p == 0 {
                        assert(d[q] == decoded_records(rest)[q - 1]);
                        let j = choose|j: int|
                            0 <= j < rest.len() && rest[j].0 == decoded_records(rest)[q - 1].id;
                        assert(fields[j + 1].0 == d[q].id);
                        assert(fields[0].0 != fields[j + 1].0);
                    } else {
                        assert(d[p] == decoded_records(rest)[p - 1]);
                        assert(d[q] == decoded_records(rest)[q - 1]);
                    }
                },
                None => {
                    assert(d[p] == decoded_records(rest)[p]);
                    assert(d[q] == decoded_records(rest)[q]);
                },
            }
        }
    }
}

/// Key uniqueness over a whole store: in a well-formed store, any
/// group's decoded records have pairwise distinct ids and all carry the
/// group's operation and id value — the composite key
/// `(operation, operation_id_value, id)` identifies at most one record.
pub proof fn lemma_group_records_unique(v: KvView, key: Seq<char>)
    requires
        wf_records(v),
        kv_distinct(v),
    ensures
        forall|p: int, q: int|
            0 <= p < q < decoded_records(group_fields(v, key)).len() ==> #[trigger] decoded_records(
                group_fields(v, key),
            )[p].id != #[trigger] decoded_records(group_fields(v, key))[q].id,
        forall|p: int|
            #![trigger decoded_records(group_fields(v, key))[p]]
            0 <= p < decoded_records(group_fields(v, key)).len() ==> decoded_records(
                group_fields(v, key),
            )[p].group_key() == key,
{
    if v.contains_key(key) {
        let fields = v[key].fields;
        assert forall|i: int|
            #![trigger fields[i]]
            0 <= i < fields.len() implies match decode_record_spec(fields[i].1) {
            Some(rv) => rv.id == fields[i].0 && rv.group_key() == key,
            None => true,
        } by {
            assert(v[key].fields[i] == fields[i]);
        }
        lemma_store_key_uniqueness(key, fields);
    }
}

/// The typed facade over the store port.
pub struct SubscriptionStore<K: KvStore> {
    kv_store: K,
}

impl<K: KvStore> SubscriptionStore<K> {
    /// The backing store's contents.
    pub closed spec fn store_view(&self) -> KvView {
        self.kv_store.kv_view()
    }

    pub closed spec fn inv(&self) -> bool {
        self.kv_store.inv()
    }

    /// The backing store keeps field names distinct within each group.
    pub proof fn inv_distinct(&self)
        requires
            self.inv(),
        ensures
            kv_distinct(self.store_view()),
    {
        self.kv_store.inv_distinct();
    }

    /// Opens a store handle through the factory.
    pub fn new<F: KvStoreFactory<Store = K>>(kv_store_factory: &F) -> (r: Result<
        Self,
        StorageError,
    >)
        ensures
            r matches Ok(s) ==> s.inv(),
    {
        match kv_store_factory.create() {
            Ok(kv_store) => Ok(SubscriptionStore { kv_store }),
            Err(e) => Err(e),
        }
    }

    /// Persists a record under its group and id, refreshing the group's
    /// TTL to `ttl_ms`.
    pub fn insert(&mut self, record: &SubscriptionRecord, ttl_ms: u64) -> (r: Result<
        (),
        StorageError,
    >)
        requires
            old(self).inv(),
        ensures
            final(self).inv(),
            record@.frameable(),
            match r {
                Ok(()) => final(self).store_view() == kv_insert(
                    old(self).store_view(),
                    record@.group_key(),
                    record@.id,
                    encode_record_spec(record@),
                    ttl_ms,
                ),
                Err(_) => final(self).store_view() == old(self).store_view(),
            },
    {
        let key = record.key().storage_key();
        self.kv_store.insert_map_key(key, record.id(), record.value(), ttl_ms)
    }

    /// Reads and decodes every record of a logical key, in storage
    /// order; entries that do not decode are dropped.
    #[verifier::rlimit(60)]
    pub fn get_all(&mut self, key: &SubscriptionKey) -> (r: Result<
        Vec<SubscriptionRecord>,
        StorageError,
    >)
        requires
            old(self).inv(),
        ensures
            final(self).inv(),
            final(self).store_view() == old(self).store_view(),
            match r {
                Ok(records) => records@.map_values(|rec: SubscriptionRecord| rec@)
                    == decoded_records(
                    group_fields(
                        old(self).store_view(),
                        group_key_spec(key.operation@, key.operation_id_value@),
                    ),
                ),
                Err(_) => true,
            },
    {
        let storage_key = key.storage_key();
        let mut entries = match self.kv_store.get_map(&storage_key) {
            Ok(entries) => entries,
            Err(e) => {
                return Err(e);
            },
        };
        let ghost full = entries@.map_values(|p: (String, Vec<u8>)| (p.0@, p.1@));
        let mut records: Vec<SubscriptionRecord> = Vec::new();
        proof {
            assert(full.skip(0) =~= full);
        }
        let mut consumed: usize = 0;
        let total = entries.len();
        while entries.len() > 0
            invariant
                total == full.len(),
                consumed + entries@.len() == total,
                entries@.map_values(|p: (String, Vec<u8>)| (p.0@, p.1@)) =~= full.skip(
                    consumed as int,
                ),
                decoded_records(full) =~= records@.map_values(|rec: SubscriptionRecord| rec@)
                    + decoded_records(full.skip(consumed as int)),
            decreases entries@.len(),
        {
            let ghost before = entries@.map_values(|p: (String, Vec<u8>)| (p.0@, p.1@));
            let (name, bytes) = entries.remove(0);
            proof {
                assert(entries@.map_values(|p: (String, Vec<u8>)| (p.0@, p.1@)) =~= before
                    .drop_first());
                assert(before.drop_first() =~= full.skip(consumed as int + 1));
            }
            match decode_record(bytes) {
                Some(rec) => {
                    let ghost old_records = records@;
                    records.push(rec);
                    proof {
                        assert(records@.map_values(|rec: SubscriptionRecord| rec@) =~= old_records
                            .map_values(|rec: SubscriptionRecord| rec@) + seq![rec@]);
                        assert(decoded_records(before) == seq![rec@] + decoded_records(
                            before.drop_first(),
                        ));
                        assert(decoded_records(full) =~= records@.map_values(
                            |rec: SubscriptionRecord| rec@,
                        ) + decoded_records(full.skip(consumed as int + 1)));
                    }
                },
                None => {
                    proof {
                        assert(decoded_records(before) == decoded_records(before.drop_first()));
                    }
                },
            }
            consumed = consumed + 1;
        }
        proof {
            assert(full.skip(total as int).len() == 0);
            assert(decoded_records(full) =~= records@.map_values(
                |rec: SubscriptionRecord| rec@,
            ));
        }
        Ok(records)
    }

    /// Removes one record of a logical key by its id.
    pub fn delete(&mut self, key: &SubscriptionKey, id: &String) -> (r: Result<(), StorageError>)
        requires
            old(self).inv(),
        ensures
            final(self).inv(),
            match r {
                Ok(()) => final(self).store_view() == kv_delete_field(
                    old(self).store_view(),
                    group_key_spec(key.operation@, key.operation_id_value@),
                    id@,
                ),
                Err(_) => final(self).store_view() == old(self).store_view(),
            },
    {
        let storage_key = key.storage_key();
        self.kv_store.delete_map_value(&storage_key, id)
    }
}

/// TTL refresh: writing any record of a group sets the group's TTL to the
/// given value — no earlier TTL survives a re-insert.
pub proof fn lemma_ttl_refresh(
    v: KvView,
    key: Seq<char>,
    name: Seq<char>,
    value: Seq<u8>,
    ttl_ms: u64,
)
    ensures
        kv_insert(v, key, name, value, ttl_ms).contains_key(key),
        kv_insert(v, key, name, value, ttl_ms)[key].ttl_ms == ttl_ms,
{
}

} // verus!
