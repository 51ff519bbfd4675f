//! Decoding protobuf wire streams under a tag mapping.
//!
//! The wire grammar is stated as spec functions over byte sequences:
//! base-128 varints, the `(tag, wire_type)` keys, the four payload
//! shapes, and group skipping via a stack of open group tags. The
//! executable decoder scans the stream once and is proved to return
//! exactly what the grammar denotes: varints become integers, 64-bit and
//! 32-bit fields become floating-point bit patterns, length-delimited
//! fields become UTF-8 strings, and every unmapped field is skipped by
//! the standard skipping rules. Repeated fields keep the last value.

use vstd::prelude::*;

use crate::configuration::ProtobufMapping;
use crate::errors::{ConfigError, DecodeError};
use crate::json_value::{JsonValue, JsonValueView, ValueMap};
use crate::strings::bytes_to_string;
use vstd::utf8::{decode_utf8, valid_utf8};

verus! {

/// Bytes remaining from position `i`, never negative.
pub open spec fn rem(s: Seq<u8>, i: int) -> nat {
    if s.len() - i >= 0 {
        (s.len() - i) as nat
    } else {
        0
    }
}

/// A base-128 varint read at `i`: its value and the position after it.
/// Later bytes carry higher bits; bits beyond 64 are dropped.
pub open spec fn wire_varint(s: Seq<u8>, i: int) -> Option<(u64, int)>
    decreases rem(s, i),
{
    if 0 <= i < s.len() {
        let b = s[i];
        if b < 128 {
            Some((b as u64, i + 1))
        } else {
            match wire_varint(s, i + 1) {
                Some((v, j)) => Some(((v << 7) | ((b & 0x7f) as u64), j)),
                None => None,
            }
        }
    } else {
        None
    }
}

pub proof fn lemma_wire_varint_bounds(s: Seq<u8>, i: int)
    requires
        wire_varint(s, i) is Some,
    ensures
        0 <= i < s.len(),
        i < wire_varint(s, i).unwrap().1 <= s.len(),
    decreases rem(s, i),
{
    if s[i] >= 128 {
        lemma_wire_varint_bounds(s, i + 1);
    }
}

/// A varint of at most ten bytes, as the standard wire format allows.
pub open spec fn pb_varint(s: Seq<u8>, i: int) -> Option<(u64, int)> {
    match wire_varint(s, i) {
        Some((v, j)) => if j - i <= 10 {
            Some((v, j))
        } else {
            None
        },
        None => None,
    }
}

/// A field key: the tag, the wire type (0 to 5), and the position after
/// the key. Tag zero and wire types 6 and 7 are malformed.
pub open spec fn pb_key(s: Seq<u8>, i: int) -> Option<(u32, u8, int)> {
    match pb_varint(s, i) {
        Some((v, j)) => if v <= u32::MAX as u64 && (v >> 3) >= 1 && (v & 7) <= 5 {
            Some(((v >> 3) as u32, (v & 7) as u8, j))
        } else {
            None
        },
        None => None,
    }
}

pub proof fn lemma_pb_key_bounds(s: Seq<u8>, i: int)
    requires
        pb_key(s, i) is Some,
    ensures
        0 <= i < s.len(),
        i < pb_key(s, i).unwrap().2 <= s.len(),
{
    lemma_wire_varint_bounds(s, i);
}

/// A little-endian 32-bit word at `i`.
pub open spec fn le_u32(s: Seq<u8>, i: int) -> u32 {
    (s[i] as u32) | ((s[i + 1] as u32) << 8) | ((s[i + 2] as u32) << 16) | ((s[i + 3] as u32)
        << 24)
}

/// A little-endian 64-bit word at `i`.
pub open spec fn le_u64(s: Seq<u8>, i: int) -> u64 {
    (s[i] as u64) | ((s[i + 1] as u64) << 8) | ((s[i + 2] as u64) << 16) | ((s[i + 3] as u64)
        << 24) | ((s[i + 4] as u64) << 32) | ((s[i + 5] as u64) << 40) | ((s[i + 6] as u64) << 48)
        | ((s[i + 7] as u64) << 56)
}

/// The payload of one field, by wire type.
pub enum PbValue {
    Varint(u64),
    Fix64(u64),
    Fix32(u32),
    Chunk(Seq<u8>),
}

/// The payload read after a key of wire type 0, 1, 2 or 5, and the
/// position after it.
pub open spec fn pb_payload(s: Seq<u8>, i: int, wire: u8) -> Option<(PbValue, int)> {
    if wire == 0 {
        match pb_varint(s, i) {
            Some((v, j)) => Some((PbValue::Varint(v), j)),
            None => None,
        }
    } else if wire == 1 {
        if 0 <= i && i + 8 <= s.len() {
            Some((PbValue::Fix64(le_u64(s, i)), i + 8))
        } else {
            None
        }
    } else if wire == 2 {
        match pb_varint(s, i) {
            Some((l, j)) => if j + l <= s.len() {
                Some((PbValue::Chunk(s.subrange(j, j + l as int)), j + l as int))
            } else {
                None
            },
            None => None,
        }
    } else if wire == 5 {
        if 0 <= i && i + 4 <= s.len() {
            Some((PbValue::Fix32(le_u32(s, i)), i + 4))
        } else {
            None
        }
    } else {
        None
    }
}

pub proof fn lemma_pb_payload_bounds(s: Seq<u8>, i: int, wire: u8)
    requires
        pb_payload(s, i, wire) is Some,
    ensures
        0 <= i,
        i < pb_payload(s, i, wire).unwrap().1 <= s.len(),
{
    if wire == 0 {
        lemma_wire_varint_bounds(s, i);
    } else if wire == 2 {
        lemma_wire_varint_bounds(s, i);
    }
}

/// Scans the stream from `i` with the given stack of open group tags and
/// yields the top-level fields in order, or nothing when the stream is
/// malformed: a bad varint or key, a truncated payload, a stray or
/// mismatched group end, or an unterminated group. Fields inside a group
/// are consumed and dropped, as the standard skipping rules say.
pub open spec fn pb_scan(s: Seq<u8>, i: int, open: Seq<u32>) -> Option<Seq<(u32, PbValue)>>
    decreases rem(s, i),
    via pb_scan_decreases
{
    if i == s.len() {
        if open.len() == 0 {
            Some(Seq::empty())
        } else {
            None
        }
    } else {
        match pb_key(s, i) {
            Some((tag, wire, j)) => {
                if wire == 4 {
                    if open.len() > 0 && open.last() == tag {
                        pb_scan(s, j, open.drop_last())
                    } else {
                        None
                    }
                } else if wire == 3 {
                    pb_scan(s, j, open.push(tag))
                } else {
                    match pb_payload(s, j, wire) {
                        Some((v, k)) => match pb_scan(s, k, open) {
                            Some(fields) => if open.len() == 0 {
                                Some(seq![(tag, v)] + fields)
                            } else {
                                Some(fields)
                            },
                            None => None,
                        },
                        None => None,
                    }
                }
            },
            None => None,
        }
    }
}

#[via_fn]
proof fn pb_scan_decreases(s: Seq<u8>, i: int, open: Seq<u32>) {
    if i != s.len() && pb_key(s, i) is Some {
        lemma_pb_key_bounds(s, i);
        let (tag, wire, j) = pb_key(s, i).unwrap();
        if wire != 3 && wire != 4 && pb_payload(s, j, wire) is Some {
            lemma_pb_payload_bounds(s, j, wire);
        }
    }
}

/// The first mapping entry with this tag, if any.
pub open spec fn rev_tag_lookup(mapping: Seq<(Seq<char>, u32)>, tag: u32) -> Option<Seq<char>>
    decreases mapping.len(),
{
    if mapping.len() == 0 {
        None
    } else if mapping[0].1 == tag {
        Some(mapping[0].0)
    } else {
        rev_tag_lookup(mapping.drop_first(), tag)
    }
}

/// Folds one field into the accumulated result: unmapped tags change
/// nothing, mapped payloads are stored by kind, and a mapped chunk that
/// is not UTF-8 poisons the whole decode.
pub open spec fn interp_step(
    acc: Map<Seq<char>, JsonValueView>,
    tag: u32,
    v: PbValue,
    mapping: Seq<(Seq<char>, u32)>,
) -> Option<Map<Seq<char>, JsonValueView>> {
    match rev_tag_lookup(mapping, tag) {
        None => Some(acc),
        Some(key) => match v {
            PbValue::Varint(x) => Some(acc.insert(key, JsonValueView::Int(x as i64))),
            PbValue::Fix64(b) => Some(acc.insert(key, JsonValueView::DoubleBits(b))),
            PbValue::Fix32(b) => Some(acc.insert(key, JsonValueView::FloatBits(b))),
            PbValue::Chunk(bs) => if valid_utf8(bs) {
                Some(acc.insert(key, JsonValueView::Str(decode_utf8(bs))))
            } else {
                None
            },
        },
    }
}

/// Folds a field sequence left to right, so a repeated field keeps its
/// last value.
pub open spec fn pb_interpret(
    fields: Seq<(u32, PbValue)>,
    mapping: Seq<(Seq<char>, u32)>,
    acc: Map<Seq<char>, JsonValueView>,
) -> Option<Map<Seq<char>, JsonValueView>>
    decreases fields.len(),
{
    if fields.len() == 0 {
        Some(acc)
    } else {
        match interp_step(acc, fields[0].0, fields[0].1, mapping) {
            Some(acc2) => pb_interpret(fields.drop_first(), mapping, acc2),
            None => None,
        }
    }
}

/// What decoding yields from position `i` on, given the fields already
/// folded into `acc`.
pub open spec fn pb_result(
    s: Seq<u8>,
    i: int,
    open: Seq<u32>,
    acc: Map<Seq<char>, JsonValueView>,
    mapping: Seq<(Seq<char>, u32)>,
) -> Option<Map<Seq<char>, JsonValueView>> {
    match pb_scan(s, i, open) {
        Some(fields) => pb_interpret(fields, mapping, acc),
        None => None,
    }
}

/// What a whole stream decodes to under a mapping.
pub open spec fn pb_decode(s: Seq<u8>, mapping: Seq<(Seq<char>, u32)>) -> Option<
    Map<Seq<char>, JsonValueView>,
> {
    pb_result(s, 0, Seq::empty(), Map::empty(), mapping)
}

/// The payload part of a wire-envelope message: everything after the
/// six-byte prefix, or nothing when the input is shorter.
pub open spec fn wire_payload(s: Seq<u8>) -> Seq<u8> {
    if s.len() >= 6 {
        s.skip(6)
    } else {
        Seq::empty()
    }
}

proof fn lemma_result_end(
    s: Seq<u8>,
    open: Seq<u32>,
    acc: Map<Seq<char>, JsonValueView>,
    mapping: Seq<(Seq<char>, u32)>,
)
    ensures
        pb_result(s, s.len() as int, open, acc, mapping) == (if open.len() == 0 {
            Some(acc)
        } else {
            None
        }),
{
    if open.len() == 0 {
        assert(pb_scan(s, s.len() as int, open) == Some(Seq::<(u32, PbValue)>::empty()));
        assert(pb_interpret(Seq::empty(), mapping, acc) == Some(acc));
    }
}

proof fn lemma_result_step_value(
    s: Seq<u8>,
    i: int,
    open: Seq<u32>,
    acc: Map<Seq<char>, JsonValueView>,
    mapping: Seq<(Seq<char>, u32)>,
    tag: u32,
    wire: u8,
    j: int,
    v: PbValue,
    k: int,
)
    requires
        0 <= i < s.len(),
        pb_key(s, i) == Some((tag, wire, j)),
        wire != 3,
        wire != 4,
        pb_payload(s, j, wire) == Some((v, k)),
    ensures
        pb_result(s, i, open, acc, mapping) == (if open.len() == 0 {
            match interp_step(acc, tag, v, mapping) {
                Some(acc2) => pb_result(s, k, open, acc2, mapping),
                None => None::<Map<Seq<char>, JsonValueView>>,
            }
        } else {
            pb_result(s, k, open, acc, mapping)
        }),
{
    match pb_scan(s, k, open) {
        Some(fields) => {
            if open.len() == 0 {
                let cons = seq![(tag, v)] + fields;
                assert(pb_scan(s, i, open) == Some(cons));
                assert(cons[0] == (tag, v));
                assert(cons.drop_first() =~= fields);
                assert(pb_interpret(cons, mapping, acc) == (match interp_step(
                    acc,
                    tag,
                    v,
                    mapping,
                ) {
                    Some(acc2) => pb_interpret(fields, mapping, acc2),
                    None => None::<Map<Seq<char>, JsonValueView>>,
                }));
            } else {
                assert(pb_scan(s, i, open) == Some(fields));
            }
        },
        None => {
            assert(pb_scan(s, i, open) is None);
        },
    }
}

proof fn lemma_result_group_start(
    s: Seq<u8>,
    i: int,
    open: Seq<u32>,
    acc: Map<Seq<char>, JsonValueView>,
    mapping: Seq<(Seq<char>, u32)>,
    tag: u32,
    j: int,
)
    requires
        0 <= i < s.len(),
        pb_key(s, i) == Some((tag, 3u8, j)),
    ensures
        pb_result(s, i, open, acc, mapping) == pb_result(s, j, open.push(tag), acc, mapping),
{
}

proof fn lemma_result_group_end(
    s: Seq<u8>,
    i: int,
    open: Seq<u32>,
    acc: Map<Seq<char>, JsonValueView>,
    mapping: Seq<(Seq<char>, u32)>,
    tag: u32,
    j: int,
)
    requires
        0 <= i < s.len(),
        pb_key(s, i) == Some((tag, 4u8, j)),
        open.len() > 0,
        open.last() == tag,
    ensures
        pb_result(s, i, open, acc, mapping) == pb_result(s, j, open.drop_last(), acc, mapping),
{
}

/// Reads a varint of at most `depth` bytes at `i`.
fn read_varint(data: &Vec<u8>, i: usize, depth: usize) -> (r: Option<(u64, usize)>)
    requires
        depth <= 10,
    ensures
        match r {
            Some((v, j)) => wire_varint(data@, i as int) == Some((v, j as int)) && i < j
                <= data@.len() && j - i <= depth,
            None => (match wire_varint(data@, i as int) {
                Some(p) => p.1 - i > depth,
                None => true,
            }),
        },
    decreases depth,
{
    if depth == 0 {
        proof {
            if wire_varint(data@, i as int) is Some {
                lemma_wire_varint_bounds(data@, i as int);
            }
        }
        return None;
    }
    if i >= data.len() {
        return None;
    }
    let b = data[i];
    if b < 128 {
        Some((b as u64, i + 1))
    } else {
        match read_varint(data, i + 1, depth - 1) {
            Some((v, j)) => Some(((v << 7u64) | ((b & 0x7f) as u64), j)),
            None => {
                proof {
                    if wire_varint(data@, i as int) is Some {
                        lemma_wire_varint_bounds(data@, i + 1);
                    }
                }
                None
            },
        }
    }
}

/// Reads a field key at `i`.
fn read_key(data: &Vec<u8>, i: usize) -> (r: Option<(u32, u8, usize)>)
    ensures
        match r {
            Some((tag, wire, j)) => pb_key(data@, i as int) == Some((tag, wire, j as int)) && i < j
                <= data@.len() && wire <= 5,
            None => pb_key(data@, i as int) is None,
        },
{
    match read_varint(data, i, 10) {
        Some((v, j)) => {
            if v <= (u32::MAX as u64) && (v >> 3u64) >= 1 && (v & 7) <= 5 {
                Some((((v >> 3u64) as u32), ((v & 7) as u8), j))
            } else {
                None
            }
        },
        None => None,
    }
}

/// Copies `data[from..to]` out.
fn subvec(data: &Vec<u8>, from: usize, to: usize) -> (r: Vec<u8>)
    requires
        from <= to <= data@.len(),
    ensures
        r@ == data@.subrange(from as int, to as int),
{
    let mut r: Vec<u8> = Vec::new();
    let mut k = from;
    while k < to
        invariant
            from <= k <= to <= data@.len(),
            r@ =~= data@.subrange(from as int, k as int),
        decreases to - k,
    {
        r.push(data[k]);
        k = k + 1;
        assert(r@ =~= data@.subrange(from as int, k as int));
    }
    r
}

/// Where one payload lies, without copying length-delimited bytes.
enum PayloadAt {
    Varint(u64),
    Fix64(u64),
    Fix32(u32),
    Chunk(usize, usize),
}

/// The payload a [`PayloadAt`] stands for.
spec fn payload_at_view(p: PayloadAt, s: Seq<u8>) -> PbValue {
    match p {
        PayloadAt::Varint(v) => PbValue::Varint(v),
        PayloadAt::Fix64(b) => PbValue::Fix64(b),
        PayloadAt::Fix32(b) => PbValue::Fix32(b),
        PayloadAt::Chunk(a, b) => PbValue::Chunk(s.subrange(a as int, b as int)),
    }
}

/// Reads the payload after a key of wire type 0, 1, 2 or 5.
fn read_payload(data: &Vec<u8>, i: usize, wire: u8) -> (r: Option<(PayloadAt, usize)>)
    requires
        wire <= 5,
        wire != 3,
        wire != 4,
        i <= data@.len(),
    ensures
        match r {
            Some((p, k)) => pb_payload(data@, i as int, wire) == Some(
                (payload_at_view(p, data@), k as int),
            ) && i < k <= data@.len() && (p matches PayloadAt::Chunk(a, b) ==> a <= b
                <= data@.len()),
            None => pb_payload(data@, i as int, wire) is None,
        },
{
    if wire == 0 {
        match read_varint(data, i, 10) {
            Some((v, j)) => Some((PayloadAt::Varint(v), j)),
            None => None,
        }
    } else if wire == 1 {
        if data.len() - i >= 8 {
            let b = (data[i] as u64) | ((data[i + 1] as u64) << 8u64) | ((data[i + 2] as u64)
                << 16u64) | ((data[i + 3] as u64) << 24u64) | ((data[i + 4] as u64) << 32u64) | ((
            data[i + 5] as u64) << 40u64) | ((data[i + 6] as u64) << 48u64) | ((data[i + 7] as u64)
                << 56u64);
            Some((PayloadAt::Fix64(b), i + 8))
        } else {
            None
        }
    } else if wire == 2 {
        match read_varint(data, i, 10) {
            Some((l, j)) => {
                if l <= (data.len() - j) as u64 {
                    let k = j + (l as usize);
                    Some((PayloadAt::Chunk(j, k), k))
                } else {
                    None
                }
            },
            None => None,
        }
    } else {
        if data.len() - i >= 4 {
            let b = (data[i] as u32) | ((data[i + 1] as u32) << 8u32) | ((data[i + 2] as u32)
                << 16u32) | ((data[i + 3] as u32) << 24u32);
            Some((PayloadAt::Fix32(b), i + 4))
        } else {
            None
        }
    }
}

/// Finds the output field, if any, that a tag is mapped to.
fn rev_lookup(mapping: &ProtobufMapping, tag: u32) -> (r: Option<String>)
    ensures
        match r {
            Some(k) => rev_tag_lookup(mapping@, tag) == Some(k@),
            None => rev_tag_lookup(mapping@, tag) is None,
        },
{
    let n = mapping.0.len();
    proof {
        assert(mapping@.skip(0) =~= mapping@);
    }
    for idx in 0..n
        invariant
            n == mapping.0@.len(),
            rev_tag_lookup(mapping@, tag) == rev_tag_lookup(mapping@.skip(idx as int), tag),
    {
        proof {
            assert(mapping@.len() == mapping.0@.len());
            assert(mapping@.skip(idx as int)[0] == mapping@[idx as int]);
        }
        if mapping.0[idx].1 == tag {
            return Some(mapping.0[idx].0.clone());
        }
        proof {
            assert(mapping@.skip(idx as int).drop_first() =~= mapping@.skip(idx as int + 1));
        }
    }
    proof {
        assert(mapping@.skip(n as int).len() == 0);
    }
    None
}

/// A decoder for protobuf payloads, with or without the six-byte wire
/// envelope: `MAGIC(1) | REGISTRY_ID(4) | MESSAGE_INDEX(1)`.
pub struct ProtobufDataSerde {
    mapping: ProtobufMapping,
    wire_extraction_enabled: bool,
}

impl ProtobufDataSerde {
    /// The tag mapping the decoder was built with.
    pub closed spec fn mapping_view(&self) -> Seq<(Seq<char>, u32)> {
        self.mapping@
    }

    /// Whether the six-byte envelope is stripped before decoding.
    pub closed spec fn wire_mode(&self) -> bool {
        self.wire_extraction_enabled
    }

    /// Builds the decoder; an empty mapping is a configuration error.
    pub fn new(mapping: ProtobufMapping, wire_extraction_enabled: bool) -> (r: Result<
        Self,
        ConfigError,
    >)
        ensures
            match r {
                Ok(d) => mapping@.len() > 0 && d.mapping_view() == mapping@ && d.wire_mode()
                    == wire_extraction_enabled,
                Err(e) => mapping@.len() == 0 && e == ConfigError::EmptyProtobufMapping,
            },
    {
        if mapping.0.len() == 0 {
            Err(ConfigError::EmptyProtobufMapping)
        } else {
            Ok(ProtobufDataSerde { mapping, wire_extraction_enabled })
        }
    }

    /// The input the decoder actually scans for the given bytes.
    pub open spec fn effective_input(&self, data: Seq<u8>) -> Seq<u8> {
        if self.wire_mode() {
            wire_payload(data)
        } else {
            data
        }
    }

    /// Decodes one payload to a field map, exactly as [`pb_decode`] says.
    pub fn extract_values(&self, data: Vec<u8>) -> (r: Result<ValueMap, DecodeError>)
        ensures
            match r {
                Ok(m) => m.wf() && pb_decode(self.effective_input(data@), self.mapping_view())
                    == Some(m@),
                Err(e) => pb_decode(self.effective_input(data@), self.mapping_view()) is None && e
                    == DecodeError::InvalidWire,
            },
    {
        let input: Vec<u8> = if self.wire_extraction_enabled {
            if data.len() >= 6 {
                let stripped = subvec(&data, 6, data.len());
                proof {
                    assert(stripped@ =~= wire_payload(data@));
                }
                stripped
            } else {
                Vec::new()
            }
        } else {
            data
        };
        decode_stream(&input, &self.mapping)
    }
}

/// Scans a whole stream under a mapping, following [`pb_decode`].
fn decode_stream(data: &Vec<u8>, mapping: &ProtobufMapping) -> (r: Result<ValueMap, DecodeError>)
    ensures
        match r {
            Ok(m) => m.wf() && pb_decode(data@, mapping@) == Some(m@),
            Err(e) => pb_decode(data@, mapping@) is None && e == DecodeError::InvalidWire,
        },
{
    let ghost s = data@;
    let ghost mv = mapping@;
    let mut i: usize = 0;
    let mut open: Vec<u32> = Vec::new();
    let mut result = ValueMap::new();
    while i < data.len()
        invariant
            s == data@,
            mv == mapping@,
            i <= data@.len(),
            result.wf(),
            pb_result(s, i as int, open@, result@, mv) == pb_decode(s, mv),
        decreases data@.len() - i,
    {
        match read_key(data, i) {
            None => {
                return Err(DecodeError::InvalidWire);
            },
            Some((tag, wire, j)) => {
                if wire == 4 {
                    if open.len() > 0 && open[open.len() - 1] == tag {
                        proof {
                            lemma_result_group_end(s, i as int, open@, result@, mv, tag, j as int);
                        }
                        open.pop();
                        i = j;
                    } else {
                        return Err(DecodeError::InvalidWire);
                    }
                } else if wire == 3 {
                    proof {
                        lemma_result_group_start(s, i as int, open@, result@, mv, tag, j as int);
                    }
                    open.push(tag);
                    i = j;
                } else {
                    match read_payload(data, j, wire) {
                        None => {
                            return Err(DecodeError::InvalidWire);
                        },
                        Some((p, k)) => {
                            let ghost v = payload_at_view(p, s);
                            proof {
                                lemma_result_step_value(
                                    s,
                                    i as int,
                                    open@,
                                    result@,
                                    mv,
                                    tag,
                                    wire,
                                    j as int,
                                    v,
                                    k as int,
                                );
                            }
                            if open.len() == 0 {
                                match rev_lookup(mapping, tag) {
                                    None => {},
                                    Some(key) => {
                                        match p {
                                            PayloadAt::Varint(x) => {
                                                result.insert(key, JsonValue::Int(x as i64));
                                            },
                                            PayloadAt::Fix64(b) => {
                                                result.insert(key, JsonValue::DoubleBits(b));
                                            },
                                            PayloadAt::Fix32(b) => {
                                                result.insert(key, JsonValue::FloatBits(b));
                                            },
                                            PayloadAt::Chunk(a, b) => {
                                                let bytes = subvec(data, a, b);
                                                match bytes_to_string(bytes) {
                                                    Some(text) => {
                                                        result.insert(key, JsonValue::Str(text));
                                                    },
                                                    None => {
                                                        return Err(DecodeError::InvalidWire);
                                                    },
                                                }
                                            },
                                        }
                                    },
                                }
                            }
                            i = k;
                        },
                    }
                }
            },
        }
    }
    proof {
        lemma_result_end(s, open@, result@, mv);
    }
    if open.len() == 0 {
        Ok(result)
    } else {
        Err(DecodeError::InvalidWire)
    }
}

/// The subsequence of fields whose tags the mapping knows.
pub open spec fn mapped_fields(
    fields: Seq<(u32, PbValue)>,
    mapping: Seq<(Seq<char>, u32)>,
) -> Seq<(u32, PbValue)>
    decreases fields.len(),
{
    if fields.len() == 0 {
        Seq::empty()
    } else if rev_tag_lookup(mapping, fields[0].0) is Some {
        seq![fields[0]] + mapped_fields(fields.drop_first(), mapping)
    } else {
        mapped_fields(fields.drop_first(), mapping)
    }
}

/// Unmapped tags do not affect the result: interpreting a field stream
/// is interpreting only its mapped fields.
pub proof fn lemma_unmapped_tags_ignored(
    fields: Seq<(u32, PbValue)>,
    mapping: Seq<(Seq<char>, u32)>,
    acc: Map<Seq<char>, JsonValueView>,
)
    ensures
        pb_interpret(fields, mapping, acc) == pb_interpret(
            mapped_fields(fields, mapping),
            mapping,
            acc,
        ),
    decreases fields.len(),
{
    if fields.len() > 0 {
        let f = fields[0];
        let rest = fields.drop_first();
        if rev_tag_lookup(mapping, f.0) is None {
            assert(interp_step(acc, f.0, f.1, mapping) == Some(acc));
            lemma_unmapped_tags_ignored(rest, mapping, acc);
        } else {
            let cons = seq![f] + mapped_fields(rest, mapping);
            assert(cons[0] == f);
            assert(cons.drop_first() =~= mapped_fields(rest, mapping));
            match interp_step(acc, f.0, f.1, mapping) {
                Some(acc2) => {
                    lemma_unmapped_tags_ignored(rest, mapping, acc2);
                },
                None => {},
            }
        }
    }
}

/// Unmapped tags do not affect the result, stated over two streams: when
/// they agree on the mapped fields — however the unmapped ones vary —
/// they decode to the same map.
pub proof fn lemma_decode_ignores_unmapped(
    f1: Seq<(u32, PbValue)>,
    f2: Seq<(u32, PbValue)>,
    mapping: Seq<(Seq<char>, u32)>,
    acc: Map<Seq<char>, JsonValueView>,
)
    requires
        mapped_fields(f1, mapping) == mapped_fields(f2, mapping),
    ensures
        pb_interpret(f1, mapping, acc) == pb_interpret(f2, mapping, acc),
{
    lemma_unmapped_tags_ignored(f1, mapping, acc);
    lemma_unmapped_tags_ignored(f2, mapping, acc);
}

/// The wire envelope carries no information: decoding a six-byte
/// envelope plus a message in wire mode equals decoding the bare message
/// with wire mode off.
pub proof fn lemma_wire_envelope(
    envelope: Seq<u8>,
    e: Seq<u8>,
    mapping: Seq<(Seq<char>, u32)>,
)
    requires
        envelope.len() == 6,
    ensures
        pb_decode(wire_payload(envelope + e), mapping) == pb_decode(e, mapping),
{
    assert(wire_payload(envelope + e) =~= e);
}

} // verus!
