//! Decoding JSON payloads under a field mapping.
//!
//! The payload must be a JSON object. The mapping renames fields entry
//! by entry: when the object holds the entry's source field, its value
//! is written under the entry's output name, and the source entry is
//! left in place. In non-strict mode the renamed fields sit alongside
//! every original entry; in strict mode only the renamed fields survive.
//! The mapping semantics is stated by [`apply_entries`] and the
//! executable decoder is proved to follow it exactly; the JSON text
//! parse itself is trusted to serde_json under the name
//! [`json_object_of`].

use vstd::prelude::*;

use crate::errors::{ConfigError, DecodeError};
use crate::json_value::{JsonValue, JsonValueView, ValueMap};
use crate::configuration::JsonMapping;

verus! {

#[verifier::external_type_specification]
#[verifier::external_body]
pub struct ExJsonValue(serde_json::Value);

/// The field map a byte string parses to, when it is the JSON text of an
/// object: a function of the bytes alone. Nothing further is assumed of
/// it; what the decoder does with the parsed object is verified.
pub uninterp spec fn json_object_of(data: Seq<u8>) -> Option<Map<Seq<char>, JsonValueView>>;

/// Relies on serde_json::Value's accessors: null, boolean and string
/// values move across unchanged; a number becomes its i64 value when it
/// has one and its decimal text otherwise; an array or object is kept as
/// raw JSON text, which serde_json round-trips to the same value.
#[verifier::external_body]
fn simplify_value(v: serde_json::Value) -> JsonValue {
    match v {
        serde_json::Value::Null => JsonValue::Null,
        serde_json::Value::Bool(b) => JsonValue::Bool(b),
        serde_json::Value::Number(n) => match n.as_i64() {
            Some(i) => JsonValue::Int(i),
            None => JsonValue::NumText(n.to_string()),
        },
        serde_json::Value::String(s) => JsonValue::Str(s),
        other => JsonValue::Raw(other.to_string()),
    }
}

/// Relies on serde_json::from_slice for serde_json::Map<String, Value>:
/// it accepts exactly the JSON texts whose top level is an object and
/// yields that object's fields, with pairwise distinct names, each value
/// simplified by [`simplify_value`]. The result is a function of the
/// bytes alone, named [`json_object_of`].
#[verifier::external_body]
fn parse_json_object(data: &Vec<u8>) -> (r: Option<ValueMap>)
    ensures
        match r {
            Some(m) => m.wf() && json_object_of(data@) == Some(m@),
            None => json_object_of(data@) is None,
        },
{
    match serde_json::from_slice::<serde_json::Map<String, serde_json::Value>>(data) {
        Ok(object) => {
            let mut out = ValueMap::new();
            for (key, value) in object {
                out.insert(key, simplify_value(value));
            }
            Some(out)
        },
        Err(_) => None,
    }
}

/// Folds the mapping entries first to last into `acc`: an entry whose
/// source field the object holds writes the source's value under the
/// output name. Presence and values are read against the input object
/// `o` throughout, so a source is left in place and a later entry naming
/// the same source still fires; a later entry naming the same output
/// wins.
pub open spec fn apply_entries(
    o: Map<Seq<char>, JsonValueView>,
    mapping: Seq<(Seq<char>, Seq<char>)>,
    acc: Map<Seq<char>, JsonValueView>,
) -> Map<Seq<char>, JsonValueView>
    decreases mapping.len(),
{
    if mapping.len() == 0 {
        acc
    } else {
        let out = mapping[0].0;
        let src = mapping[0].1;
        let acc2 = if o.contains_key(src) {
            acc.insert(out, o[src])
        } else {
            acc
        };
        apply_entries(o, mapping.drop_first(), acc2)
    }
}

/// Non-strict mode: the renamed fields sit alongside every original
/// entry of the object.
pub open spec fn apply_nonstrict(
    o: Map<Seq<char>, JsonValueView>,
    mapping: Seq<(Seq<char>, Seq<char>)>,
) -> Map<Seq<char>, JsonValueView> {
    apply_entries(o, mapping, o)
}

/// Strict mode: only the renamed fields survive.
pub open spec fn apply_strict(
    o: Map<Seq<char>, JsonValueView>,
    mapping: Seq<(Seq<char>, Seq<char>)>,
) -> Map<Seq<char>, JsonValueView> {
    apply_entries(o, mapping, Map::empty())
}

/// What the decoder returns for a parsed object, by mode.
pub open spec fn apply_mapping_spec(
    o: Map<Seq<char>, JsonValueView>,
    mapping: Seq<(Seq<char>, Seq<char>)>,
    strict: bool,
) -> Map<Seq<char>, JsonValueView> {
    if strict {
        apply_strict(o, mapping)
    } else {
        apply_nonstrict(o, mapping)
    }
}

/// What decoding a payload yields: empty input is the empty map; any
/// other input must be the JSON text of an object, whose fields the
/// mapping then renames.
pub open spec fn json_decode_spec(
    data: Seq<u8>,
    mapping: Seq<(Seq<char>, Seq<char>)>,
    strict: bool,
) -> Option<Map<Seq<char>, JsonValueView>> {
    if data.len() == 0 {
        Some(Map::empty())
    } else {
        match json_object_of(data) {
            Some(o) => Some(apply_mapping_spec(o, mapping, strict)),
            None => None,
        }
    }
}

/// Applies the mapping to a parsed object, as [`apply_mapping_spec`]
/// says.
pub fn apply_mapping(o: &ValueMap, mapping: &JsonMapping, strict: bool) -> (r: ValueMap)
    requires
        o.wf(),
    ensures
        r.wf(),
        r@ == apply_mapping_spec(o@, mapping@, strict),
{
    let ghost mv = mapping@;
    let mut result = if strict {
        ValueMap::new()
    } else {
        o.clone()
    };
    let ghost acc0 = result@;
    let n = mapping.0.len();
    proof {
        assert(mv.skip(0) =~= mv);
    }
    for idx in 0..n
        invariant
            o.wf(),
            result.wf(),
            n == mapping.0@.len(),
            mv == mapping@,
            acc0 == (if strict {
                Map::<Seq<char>, JsonValueView>::empty()
            } else {
                o@
            }),
            apply_entries(o@, mv.skip(idx as int), result@) == apply_entries(o@, mv, acc0),
    {
        let ghost rest = mv.skip(idx as int);
        proof {
            assert(rest[0] == mv[idx as int]);
            assert(rest.drop_first() =~= mv.skip(idx as int + 1));
        }
        let src = &mapping.0[idx].1;
        match o.get(src) {
            Some(v) => {
                let value = v.clone();
                result.insert(mapping.0[idx].0.clone(), value);
            },
            None => {},
        }
    }
    proof {
        assert(mv.skip(n as int).len() == 0);
    }
    result
}

/// A decoder for JSON payloads under a mapping.
pub struct JsonDataSerde {
    mapping: JsonMapping,
    strict: bool,
}

impl JsonDataSerde {
    /// The field mapping the decoder was built with.
    pub closed spec fn mapping_view(&self) -> Seq<(Seq<char>, Seq<char>)> {
        self.mapping@
    }

    /// Whether unmapped fields are discarded.
    pub closed spec fn strict_mode(&self) -> bool {
        self.strict
    }

    /// Builds the decoder; a strict decoder with an empty mapping would
    /// discard everything, so that is a configuration error.
    pub fn new(mapping: JsonMapping, strict: bool) -> (r: Result<Self, ConfigError>)
        ensures
            match r {
                Ok(d) => d.mapping_view() == mapping@ && d.strict_mode() == strict && !(strict
                    && mapping@.len() == 0),
                Err(e) => strict && mapping@.len() == 0 && e == ConfigError::EmptyJsonMapping,
            },
    {
        if strict && mapping.0.len() == 0 {
            Err(ConfigError::EmptyJsonMapping)
        } else {
            Ok(JsonDataSerde { mapping, strict })
        }
    }

    /// Decodes one payload to a field map, exactly as
    /// [`json_decode_spec`] says: empty input is the empty map, anything
    /// else must parse as a JSON object, and the mapping renames its
    /// fields.
    pub fn extract_values(&self, data: Vec<u8>) -> (r: Result<ValueMap, DecodeError>)
        ensures
            match r {
                Ok(m) => m.wf() && json_decode_spec(data@, self.mapping_view(), self.strict_mode())
                    == Some(m@),
                Err(e) => json_decode_spec(data@, self.mapping_view(), self.strict_mode()) is None
                    && e == DecodeError::InvalidJson,
            },
    {
        if data.len() == 0 {
            return Ok(ValueMap::new());
        }
        match parse_json_object(&data) {
            None => Err(DecodeError::InvalidJson),
            Some(object) => Ok(apply_mapping(&object, &self.mapping, self.strict)),
        }
    }
}

/// Some mapping entry has this output name.
pub open spec fn is_output(mapping: Seq<(Seq<char>, Seq<char>)>, k: Seq<char>) -> bool {
    exists|i: int| 0 <= i < mapping.len() && mapping[i].0 == k
}

/// Some mapping entry has this output name and a source the object
/// holds, so the fold writes it.
pub open spec fn fired_output(
    mapping: Seq<(Seq<char>, Seq<char>)>,
    o: Map<Seq<char>, JsonValueView>,
    k: Seq<char>,
) -> bool {
    exists|i: int| 0 <= i < mapping.len() && mapping[i].0 == k && o.contains_key(mapping[i].1)
}

/// What one fold pass does, for any accumulator: it adds exactly the
/// fired outputs, keeps every accumulator entry no fired output
/// overwrites, and — with pairwise distinct output names — each fired
/// output holds its entry's source value.
proof fn lemma_apply_entries_props(
    o: Map<Seq<char>, JsonValueView>,
    mapping: Seq<(Seq<char>, Seq<char>)>,
    acc: Map<Seq<char>, JsonValueView>,
)
    ensures
        forall|k: Seq<char>|
            #![trigger acc.contains_key(k)]
            acc.contains_key(k) ==> apply_entries(o, mapping, acc).contains_key(k),
        forall|k: Seq<char>|
            #![trigger acc.contains_key(k)]
            acc.contains_key(k) && !fired_output(mapping, o, k) ==> apply_entries(o, mapping, acc)[
                k] == acc[k],
        forall|k: Seq<char>| #[trigger]
            apply_entries(o, mapping, acc).contains_key(k) ==> acc.contains_key(k) || fired_output(
                mapping,
                o,
                k,
            ),
        (forall|i: int, j: int|
            0 <= i < j < mapping.len() ==> mapping[i].0 != mapping[j].0) ==> forall|i: int|
            #![trigger mapping[i]]
            0 <= i < mapping.len() && o.contains_key(mapping[i].1) ==> apply_entries(
                o,
                mapping,
                acc,
            ).contains_key(mapping[i].0) && apply_entries(o, mapping, acc)[mapping[i].0]
                == o[mapping[i].1],
    decreases mapping.len(),
{
    if mapping.len() == 0 {
        assert(apply_entries(o, mapping, acc) == acc);
        return ;
    }
    let out = mapping[0].0;
    let src = mapping[0].1;
    let rest = mapping.drop_first();
    let acc2 = if o.contains_key(src) {
        acc.insert(out, o[src])
    } else {
        acc
    };
    let result = apply_entries(o, mapping, acc);
    assert(result == apply_entries(o, rest, acc2));
    assert(forall|i: int| 0 <= i < rest.len() ==> #[trigger] rest[i] == mapping[i + 1]);
    lemma_apply_entries_props(o, rest, acc2);
    assert forall|k: Seq<char>|
        #![trigger acc.contains_key(k)]
        acc.contains_key(k) implies result.contains_key(k) by {
        assert(acc2.contains_key(k));
    }
    assert forall|k: Seq<char>|
        #![trigger acc.contains_key(k)]
        acc.contains_key(k) && !fired_output(mapping, o, k) implies result[k] == acc[k] by {
        assert(mapping[0] == mapping[0]);
        assert(!(out == k && o.contains_key(src)));
        assert(acc2.contains_key(k) && acc2[k] == acc[k]);
        assert(!fired_output(rest, o, k)) by {
            if fired_output(rest, o, k) {
                let i = choose|i: int|
                    0 <= i < rest.len() && rest[i].0 == k && o.contains_key(rest[i].1);
                assert(mapping[i + 1].0 == k && o.contains_key(mapping[i + 1].1));
            }
        }
        assert(result[k] == acc2[k]);
    }
    assert forall|k: Seq<char>| #[trigger]
        result.contains_key(k) implies acc.contains_key(k) || fired_output(mapping, o, k) by {
        if !acc.contains_key(k) {
            if acc2.contains_key(k) {
                assert(k == out && o.contains_key(src));
                assert(mapping[0].0 == k && o.contains_key(mapping[0].1));
            } else {
                let i = choose|i: int|
                    0 <= i < rest.len() && rest[i].0 == k && o.contains_key(rest[i].1);
                assert(mapping[i + 1].0 == k && o.contains_key(mapping[i + 1].1));
            }
        }
    }
    if forall|i: int, j: int| 0 <= i < j < mapping.len() ==> mapping[i].0 != mapping[j].0 {
        assert forall|i: int, j: int| 0 <= i < j < rest.len() implies rest[i].0 != rest[j].0 by {
            assert(rest[i] == mapping[i + 1]);
            assert(rest[j] == mapping[j + 1]);
        }
        assert forall|i: int|
            #![trigger mapping[i]]
            0 <= i < mapping.len() && o.contains_key(mapping[i].1) implies result.contains_key(
            mapping[i].0,
        ) && result[mapping[i].0] == o[mapping[i].1] by {
            if i == 0 {
                assert(acc2.contains_key(out) && acc2[out] == o[src]);
                assert(!fired_output(rest, o, out)) by {
                    if fired_output(rest, o, out) {
                        let j = choose|j: int|
                            0 <= j < rest.len() && rest[j].0 == out && o.contains_key(rest[j].1);
                        assert(mapping[j + 1].0 == mapping[0].0);
                    }
                }
                assert(result.contains_key(out));
                assert(result[out] == acc2[out]);
            } else {
                assert(rest[i - 1] == mapping[i]);
                assert(result.contains_key(rest[i - 1].0) && result[rest[i - 1].0] == o[rest[i
                    - 1].1]);
            }
        }
    }
}

/// Non-strict mapping, for pairwise distinct output names: every entry
/// whose source the object holds appears under its output name with the
/// source's original value; the source entry is left in place; every
/// field no fired output overwrites keeps its value; and nothing appears
/// that is neither an original field nor a fired output.
pub proof fn lemma_json_nonstrict_mapping(
    o: Map<Seq<char>, JsonValueView>,
    mapping: Seq<(Seq<char>, Seq<char>)>,
)
    requires
        forall|i: int, j: int| 0 <= i < j < mapping.len() ==> mapping[i].0 != mapping[j].0,
    ensures
        forall|i: int|
            #![trigger mapping[i]]
            0 <= i < mapping.len() && o.contains_key(mapping[i].1) ==> apply_nonstrict(
                o,
                mapping,
            ).contains_key(mapping[i].0) && apply_nonstrict(o, mapping)[mapping[i].0]
                == o[mapping[i].1],
        forall|k: Seq<char>|
            #![trigger o.contains_key(k)]
            o.contains_key(k) ==> apply_nonstrict(o, mapping).contains_key(k),
        forall|k: Seq<char>|
            #![trigger o.contains_key(k)]
            o.contains_key(k) && !fired_output(mapping, o, k) ==> apply_nonstrict(o, mapping)[k]
                == o[k],
        forall|k: Seq<char>| #[trigger]
            apply_nonstrict(o, mapping).contains_key(k) ==> o.contains_key(k) || fired_output(
                mapping,
                o,
                k,
            ),
{
    lemma_apply_entries_props(o, mapping, o);
}

/// Strict mapping, for pairwise distinct output names: a key is present
/// exactly when some entry names it as output and the object holds that
/// entry's source — presence read against the input object — and it then
/// holds the source's original value. No other field survives.
pub proof fn lemma_json_strict_mapping(
    o: Map<Seq<char>, JsonValueView>,
    mapping: Seq<(Seq<char>, Seq<char>)>,
)
    requires
        forall|i: int, j: int| 0 <= i < j < mapping.len() ==> mapping[i].0 != mapping[j].0,
    ensures
        forall|k: Seq<char>| #[trigger]
            apply_strict(o, mapping).contains_key(k) <==> fired_output(mapping, o, k),
        forall|k: Seq<char>| #[trigger]
            apply_strict(o, mapping).contains_key(k) ==> is_output(mapping, k),
        forall|i: int|
            #![trigger mapping[i]]
            0 <= i < mapping.len() && o.contains_key(mapping[i].1) ==> apply_strict(
                o,
                mapping,
            ).contains_key(mapping[i].0) && apply_strict(o, mapping)[mapping[i].0]
                == o[mapping[i].1],
{
    lemma_apply_entries_props(o, mapping, Map::empty());
    assert forall|k: Seq<char>| #[trigger]
        apply_strict(o, mapping).contains_key(k) <==> fired_output(mapping, o, k) by {
        if fired_output(mapping, o, k) {
            let i = choose|i: int|
                0 <= i < mapping.len() && mapping[i].0 == k && o.contains_key(mapping[i].1);
            assert(apply_entries(o, mapping, Map::empty()).contains_key(mapping[i].0));
        }
    }
    assert forall|k: Seq<char>| #[trigger]
        apply_strict(o, mapping).contains_key(k) implies is_output(mapping, k) by {
        let i = choose|i: int|
            0 <= i < mapping.len() && mapping[i].0 == k && o.contains_key(mapping[i].1);
        assert(mapping[i].0 == k);
    }
}

} // verus!
