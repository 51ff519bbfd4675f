//! The decoder a topic is configured with: JSON, protobuf, or protobuf
//! behind the wire envelope.

use vstd::prelude::*;

use crate::configuration::{Topic, TopicDataSerde};
use crate::errors::{ConfigError, DecodeError};
use crate::json_serde::{json_decode_spec, JsonDataSerde};
use crate::json_value::{JsonValueView, ValueMap};
use crate::protobuf_serde::{pb_decode, ProtobufDataSerde};

verus! {

/// One topic's decoder.
pub enum Decoder {
    Json(JsonDataSerde),
    Protobuf(ProtobufDataSerde),
}

/// What a decoder yields on a payload, or nothing when the payload is
/// rejected: the JSON or the protobuf decoding function of its
/// configuration.
pub open spec fn decoded_value(d: Decoder, input: Seq<u8>) -> Option<
    Map<Seq<char>, JsonValueView>,
> {
    match d {
        Decoder::Json(j) => json_decode_spec(input, j.mapping_view(), j.strict_mode()),
        Decoder::Protobuf(p) => pb_decode(p.effective_input(input), p.mapping_view()),
    }
}

/// The error a decoder reports when it rejects a payload.
pub open spec fn decoder_error(d: Decoder) -> DecodeError {
    match d {
        Decoder::Json(_) => DecodeError::InvalidJson,
        Decoder::Protobuf(_) => DecodeError::InvalidWire,
    }
}

impl Decoder {
    /// Builds the decoder a topic asks for: its JSON mapping in strict
    /// or non-strict mode, or its protobuf mapping with the wire
    /// envelope stripped exactly in wire mode.
    pub fn build(topic: &Topic) -> (r: Result<Decoder, ConfigError>)
        ensures
            match r {
                Ok(d) => match d {
                    Decoder::Json(j) => topic.data_serde is Json && j.mapping_view()
                        == topic.json_mapping@ && j.strict_mode() == topic.strict_mapping,
                    Decoder::Protobuf(p) => !(topic.data_serde is Json) && p.mapping_view()
                        == topic.protobuf_mapping@ && p.wire_mode() == (
                    topic.data_serde is ProtobufWire),
                },
                Err(e) => (topic.data_serde is Json && e == ConfigError::EmptyJsonMapping
                    && topic.strict_mapping && topic.json_mapping@.len() == 0) || (!(
                topic.data_serde is Json) && e == ConfigError::EmptyProtobufMapping
                    && topic.protobuf_mapping@.len() == 0),
            },
    {
        match topic.data_serde {
            TopicDataSerde::Json => {
                match JsonDataSerde::new(topic.json_mapping.clone(), topic.strict_mapping) {
                    Ok(j) => Ok(Decoder::Json(j)),
                    Err(e) => Err(e),
                }
            },
            TopicDataSerde::Protobuf => {
                match ProtobufDataSerde::new(topic.protobuf_mapping.clone(), false) {
                    Ok(p) => Ok(Decoder::Protobuf(p)),
                    Err(e) => Err(e),
                }
            },
            TopicDataSerde::ProtobufWire => {
                match ProtobufDataSerde::new(topic.protobuf_mapping.clone(), true) {
                    Ok(p) => Ok(Decoder::Protobuf(p)),
                    Err(e) => Err(e),
                }
            },
        }
    }

    /// Decodes one payload under the topic's mapping, exactly as
    /// [`decoded_value`] says.
    pub fn extract_values(&self, data: Vec<u8>) -> (r: Result<ValueMap, DecodeError>)
        ensures
            match r {
                Ok(m) => m.wf() && decoded_value(*self, data@) == Some(m@),
                Err(e) => decoded_value(*self, data@) is None && e == decoder_error(*self),
            },
    {
        match self {
            Decoder::Json(j) => j.extract_values(data),
            Decoder::Protobuf(p) => p.extract_values(data),
        }
    }
}

} // verus!
