//! The error taxonomy of the service.
//!
//! Per-message errors never travel above the message processor, and
//! per-subscription errors never travel above the subscription listener;
//! only configuration and storage failures reach the supervisor.

use vstd::prelude::*;

verus! {

/// A payload on the bus could not be decoded.
#[derive(Clone, Copy, PartialEq, Eq, Structural, Debug)]
pub enum DecodeError {
    /// The bytes were not the JSON object the topic promised.
    InvalidJson,
    /// The bytes were not well-formed protobuf wire data, or a mapped
    /// string field was not UTF-8.
    InvalidWire,
}

/// A decoder was built from an unusable mapping.
#[derive(Clone, Copy, PartialEq, Eq, Structural, Debug)]
pub enum ConfigError {
    /// A strict JSON mapping must name at least one field.
    EmptyJsonMapping,
    /// A protobuf mapping must name at least one field.
    EmptyProtobufMapping,
}

/// The store backend failed; the owning component crashes and is
/// restarted by the supervisor.
#[derive(Clone, Copy, PartialEq, Eq, Structural, Debug)]
pub enum StorageError {
    Backend,
}

/// What went wrong while handling one inbound bus message or one
/// registration.
#[derive(Clone, Copy, PartialEq, Eq, Structural, Debug)]
pub enum Error {
    /// Startup only: a decoder could not be built.
    Config(ConfigError),
    /// The router sent a malformed subscription request.
    InvalidRequest,
    /// The registration carried no value for the operation's `id_key`.
    InvalidIdentifier,
    /// No listener is configured for the requested field name.
    UnknownOperation,
    /// Bad bytes on the bus; the message is dropped.
    Decode(DecodeError),
    /// A callback POST failed; the subscription record is removed.
    Dispatch,
    /// The store backend failed.
    Storage(StorageError),
}

} // verus!
