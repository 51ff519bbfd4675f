//! Bridge between a topic-partitioned message bus and a federated GraphQL
//! router speaking the HTTP callback subscription protocol.
//!
//! The crate holds the verified core: decoding bus payloads (JSON or
//! protobuf wire format) into field maps, the subscription store keyed by
//! `(operation, id_value)`, the callback envelope builder, and the
//! dispatch logic that fans a decoded message out to every matching
//! subscription. I/O adapters (HTTP, Kafka, Redis) live outside the
//! library and drive it through plain values.

pub mod assoc;
pub mod configuration;
pub mod data_serde;
pub mod encoding;
pub mod errors;
pub mod graphql;
pub mod health;
pub mod in_memory_kv;
pub mod json_serde;
pub mod json_value;
pub mod kv_store;
pub mod listener;
pub mod message_consumer;
pub mod message_processor;
pub mod protobuf_serde;
pub mod router_client;
pub mod router_message;
pub mod strings;
pub mod subscription_listener;
pub mod subscription_store;
pub mod topic_listener;
