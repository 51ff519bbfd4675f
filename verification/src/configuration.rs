//! Configuration data for listeners and topics.
//!
//! A configured operation names a GraphQL subscription field, the entity
//! it returns, the argument that identifies the entity, a TTL for
//! persisted subscriptions, and the topics to consume. Each topic says
//! how its payload is decoded and how decoded fields are renamed.

use vstd::prelude::*;

verus! {

/// How a topic's payload is decoded.
#[derive(Clone, Copy, PartialEq, Eq, Structural, Debug)]
pub enum TopicDataSerde {
    Protobuf,
    ProtobufWire,
    Json,
}

impl Default for TopicDataSerde {
    fn default() -> (r: Self)
        ensures
            r is ProtobufWire,
    {
        TopicDataSerde::ProtobufWire
    }
}

/// Which half of a bus record a topic decodes.
#[derive(Clone, Copy, PartialEq, Eq, Structural, Debug)]
pub enum TopicDataSource {
    Key,
    Value,
}

impl Default for TopicDataSource {
    fn default() -> (r: Self)
        ensures
            r is Key,
    {
        TopicDataSource::Key
    }
}

/// A numeric protobuf field tag.
pub struct ProtobufTag(pub u32);

impl Default for ProtobufTag {
    fn default() -> (r: Self)
        ensures
            r.0 == 1u32,
    {
        ProtobufTag(1)
    }
}

/// Mapping from output field name to protobuf field tag, in a fixed
/// order; the first entry with a tag wins when tags repeat.
pub struct ProtobufMapping(pub Vec<(String, u32)>);

impl View for ProtobufMapping {
    type V = Seq<(Seq<char>, u32)>;

    open spec fn view(&self) -> Seq<(Seq<char>, u32)> {
        self.0@.map_values(|p: (String, u32)| (p.0@, p.1))
    }
}

impl Clone for ProtobufMapping {
    fn clone(&self) -> (r: Self)
        ensures
            r@ == self@,
    {
        let mut pairs: Vec<(String, u32)> = Vec::new();
        let n = self.0.len();
        for i in 0..n
            invariant
                n == self.0@.len(),
                pairs@.len() == i,
                forall|j: int| 0 <= j < i ==> pairs@[j].0@ == self.0@[j].0@,
                forall|j: int| 0 <= j < i ==> pairs@[j].1 == self.0@[j].1,
        {
            let k = self.0[i].0.clone();
            pairs.push((k, self.0[i].1));
        }
        proof {
            assert(pairs@.map_values(|p: (String, u32)| (p.0@, p.1)) =~= self.0@.map_values(
                |p: (String, u32)| (p.0@, p.1),
            ));
        }
        ProtobufMapping(pairs)
    }
}

/// Mapping from output field name to source field name, in a fixed order;
/// entries are applied first to last.
pub struct JsonMapping(pub Vec<(String, String)>);

impl View for JsonMapping {
    type V = Seq<(Seq<char>, Seq<char>)>;

    open spec fn view(&self) -> Seq<(Seq<char>, Seq<char>)> {
        self.0@.map_values(|p: (String, String)| (p.0@, p.1@))
    }
}

impl Clone for JsonMapping {
    fn clone(&self) -> (r: Self)
        ensures
            r@ == self@,
    {
        let mut pairs: Vec<(String, String)> = Vec::new();
        let n = self.0.len();
        for i in 0..n
            invariant
                n == self.0@.len(),
                pairs@.len() == i,
                forall|j: int| 0 <= j < i ==> pairs@[j].0@ == self.0@[j].0@,
                forall|j: int| 0 <= j < i ==> pairs@[j].1@ == self.0@[j].1@,
        {
            let k = self.0[i].0.clone();
            let v = self.0[i].1.clone();
            pairs.push((k, v));
        }
        proof {
            assert(pairs@.map_values(|p: (String, String)| (p.0@, p.1@)) =~= self.0@.map_values(
                |p: (String, String)| (p.0@, p.1@),
            ));
        }
        JsonMapping(pairs)
    }
}

impl Default for JsonMapping {
    fn default() -> (r: Self)
        ensures
            r@.len() == 0,
    {
        JsonMapping(Vec::new())
    }
}

/// Bound on a topic mailbox.
pub struct TopicCap(pub usize);

impl Default for TopicCap {
    fn default() -> (r: Self)
        ensures
            r.0 == 64usize,
    {
        TopicCap(64)
    }
}

/// One topic an operation listens on.
pub struct Topic {
    /// The name of the topic.
    pub name: String,
    /// Optional delay, in milliseconds, between receiving a message and
    /// notifying the router.
    pub delay_ms: Option<u64>,
    /// How the payload is decoded.
    pub data_serde: TopicDataSerde,
    /// Which half of the bus record is decoded.
    pub data_source: TopicDataSource,
    /// In JSON mode, keep only the mapped fields.
    pub strict_mapping: bool,
    /// Mapping for protobuf payloads.
    pub protobuf_mapping: ProtobufMapping,
    /// Mapping for JSON payloads.
    pub json_mapping: JsonMapping,
    /// A message on this topic completes and removes every matching
    /// subscription after one final `next`.
    pub terminates_subscriptions: bool,
}

/// The mathematical value of a [`Topic`].
pub struct TopicView {
    pub name: Seq<char>,
    pub delay_ms: Option<u64>,
    pub data_serde: TopicDataSerde,
    pub data_source: TopicDataSource,
    pub strict_mapping: bool,
    pub protobuf_mapping: Seq<(Seq<char>, u32)>,
    pub json_mapping: Seq<(Seq<char>, Seq<char>)>,
    pub terminates_subscriptions: bool,
}

impl View for Topic {
    type V = TopicView;

    open spec fn view(&self) -> TopicView {
        TopicView {
            name: self.name@,
            delay_ms: self.delay_ms,
            data_serde: self.data_serde,
            data_source: self.data_source,
            strict_mapping: self.strict_mapping,
            protobuf_mapping: self.protobuf_mapping@,
            json_mapping: self.json_mapping@,
            terminates_subscriptions: self.terminates_subscriptions,
        }
    }
}

impl Clone for Topic {
    fn clone(&self) -> (r: Self)
        ensures
            r@ == self@,
    {
        Topic {
            name: self.name.clone(),
            delay_ms: self.delay_ms,
            data_serde: self.data_serde,
            data_source: self.data_source,
            strict_mapping: self.strict_mapping,
            protobuf_mapping: self.protobuf_mapping.clone(),
            json_mapping: self.json_mapping.clone(),
            terminates_subscriptions: self.terminates_subscriptions,
        }
    }
}

/// One configured operation.
pub struct Listener {
    /// The GraphQL subscription field to listen for.
    pub operation: String,
    /// The entity type returned to subscribers.
    pub entity_name: String,
    /// Description for the generated schema; auto-generated when absent.
    pub description: Option<String>,
    /// The argument name that identifies the entity.
    pub id_key: String,
    /// Group TTL, in milliseconds, for persisted subscriptions.
    pub ttl_ms: u64,
    /// The topics to listen on.
    pub topics: Vec<Topic>,
    /// Emit an initial `next` right after a successful registration.
    pub publish_initial_update: bool,
}

/// The mathematical value of a [`Listener`].
pub struct ListenerView {
    pub operation: Seq<char>,
    pub entity_name: Seq<char>,
    pub description: Option<Seq<char>>,
    pub id_key: Seq<char>,
    pub ttl_ms: u64,
    pub topics: Seq<TopicView>,
    pub publish_initial_update: bool,
}

impl View for Listener {
    type V = ListenerView;

    open spec fn view(&self) -> ListenerView {
        ListenerView {
            operation: self.operation@,
            entity_name: self.entity_name@,
            description: match self.description {
                Some(d) => Some(d@),
                None => None,
            },
            id_key: self.id_key@,
            ttl_ms: self.ttl_ms,
            topics: self.topics@.map_values(|t: Topic| t@),
            publish_initial_update: self.publish_initial_update,
        }
    }
}

impl Clone for Listener {
    fn clone(&self) -> (r: Self)
        ensures
            r@ == self@,
    {
        let mut topics: Vec<Topic> = Vec::new();
        let n = self.topics.len();
        for i in 0..n
            invariant
                n == self.topics@.len(),
                topics@.len() == i,
                forall|j: int| 0 <= j < i ==> topics@[j]@ == self.topics@[j]@,
        {
            topics.push(self.topics[i].clone());
        }
        let r = Listener {
            operation: self.operation.clone(),
            entity_name: self.entity_name.clone(),
            description: match &self.description {
                Some(d) => Some(d.clone()),
                None => None,
            },
            id_key: self.id_key.clone(),
            ttl_ms: self.ttl_ms,
            topics,
            publish_initial_update: self.publish_initial_update,
        };
        proof {
            assert(r.topics@.map_values(|t: Topic| t@) =~= self.topics@.map_values(|t: Topic| t@));
        }
        r
    }
}

/// The configured operations, in configuration order.
pub type Listeners = Vec<Listener>;

/// Which store backend to use.
#[derive(Clone, Copy, PartialEq, Eq, Structural, Debug)]
pub enum KvStoreAdapter {
    InMemory,
    Redis,
}

impl Default for KvStoreAdapter {
    fn default() -> (r: Self)
        ensures
            r is InMemory,
    {
        KvStoreAdapter::InMemory
    }
}

/// Which bus consumer to use.
#[derive(Clone, Copy, PartialEq, Eq, Structural, Debug)]
pub enum MessageConsumerAdapter {
    Kafka,
}

impl Default for MessageConsumerAdapter {
    fn default() -> (r: Self)
        ensures
            r is Kafka,
    {
        MessageConsumerAdapter::Kafka
    }
}

/// Which router client to use.
#[derive(Clone, Copy, PartialEq, Eq, Structural, Debug)]
pub enum RouterClientAdapter {
    InMemory,
    Http,
}

impl Default for RouterClientAdapter {
    fn default() -> (r: Self)
        ensures
            r is InMemory,
    {
        RouterClientAdapter::InMemory
    }
}

} // verus!
