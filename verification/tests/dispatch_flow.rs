//! End-to-end flows over the in-process backends: registration,
//! fan-out, delete-on-failure, terminal topics, delays, and the store
//! invariants.

use pathfinder::configuration::{
    JsonMapping, Listener as ListenerConfig, ProtobufMapping, Topic, TopicDataSerde,
    TopicDataSource,
};
use pathfinder::errors::Error;
use pathfinder::in_memory_kv::{InMemoryKvStore, InMemoryKvStoreFactory};
use pathfinder::json_value::{JsonValue, ValueMap};
use pathfinder::kv_store::KvStore;
use pathfinder::listener::Listener;
use pathfinder::message_consumer::RawMessage;
use pathfinder::message_processor::{DispatchOutcome, MessageProcessor};
use pathfinder::router_client::{Action, InMemoryRouterClient, Request, SubscriptionProtocol};
use pathfinder::subscription_listener::{IncomingSubscription, SubscriptionListener};
use pathfinder::subscription_store::{decode_record, SubscriptionKey, SubscriptionRecord};
use pathfinder::topic_listener::{consumer_group_id, TopicListener};

fn json_topic(name: &str, strict: bool, mapping: &[(&str, &str)]) -> Topic {
    let mut pairs: Vec<(String, String)> = Vec::new();
    for (k, v) in mapping {
        pairs.push((k.to_string(), v.to_string()));
    }
    Topic {
        name: name.to_string(),
        delay_ms: None,
        data_serde: TopicDataSerde::Json,
        data_source: TopicDataSource::Value,
        strict_mapping: strict,
        protobuf_mapping: ProtobufMapping(vec![("id".to_string(), 1)]),
        json_mapping: JsonMapping(pairs),
        terminates_subscriptions: false,
    }
}

fn charging_config(topics: Vec<Topic>) -> ListenerConfig {
    ListenerConfig {
        operation: "chargingSessionChanged".to_string(),
        entity_name: "ChargingSession".to_string(),
        description: None,
        id_key: "id".to_string(),
        ttl_ms: 60_000,
        topics,
        publish_initial_update: false,
    }
}

fn record(id: &str, url: &str, id_value: &str) -> SubscriptionRecord {
    SubscriptionRecord {
        id: id.to_string(),
        created_at: 1_700_000_000,
        verifier: "v".to_string(),
        heartbeat_interval_ms: 5000,
        callback_url: url.to_string(),
        operation: "chargingSessionChanged".to_string(),
        operation_id_value: id_value.to_string(),
    }
}

fn processor_for(topic: Topic) -> MessageProcessor<InMemoryRouterClient, InMemoryKvStore> {
    let cfg = charging_config(vec![topic.clone()]);
    MessageProcessor::spawn(
        InMemoryRouterClient::new(),
        &InMemoryKvStoreFactory::new(),
        cfg,
        topic,
    )
    .unwrap()
}

fn bus_value(topic: &str, body: &str) -> RawMessage {
    RawMessage {
        key: None,
        value: body.as_bytes().to_vec(),
        topic: topic.to_string(),
    }
}

fn payload_str(request: &Request, key: &str) -> Option<String> {
    match request.payload.as_ref()?.data.get(&key.to_string()) {
        Some(JsonValue::Str(s)) => Some(s.clone()),
        _ => None,
    }
}

#[test]
fn json_message_dispatches_next_with_typename() {
    // One JSON topic, empty non-strict mapping, one live subscription:
    // one next callback carrying the decoded fields and __typename.
    let mut processor = processor_for(json_topic("t1", false, &[]));
    processor
        .subscription_store
        .insert(&record("sub1", "http://r", "X"), 60_000)
        .unwrap();

    let dispatches = processor
        .handle_raw_message(bus_value("t1", r#"{"id":"X","status":"A"}"#))
        .unwrap();
    assert_eq!(dispatches.len(), 1);
    assert_eq!(
        processor.handle_dispatch(&dispatches[0]).unwrap(),
        DispatchOutcome::Delivered
    );

    let sent = processor.router_client.sent_requests();
    assert_eq!(sent.len(), 1);
    let request = &sent[0];
    assert_eq!(request.callback_url, "http://r");
    assert_eq!(request.id, "sub1");
    assert_eq!(request.verifier, "v");
    assert_eq!(request.action, Some(Action::Next));
    let payload = request.payload.as_ref().unwrap();
    assert_eq!(payload.operation, "chargingSessionChanged");
    assert_eq!(payload_str(request, "id"), Some("X".to_string()));
    assert_eq!(payload_str(request, "status"), Some("A".to_string()));
    assert_eq!(payload_str(request, "__typename"), Some("ChargingSession".to_string()));
}

#[test]
fn strict_mapping_keeps_only_mapped_fields() {
    let mut processor = processor_for(json_topic("t1", true, &[("id", "id")]));
    processor
        .subscription_store
        .insert(&record("sub1", "http://r", "X"), 60_000)
        .unwrap();

    let dispatches = processor
        .handle_raw_message(bus_value("t1", r#"{"id":"X","status":"A"}"#))
        .unwrap();
    assert_eq!(dispatches.len(), 1);
    processor.handle_dispatch(&dispatches[0]).unwrap();

    let sent = processor.router_client.sent_requests();
    let request = &sent[0];
    assert_eq!(payload_str(request, "id"), Some("X".to_string()));
    assert!(payload_str(request, "status").is_none());
    // id and __typename only
    assert_eq!(request.payload.as_ref().unwrap().data.len_exec(), 2);
}

#[test]
fn wire_protobuf_message_dispatches_by_mapped_tag() {
    let topic = Topic {
        name: "t1".to_string(),
        delay_ms: None,
        data_serde: TopicDataSerde::ProtobufWire,
        data_source: TopicDataSource::Value,
        strict_mapping: false,
        protobuf_mapping: ProtobufMapping(vec![("id".to_string(), 1)]),
        json_mapping: JsonMapping(Vec::new()),
        terminates_subscriptions: false,
    };
    let mut processor = processor_for(topic);
    processor
        .subscription_store
        .insert(&record("sub1", "http://r", "X"), 60_000)
        .unwrap();

    let mut value = vec![0x00u8, 0x01, 0x02, 0x03, 0x04, 0x00];
    prost::encoding::string::encode(1, &"X".to_string(), &mut value);
    let message = RawMessage { key: None, value, topic: "t1".to_string() };

    let dispatches = processor.handle_raw_message(message).unwrap();
    assert_eq!(dispatches.len(), 1);
    processor.handle_dispatch(&dispatches[0]).unwrap();
    let sent = processor.router_client.sent_requests();
    assert_eq!(payload_str(&sent[0], "id"), Some("X".to_string()));
}

#[test]
fn failed_callback_removes_the_record() {
    // The in-process router fails URLs ending in /error: after the first
    // dispatch the record is gone and later messages fan out to nobody.
    let mut processor = processor_for(json_topic("t1", false, &[]));
    processor
        .subscription_store
        .insert(&record("sub1", "http://r/error", "X"), 60_000)
        .unwrap();

    let dispatches = processor
        .handle_raw_message(bus_value("t1", r#"{"id":"X"}"#))
        .unwrap();
    assert_eq!(dispatches.len(), 1);
    assert_eq!(
        processor.handle_dispatch(&dispatches[0]).unwrap(),
        DispatchOutcome::FailedAndRemoved
    );

    let key = SubscriptionKey {
        operation: "chargingSessionChanged".to_string(),
        operation_id_value: "X".to_string(),
    };
    assert!(processor.subscription_store.get_all(&key).unwrap().is_empty());

    let later = processor
        .handle_raw_message(bus_value("t1", r#"{"id":"X"}"#))
        .unwrap();
    assert!(later.is_empty());
    assert_eq!(processor.router_client.sent_requests().len(), 1);
}

#[test]
fn delayed_topic_returns_pending_dispatches() {
    // With delay_ms set, routing plans but does not post; the runtime
    // performs the dispatch after the delay, and the mailbox stays free
    // for further messages meanwhile.
    let mut topic = json_topic("t1", false, &[]);
    topic.delay_ms = Some(100);
    let cfg = charging_config(vec![topic]);
    let mut listener: TopicListener<InMemoryRouterClient, InMemoryKvStore> =
        TopicListener::spawn(InMemoryRouterClient::new(), &InMemoryKvStoreFactory::new(), cfg)
            .unwrap();
    listener.message_processors[0]
        .1
        .subscription_store
        .insert(&record("sub1", "http://r", "X"), 60_000)
        .unwrap();

    let pending = listener
        .handle_message(bus_value("t1", r#"{"id":"X"}"#))
        .unwrap();
    assert_eq!(pending.len(), 1);
    assert_eq!(
        listener.message_processors[0].1.router_client.sent_requests().len(),
        0
    );

    // A further message is accepted while the dispatch waits.
    let more = listener
        .handle_message(bus_value("t1", r#"{"id":"Y"}"#))
        .unwrap();
    assert!(more.is_empty());

    let outcome = listener
        .dispatch_delayed(&"t1".to_string(), &pending[0])
        .unwrap();
    assert_eq!(outcome, Some(DispatchOutcome::Delivered));
    assert_eq!(
        listener.message_processors[0].1.router_client.sent_requests().len(),
        1
    );
}

#[test]
fn terminal_topic_completes_and_removes() {
    let mut topic = json_topic("t1", false, &[]);
    topic.terminates_subscriptions = true;
    let mut processor = processor_for(topic);
    processor
        .subscription_store
        .insert(&record("sub1", "http://r", "X"), 60_000)
        .unwrap();

    let dispatches = processor
        .handle_raw_message(bus_value("t1", r#"{"id":"X"}"#))
        .unwrap();
    assert_eq!(
        processor.handle_dispatch(&dispatches[0]).unwrap(),
        DispatchOutcome::CompletedAndRemoved
    );

    let sent = processor.router_client.sent_requests();
    assert_eq!(sent.len(), 2);
    assert_eq!(sent[0].action, Some(Action::Next));
    assert_eq!(sent[1].action, Some(Action::Complete));

    let later = processor
        .handle_raw_message(bus_value("t1", r#"{"id":"X"}"#))
        .unwrap();
    assert!(later.is_empty());
}

#[test]
fn fan_out_reaches_every_live_subscription() {
    // Three subscriptions under one identifier: exactly three next
    // callbacks, one per subscription.
    let mut processor = processor_for(json_topic("t1", false, &[]));
    for id in ["a", "b", "c"] {
        processor
            .subscription_store
            .insert(&record(id, "http://r", "X"), 60_000)
            .unwrap();
    }

    let dispatches = processor
        .handle_raw_message(bus_value("t1", r#"{"id":"X"}"#))
        .unwrap();
    assert_eq!(dispatches.len(), 3);
    processor.dispatch_all(&dispatches).unwrap();

    let sent = processor.router_client.sent_requests();
    assert_eq!(sent.len(), 3);
    let mut ids: Vec<String> = sent.iter().map(|r| r.id.clone()).collect();
    ids.sort();
    assert_eq!(ids, vec!["a".to_string(), "b".to_string(), "c".to_string()]);
}

#[test]
fn store_keys_are_unique_per_composite_key() {
    // Re-inserting the same (operation, id_value, id) replaces rather
    // than duplicates; distinct ids coexist.
    let mut processor = processor_for(json_topic("t1", false, &[]));
    processor
        .subscription_store
        .insert(&record("sub1", "http://r", "X"), 60_000)
        .unwrap();
    processor
        .subscription_store
        .insert(&record("sub1", "http://other", "X"), 60_000)
        .unwrap();
    processor
        .subscription_store
        .insert(&record("sub2", "http://r", "X"), 60_000)
        .unwrap();

    let key = SubscriptionKey {
        operation: "chargingSessionChanged".to_string(),
        operation_id_value: "X".to_string(),
    };
    let records = processor.subscription_store.get_all(&key).unwrap();
    assert_eq!(records.len(), 2);
    assert_ne!(records[0].id, records[1].id);
}

#[test]
fn insert_refreshes_the_group_ttl() {
    let mut store = InMemoryKvStore::new();
    let key = "chargingSessionChanged:X".to_string();
    store
        .insert_map_key(key.clone(), "sub1".to_string(), vec![1], 5_000)
        .unwrap();
    assert_eq!(store.group_ttl(&key), Some(5_000));
    store
        .insert_map_key(key.clone(), "sub2".to_string(), vec![2], 60_000)
        .unwrap();
    assert_eq!(store.group_ttl(&key), Some(60_000));
}

#[test]
fn registration_persists_and_posts_check() {
    let cfg = charging_config(vec![json_topic("t1", false, &[])]);
    let mut listener: SubscriptionListener<InMemoryRouterClient, InMemoryKvStore> =
        SubscriptionListener::spawn(
            InMemoryRouterClient::new(),
            &InMemoryKvStoreFactory::new(),
            cfg,
        )
        .unwrap();

    let mut arguments = pathfinder::json_value::StrMap::new();
    arguments.insert("id".to_string(), "X".to_string());
    let incoming = IncomingSubscription {
        id: "sub1".to_string(),
        verifier: "v".to_string(),
        heartbeat_interval_ms: 5000,
        callback_url: "http://r".to_string(),
        operation: "chargingSessionChanged".to_string(),
        arguments,
    };
    listener.handle_incoming(incoming, 1_700_000_000).unwrap();

    let sent = listener.router_client.sent_requests();
    assert_eq!(sent.len(), 1);
    assert_eq!(sent[0].action, Some(Action::Check));

    let key = SubscriptionKey {
        operation: "chargingSessionChanged".to_string(),
        operation_id_value: "X".to_string(),
    };
    let records = listener.subscription_store.get_all(&key).unwrap();
    assert_eq!(records.len(), 1);
    assert_eq!(records[0].id, "sub1");
    assert_eq!(records[0].created_at, 1_700_000_000);
}

#[test]
fn registration_without_identifier_fails() {
    let cfg = charging_config(vec![json_topic("t1", false, &[])]);
    let mut listener: SubscriptionListener<InMemoryRouterClient, InMemoryKvStore> =
        SubscriptionListener::spawn(
            InMemoryRouterClient::new(),
            &InMemoryKvStoreFactory::new(),
            cfg,
        )
        .unwrap();

    let incoming = IncomingSubscription {
        id: "sub1".to_string(),
        verifier: "v".to_string(),
        heartbeat_interval_ms: 5000,
        callback_url: "http://r".to_string(),
        operation: "chargingSessionChanged".to_string(),
        arguments: pathfinder::json_value::StrMap::new(),
    };
    assert_eq!(
        listener.handle_incoming(incoming, 0).err(),
        Some(Error::InvalidIdentifier)
    );
    assert!(listener.router_client.sent_requests().is_empty());
}

#[test]
fn failed_handshake_fails_registration_but_keeps_the_record() {
    let cfg = charging_config(vec![json_topic("t1", false, &[])]);
    let mut listener: SubscriptionListener<InMemoryRouterClient, InMemoryKvStore> =
        SubscriptionListener::spawn(
            InMemoryRouterClient::new(),
            &InMemoryKvStoreFactory::new(),
            cfg,
        )
        .unwrap();

    let mut arguments = pathfinder::json_value::StrMap::new();
    arguments.insert("id".to_string(), "X".to_string());
    let incoming = IncomingSubscription {
        id: "sub1".to_string(),
        verifier: "v".to_string(),
        heartbeat_interval_ms: 5000,
        callback_url: "http://r/error".to_string(),
        operation: "chargingSessionChanged".to_string(),
        arguments,
    };
    assert_eq!(listener.handle_incoming(incoming, 0).err(), Some(Error::Dispatch));

    // The record stays and will expire by TTL.
    let key = SubscriptionKey {
        operation: "chargingSessionChanged".to_string(),
        operation_id_value: "X".to_string(),
    };
    assert_eq!(listener.subscription_store.get_all(&key).unwrap().len(), 1);
}

#[test]
fn initial_update_follows_successful_registration() {
    let mut cfg = charging_config(vec![json_topic("t1", false, &[])]);
    cfg.publish_initial_update = true;
    let mut listener: SubscriptionListener<InMemoryRouterClient, InMemoryKvStore> =
        SubscriptionListener::spawn(
            InMemoryRouterClient::new(),
            &InMemoryKvStoreFactory::new(),
            cfg,
        )
        .unwrap();

    let mut arguments = pathfinder::json_value::StrMap::new();
    arguments.insert("id".to_string(), "X".to_string());
    let incoming = IncomingSubscription {
        id: "sub1".to_string(),
        verifier: "v".to_string(),
        heartbeat_interval_ms: 5000,
        callback_url: "http://r".to_string(),
        operation: "chargingSessionChanged".to_string(),
        arguments,
    };
    listener.handle_incoming(incoming, 0).unwrap();

    let sent = listener.router_client.sent_requests();
    assert_eq!(sent.len(), 2);
    assert_eq!(sent[0].action, Some(Action::Check));
    assert_eq!(sent[1].action, Some(Action::Next));
    assert_eq!(payload_str(&sent[1], "id"), Some("X".to_string()));
    assert_eq!(
        payload_str(&sent[1], "__typename"),
        Some("ChargingSession".to_string())
    );
}

#[test]
fn unknown_operation_is_rejected_by_the_supervisor() {
    let cfg = charging_config(vec![json_topic("t1", false, &[])]);
    let mut root: Listener<InMemoryRouterClient, InMemoryKvStore> = Listener::spawn(
        InMemoryRouterClient::new(),
        &InMemoryKvStoreFactory::new(),
        vec![cfg],
    )
    .unwrap();

    let mut arguments = pathfinder::json_value::StrMap::new();
    arguments.insert("id".to_string(), "X".to_string());
    let incoming = IncomingSubscription {
        id: "sub1".to_string(),
        verifier: "v".to_string(),
        heartbeat_interval_ms: 5000,
        callback_url: "http://r".to_string(),
        operation: "somethingElse".to_string(),
        arguments,
    };
    assert_eq!(
        root.handle_subscription(incoming, 0).err(),
        Some(Error::UnknownOperation)
    );
}

#[test]
fn supervisor_routes_registrations_with_the_clock() {
    let cfg = charging_config(vec![json_topic("t1", false, &[])]);
    let mut root: Listener<InMemoryRouterClient, InMemoryKvStore> = Listener::spawn(
        InMemoryRouterClient::new(),
        &InMemoryKvStoreFactory::new(),
        vec![cfg],
    )
    .unwrap();

    let mut arguments = pathfinder::json_value::StrMap::new();
    arguments.insert("id".to_string(), "X".to_string());
    let incoming = IncomingSubscription {
        id: "sub1".to_string(),
        verifier: "v".to_string(),
        heartbeat_interval_ms: 5000,
        callback_url: "http://r".to_string(),
        operation: "chargingSessionChanged".to_string(),
        arguments,
    };
    root.handle_subscription_now(incoming).unwrap();

    let key = SubscriptionKey {
        operation: "chargingSessionChanged".to_string(),
        operation_id_value: "X".to_string(),
    };
    let records = root.subscription_listeners[0].1.subscription_store.get_all(&key).unwrap();
    assert_eq!(records.len(), 1);
    assert!(records[0].created_at > 0);
}

#[test]
fn consumer_group_id_lowercases_the_operation() {
    assert_eq!(
        consumer_group_id(&"pathfinder".to_string(), &"ChargingSessionChanged".to_string()),
        "pathfinder-chargingsessionchanged"
    );
}

#[test]
fn subscription_protocol_header_is_recognised() {
    assert_eq!(
        SubscriptionProtocol::from_header("callback/1.0"),
        SubscriptionProtocol::Callback1
    );
    assert_eq!(
        SubscriptionProtocol::from_header("callback/2.0"),
        SubscriptionProtocol::Unknown
    );
}

#[test]
fn undecodable_message_is_dropped_with_a_decode_error() {
    let mut processor = processor_for(json_topic("t1", false, &[]));
    processor
        .subscription_store
        .insert(&record("sub1", "http://r", "X"), 60_000)
        .unwrap();

    let result = processor.handle_raw_message(bus_value("t1", "not json"));
    assert!(matches!(
        result,
        Err(Error::Decode(pathfinder::errors::DecodeError::InvalidJson))
    ));
    // The bad message triggered no callback and removed nothing.
    assert!(processor.router_client.sent_requests().is_empty());
    let key = SubscriptionKey {
        operation: "chargingSessionChanged".to_string(),
        operation_id_value: "X".to_string(),
    };
    assert_eq!(processor.subscription_store.get_all(&key).unwrap().len(), 1);
}

#[test]
fn record_encoding_round_trips() {
    let original = record("sub1", "http://r", "X");
    let decoded = decode_record(original.value()).unwrap();
    assert_eq!(decoded.id, original.id);
    assert_eq!(decoded.created_at, original.created_at);
    assert_eq!(decoded.verifier, original.verifier);
    assert_eq!(decoded.heartbeat_interval_ms, original.heartbeat_interval_ms);
    assert_eq!(decoded.callback_url, original.callback_url);
    assert_eq!(decoded.operation, original.operation);
    assert_eq!(decoded.operation_id_value, original.operation_id_value);

    // Bytes that frame no record are dropped by readers.
    assert!(decode_record(vec![1, 2, 3]).is_none());
}
