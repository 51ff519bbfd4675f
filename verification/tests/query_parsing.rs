//! Reading the subscription operation out of GraphQL queries, and the
//! ingress decision around it.

use pathfinder::errors::Error;
use pathfinder::graphql::SubscriptionOperation;
use pathfinder::json_value::{JsonValue, ValueMap};
use pathfinder::router_message::{
    handle_router_message, Extensions, MessageFromRouter, Subscription,
};

fn vars(entries: &[(&str, &str)]) -> Option<ValueMap> {
    let mut vm = ValueMap::new();
    for (k, v) in entries {
        vm.insert(k.to_string(), JsonValue::Str(v.to_string()));
    }
    Some(vm)
}

fn arg_of(op: &SubscriptionOperation, key: &str) -> Option<String> {
    op.arguments.get(&key.to_string()).cloned()
}

#[test]
fn test_subscription_operation_from_query() {
    let cases: [(&str, Option<ValueMap>, Option<(&str, &str, &str)>); 6] = [
        (
            r#"
            subscription ChargingSessionChanged($chargingSessionChangedId: ID!) {
              chargingSessionChanged(id: $chargingSessionChangedId) {
                id
                status
                startedAt
              }
            }
            "#,
            vars(&[("chargingSessionChangedId", "id1")]),
            Some(("chargingSessionChanged", "id", "id1")),
        ),
        (
            r#"
            subscription ChargingSessionChanged($id: ID!) {
              chargingSessionChanged(id: $id) {
                id
                status
                startedAt
              }
            }
            "#,
            vars(&[("id", "id1")]),
            Some(("chargingSessionChanged", "id", "id1")),
        ),
        (
            r#"
            subscription ChargingSessionChanged($id: ID!) {
              chargingSessionChanged(id: "123id") {
                id
                status
                startedAt
              }
            }
            "#,
            vars(&[("id", "id1")]),
            Some(("chargingSessionChanged", "id", "123id")),
        ),
        (
            r#"
            subscription ChargingSessionChanged {
              chargingSessionChanged(id: "123id") {
                id
                status
                startedAt
              }
            }
            "#,
            vars(&[]),
            Some(("chargingSessionChanged", "id", "123id")),
        ),
        (
            r#"
            subscription {
              chargingSessionChanged(id: "123id") {
                id
                status
                startedAt
              }
            }
            "#,
            vars(&[]),
            Some(("chargingSessionChanged", "id", "123id")),
        ),
        (
            r#"
            subscription {}
            "#,
            vars(&[]),
            None,
        ),
    ];

    for (query, variables, expected) in cases {
        let operation = SubscriptionOperation::from_query(query, &variables);
        match expected {
            Some((name, arg_key, arg_value)) => {
                let op = operation.expect("an operation was expected");
                assert_eq!(op.name, name);
                assert_eq!(arg_of(&op, arg_key), Some(arg_value.to_string()));
            }
            None => assert!(operation.is_none()),
        }
    }
}

fn subscription_body(query: &str) -> MessageFromRouter {
    MessageFromRouter {
        query: query.to_string(),
        operation_name: None,
        extensions: Some(Extensions {
            subscription: Some(Subscription {
                callback_url: "http://router/cb".to_string(),
                heartbeat_interval_ms: 5000,
                subscription_id: "sub-1".to_string(),
                verifier: "v-1".to_string(),
            }),
        }),
        variables: vars(&[]),
    }
}

#[test]
fn router_post_without_subscription_extension_is_rejected() {
    let msg = MessageFromRouter {
        query: "query { me }".to_string(),
        operation_name: None,
        extensions: None,
        variables: None,
    };
    assert_eq!(handle_router_message(msg).err(), Some(Error::InvalidRequest));
}

#[test]
fn router_post_with_subscription_becomes_a_registration() {
    let msg = subscription_body(r#"subscription { chargingSessionChanged(id: "X") { id } }"#);
    let ins = handle_router_message(msg).unwrap().expect("a registration");
    assert_eq!(ins.id, "sub-1");
    assert_eq!(ins.verifier, "v-1");
    assert_eq!(ins.heartbeat_interval_ms, 5000);
    assert_eq!(ins.callback_url, "http://router/cb");
    assert_eq!(ins.operation, "chargingSessionChanged");
    assert_eq!(
        ins.arguments.get(&"id".to_string()).cloned(),
        Some("X".to_string())
    );
}

#[test]
fn router_post_without_operation_registers_nothing() {
    let msg = subscription_body("subscription {}");
    assert!(handle_router_message(msg).unwrap().is_none());
}
