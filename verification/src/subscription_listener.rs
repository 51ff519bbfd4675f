//! One subscription listener per operation: it registers incoming
//! subscriptions — persist, handshake, optional initial update.

use vstd::prelude::*;

use crate::configuration::Listener;
use crate::errors::Error;
use crate::json_value::{JsonValue, JsonValueView, StrMap, ValueMap};
use crate::kv_store::{kv_insert, KvStore, KvStoreFactory, KvView};
use crate::router_client::{Action, NextPayloadView, Request, RequestView, RouterClient};
use crate::subscription_store::{
    encode_record_spec, SubscriptionRecord, SubscriptionRecordView, SubscriptionStore,
};

verus! {

/// A registration handed over by the router: the subscription's identity
/// and callback coordinates, and the parsed operation arguments.
pub struct IncomingSubscription {
    pub id: String,
    pub verifier: String,
    pub heartbeat_interval_ms: u64,
    pub callback_url: String,
    pub operation: String,
    pub arguments: StrMap,
}

/// The mathematical value of an [`IncomingSubscription`].
pub struct IncomingSubscriptionView {
    pub id: Seq<char>,
    pub verifier: Seq<char>,
    pub heartbeat_interval_ms: u64,
    pub callback_url: Seq<char>,
    pub operation: Seq<char>,
    pub arguments: Map<Seq<char>, Seq<char>>,
}

impl View for IncomingSubscription {
    type V = IncomingSubscriptionView;

    open spec fn view(&self) -> IncomingSubscriptionView {
        IncomingSubscriptionView {
            id: self.id@,
            verifier: self.verifier@,
            heartbeat_interval_ms: self.heartbeat_interval_ms,
            callback_url: self.callback_url@,
            operation: self.operation@,
            arguments: self.arguments@,
        }
    }
}

/// The record a registration persists: created now, carrying the
/// identifier value found under the listener's `id_key`.
pub open spec fn record_of(
    sub: IncomingSubscriptionView,
    id_value: Seq<char>,
    now_s: u64,
) -> SubscriptionRecordView {
    SubscriptionRecordView {
        id: sub.id,
        created_at: now_s,
        verifier: sub.verifier,
        heartbeat_interval_ms: sub.heartbeat_interval_ms,
        callback_url: sub.callback_url,
        operation: sub.operation,
        operation_id_value: id_value,
    }
}

/// The `check` handshake envelope for a record.
pub open spec fn check_request_view(rec: SubscriptionRecordView) -> RequestView {
    RequestView {
        callback_url: rec.callback_url,
        id: rec.id,
        verifier: rec.verifier,
        action: Some(Action::Check),
        payload: None,
        errors: None,
    }
}

/// The initial update envelope: a payload holding only the identifier
/// under the listener's `id_key`, stamped with the entity's
/// `__typename`.
pub open spec fn initial_next_view(
    operation: Seq<char>,
    entity_name: Seq<char>,
    id_key: Seq<char>,
    rec: SubscriptionRecordView,
) -> RequestView {
    RequestView {
        callback_url: rec.callback_url,
        id: rec.id,
        verifier: rec.verifier,
        action: Some(Action::Next),
        payload: Some(
            NextPayloadView {
                operation,
                data: Map::empty().insert(
                    id_key,
                    JsonValueView::Str(rec.operation_id_value),
                ).insert("__typename"@, JsonValueView::Str(entity_name)),
            },
        ),
        errors: None,
    }
}

/// What one registration does, relating the listener before and after,
/// per outcome.
pub open spec fn handle_incoming_post<R: RouterClient, K: KvStore>(
    pre: SubscriptionListener<R, K>,
    post: SubscriptionListener<R, K>,
    subscription: IncomingSubscriptionView,
    now_s: u64,
    r: Result<(), Error>,
) -> bool {
    let s0 = pre.router_client.sent();
    let v0 = pre.subscription_store.store_view();
    let cfg = pre.listener_configuration;
    if !subscription.arguments.contains_key(cfg.id_key@) {
        r == Err::<(), Error>(Error::InvalidIdentifier) && post.router_client.sent() == s0
            && post.subscription_store.store_view() == v0
    } else {
        let rec = record_of(subscription, subscription.arguments[cfg.id_key@], now_s);
        let inserted = kv_insert(v0, rec.group_key(), rec.id, encode_record_spec(rec), cfg.ttl_ms);
        match r {
            Ok(()) => post.subscription_store.store_view() == inserted && (
            if cfg.publish_initial_update {
                post.router_client.sent() == s0.push(check_request_view(rec)).push(
                    initial_next_view(cfg.operation@, cfg.entity_name@, cfg.id_key@, rec),
                )
            } else {
                post.router_client.sent() == s0.push(check_request_view(rec))
            }),
            Err(Error::Dispatch) => post.subscription_store.store_view() == inserted
                && post.router_client.sent() == s0.push(check_request_view(rec)),
            Err(Error::Storage(_)) => post.subscription_store.store_view() == v0
                && post.router_client.sent() == s0,
            Err(_) => false,
        }
    }
}

/// The per-operation registration handler.
pub struct SubscriptionListener<R: RouterClient, K: KvStore> {
    pub router_client: R,
    pub subscription_store: SubscriptionStore<K>,
    pub listener_configuration: Listener,
}

impl<R: RouterClient, K: KvStore> SubscriptionListener<R, K> {
    pub open spec fn wf(&self) -> bool {
        self.subscription_store.inv()
    }

    /// Builds the listener with its own store handle.
    pub fn spawn<F: KvStoreFactory<Store = K>>(
        router_client: R,
        kv_store_factory: &F,
        listener_configuration: Listener,
    ) -> (r: Result<Self, Error>)
        ensures
            match r {
                Ok(l) => l.wf() && l.router_client == router_client && l.listener_configuration@
                    == listener_configuration@,
                Err(e) => e matches Error::Storage(_),
            },
    {
        let subscription_store = match SubscriptionStore::new(kv_store_factory) {
            Ok(s) => s,
            Err(e) => {
                return Err(Error::Storage(e));
            },
        };
        Ok(SubscriptionListener { router_client, subscription_store, listener_configuration })
    }

    /// Registers one subscription: find the identifier under the
    /// listener's `id_key` — its absence is the caller's
    /// [`Error::InvalidIdentifier`] — persist the record with the
    /// listener's TTL, and post the `check` handshake. A failed
    /// handshake fails the registration, but the record stays and
    /// expires by TTL. On success, a listener configured for it posts
    /// the initial update, best-effort.
    pub fn handle_incoming(&mut self, subscription: IncomingSubscription, now_s: u64) -> (r:
        Result<(), Error>)
        requires
            old(self).wf(),
            subscription.arguments.wf(),
        ensures
            final(self).wf(),
            final(self).listener_configuration == old(self).listener_configuration,
            handle_incoming_post(*old(self), *final(self), subscription@, now_s, r),
    {
        let id_value = match self.identifier_of(&subscription) {
            Some(v) => v,
            None => {
                return Err(Error::InvalidIdentifier);
            },
        };
        let record = SubscriptionRecord {
            id: subscription.id,
            created_at: now_s,
            verifier: subscription.verifier,
            heartbeat_interval_ms: subscription.heartbeat_interval_ms,
            callback_url: subscription.callback_url,
            operation: subscription.operation,
            operation_id_value: id_value,
        };
        match self.subscription_store.insert(&record, self.listener_configuration.ttl_ms) {
            Ok(()) => {},
            Err(e) => {
                return Err(Error::Storage(e));
            },
        }
        let mut check_request = Request::subscription(
            &record.callback_url,
            &record.id,
            &record.verifier,
        );
        check_request.check();
        match self.router_client.send(&check_request) {
            Ok(_) => {},
            Err(_) => {
                return Err(Error::Dispatch);
            },
        }
        if self.listener_configuration.publish_initial_update {
            let mut data = ValueMap::new();
            data.insert(
                self.listener_configuration.id_key.clone(),
                JsonValue::Str(record.operation_id_value.clone()),
            );
            let mut next_request = Request::subscription(
                &record.callback_url,
                &record.id,
                &record.verifier,
            );
            next_request.next(
                &self.listener_configuration.operation,
                &self.listener_configuration.entity_name,
                data,
            );
            let _ = self.router_client.send(&next_request);
        }
        Ok(())
    }

    /// Looks the identifier value up in the registration's arguments.
    fn identifier_of(&self, subscription: &IncomingSubscription) -> (r: Option<String>)
        requires
            subscription.arguments.wf(),
        ensures
            match r {
                Some(v) => subscription.arguments@.contains_key(
                    self.listener_configuration.id_key@,
                ) && v@ == subscription.arguments@[self.listener_configuration.id_key@],
                None => !subscription.arguments@.contains_key(
                    self.listener_configuration.id_key@,
                ),
            },
    {
        match subscription.arguments.get(&self.listener_configuration.id_key) {
            Some(v) => Some(v.clone()),
            None => None,
        }
    }
}

} // verus!
