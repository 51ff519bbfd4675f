//! The root of the fabric: one subscription listener and one topic
//! listener per configured operation, and a single ingress that routes
//! each registration to its operation's listener.

use vstd::prelude::*;

use crate::errors::Error;
use crate::kv_store::{KvStore, KvStoreFactory};
use crate::message_consumer::RawMessage;
use crate::message_processor::DispatchSubscription;
use crate::router_client::RouterClient;
use crate::subscription_listener::{
    handle_incoming_post, IncomingSubscription, IncomingSubscriptionView, SubscriptionListener,
};
use crate::topic_listener::{spawned_for, topic_route_post, TopicListener};

verus! {

/// Relies on std's SystemTime: the seconds since the Unix epoch, or zero
/// on a clock that reads before it. Nothing more holds of a clock
/// reading.
#[verifier::external_body]
pub fn now_unix_seconds() -> u64 {
    match std::time::SystemTime::now().duration_since(std::time::UNIX_EPOCH) {
        Ok(d) => d.as_secs(),
        Err(_) => 0,
    }
}

/// What routing one registration does: for the first subscription
/// listener whose operation matches, exactly its registration contract,
/// with every other listener and all topic listeners untouched; for an
/// unknown operation, nothing at all and [`Error::UnknownOperation`].
pub open spec fn route_subscription_post<R: RouterClient, K: KvStore>(
    pre: Listener<R, K>,
    post: Listener<R, K>,
    subscription: IncomingSubscriptionView,
    now_s: u64,
    r: Result<(), Error>,
) -> bool {
    let s = pre.subscription_listeners@;
    &&& post.subscription_listeners@.len() == s.len()
    &&& post.topic_listeners@ == pre.topic_listeners@
    &&& if exists|i: int| 0 <= i < s.len() && (#[trigger] s[i]).0@ == subscription.operation {
        exists|i: int|
            #![trigger s[i]]
            0 <= i < s.len() && s[i].0@ == subscription.operation && (forall|j: int|
                0 <= j < i ==> s[j].0@ != subscription.operation) && (forall|j: int|
                0 <= j < s.len() && j != i ==> post.subscription_listeners@[j] == s[j])
                && post.subscription_listeners@[i].0 == s[i].0 && handle_incoming_post(
                s[i].1,
                post.subscription_listeners@[i].1,
                subscription,
                now_s,
                r,
            ) && r != Err::<(), Error>(Error::UnknownOperation)
    } else {
        post == pre && r == Err::<(), Error>(Error::UnknownOperation)
    }
}

/// The supervisor: every operation's listeners, keyed by operation name.
pub struct Listener<R: RouterClient, K: KvStore> {
    pub subscription_listeners: Vec<(String, SubscriptionListener<R, K>)>,
    pub topic_listeners: Vec<(String, TopicListener<R, K>)>,
}

impl<R: RouterClient + Clone, K: KvStore> Listener<R, K> {
    pub open spec fn wf(&self) -> bool {
        (forall|i: int|
            0 <= i < self.subscription_listeners@.len() ==> (
            #[trigger] self.subscription_listeners@[i]).1.wf()) && (forall|i: int|
            0 <= i < self.topic_listeners@.len() ==> (#[trigger] self.topic_listeners@[i]).1.wf())
    }

    /// Builds one subscription listener and one topic listener per
    /// configured operation, each with its own store handle and router
    /// client.
    pub fn spawn<F: KvStoreFactory<Store = K>>(
        router_client: R,
        kv_store_factory: &F,
        listeners: Vec<crate::configuration::Listener>,
    ) -> (r: Result<Self, Error>)
        ensures
            match r {
                Ok(l) => l.wf() && l.subscription_listeners@.len() == listeners@.len()
                    && l.topic_listeners@.len() == listeners@.len() && forall|i: int|
                    0 <= i < listeners@.len() ==> (#[trigger] l.subscription_listeners@[i]).0@
                        == listeners@[i].operation@ && l.topic_listeners@[i].0@
                        == listeners@[i].operation@
                        && l.subscription_listeners@[i].1.listener_configuration@
                        == listeners@[i]@ && spawned_for(l.topic_listeners@[i].1, listeners@[i]@),
                Err(e) => (e matches Error::Config(_)) || (e matches Error::Storage(_)),
            },
    {
        let mut subscription_listeners: Vec<(String, SubscriptionListener<R, K>)> = Vec::new();
        let mut topic_listeners: Vec<(String, TopicListener<R, K>)> = Vec::new();
        let n = listeners.len();
        for i in 0..n
            invariant
                n == listeners@.len(),
                subscription_listeners@.len() == i,
                topic_listeners@.len() == i,
                forall|j: int|
                    0 <= j < i ==> (#[trigger] subscription_listeners@[j]).0@
                        == listeners@[j].operation@ && subscription_listeners@[j].1.wf()
                        && subscription_listeners@[j].1.listener_configuration@ == listeners@[j]@,
                forall|j: int|
                    0 <= j < i ==> (#[trigger] topic_listeners@[j]).0@ == listeners@[j].operation@
                        && topic_listeners@[j].1.wf() && spawned_for(
                        topic_listeners@[j].1,
                        listeners@[j]@,
                    ),
        {
            let configuration = listeners[i].clone();
            let subscription_listener = match SubscriptionListener::spawn(
                router_client.clone(),
                kv_store_factory,
                configuration.clone(),
            ) {
                Ok(l) => l,
                Err(e) => {
                    return Err(e);
                },
            };
            let topic_listener = match TopicListener::spawn(
                router_client.clone(),
                kv_store_factory,
                configuration.clone(),
            ) {
                Ok(l) => l,
                Err(e) => {
                    return Err(e);
                },
            };
            subscription_listeners.push((configuration.operation.clone(), subscription_listener));
            topic_listeners.push((configuration.operation.clone(), topic_listener));
        }
        Ok(Listener { subscription_listeners, topic_listeners })
    }

    /// Routes a registration to its operation's listener — the first
    /// one whose key matches — which registers it per its own contract;
    /// an operation no listener is configured for is
    /// [`Error::UnknownOperation`], if and only if. Exactly
    /// [`route_subscription_post`].
    pub fn handle_subscription(&mut self, subscription: IncomingSubscription, now_s: u64) -> (r:
        Result<(), Error>)
        requires
            old(self).wf(),
            subscription.arguments.wf(),
        ensures
            final(self).wf(),
            route_subscription_post(*old(self), *final(self), subscription@, now_s, r),
    {
        let ghost subv = subscription@;
        let n = self.subscription_listeners.len();
        for i in 0..n
            invariant
                self.wf(),
                subscription.arguments.wf(),
                subv == subscription@,
                n == self.subscription_listeners@.len(),
                self == old(self),
                forall|j: int|
                    0 <= j < i ==> (#[trigger] self.subscription_listeners@[j]).0@
                        != subscription.operation@,
        {
            if self.subscription_listeners[i].0 == subscription.operation {
                let ghost s = self.subscription_listeners@;
                let (name, mut listener) = self.subscription_listeners.remove(i);
                let result = match listener.handle_incoming(subscription, now_s) {
                    Ok(()) => Ok(()),
                    Err(e) => Err(e),
                };
                let ghost nm = name;
                let ghost lv = listener;
                self.subscription_listeners.insert(i, (name, listener));
                proof {
                    assert(self.subscription_listeners@ =~= s.update(i as int, (nm, lv)));
                    assert(result != Err::<(), Error>(Error::UnknownOperation));
                    assert(exists|p: int|
                        #![trigger s[p]]
                        0 <= p < s.len() && s[p].0@ == subv.operation && (forall|j: int|
                            0 <= j < p ==> s[j].0@ != subv.operation) && (forall|j: int|
                            0 <= j < s.len() && j != p ==> self.subscription_listeners@[j] == s[j])
                            && self.subscription_listeners@[p].0 == s[p].0 && handle_incoming_post(
                            s[p].1,
                            self.subscription_listeners@[p].1,
                            subv,
                            now_s,
                            result,
                        ) && result != Err::<(), Error>(Error::UnknownOperation)) by {
                        assert(s[i as int].0@ == subv.operation);
                    }
                }
                return result;
            }
        }
        Err(Error::UnknownOperation)
    }

    /// Routes a registration using the system clock for `created_at`:
    /// [`route_subscription_post`] holds for whatever the clock read.
    pub fn handle_subscription_now(&mut self, subscription: IncomingSubscription) -> (r: Result<
        (),
        Error,
    >)
        requires
            old(self).wf(),
            subscription.arguments.wf(),
        ensures
            final(self).wf(),
            exists|now_s: u64|
                #[trigger] route_subscription_post(
                    *old(self),
                    *final(self),
                    subscription@,
                    now_s,
                    r,
                ),
    {
        let now_s = now_unix_seconds();
        self.handle_subscription(subscription, now_s)
    }

    /// Routes a raw record to its operation's topic listener — the
    /// first one whose key matches — which routes it to the record's
    /// topic per [`topic_route_post`], with every other operation's
    /// state untouched; a record for an unknown operation is dropped.
    pub fn handle_topic_message(&mut self, operation: &String, message: RawMessage) -> (r: Result<
        Vec<DispatchSubscription>,
        Error,
    >)
        requires
            old(self).wf(),
        ensures
            final(self).wf(),
            final(self).subscription_listeners@ == old(self).subscription_listeners@,
            final(self).topic_listeners@.len() == old(self).topic_listeners@.len(),
            ({
                let s = old(self).topic_listeners@;
                if exists|i: int| 0 <= i < s.len() && (#[trigger] s[i]).0@ == operation@ {
                    exists|i: int|
                        #![trigger s[i]]
                        0 <= i < s.len() && s[i].0@ == operation@ && (forall|j: int|
                            0 <= j < i ==> s[j].0@ != operation@) && (forall|j: int|
                            0 <= j < s.len() && j != i ==> final(self).topic_listeners@[j] == s[j])
                            && final(self).topic_listeners@[i].0 == s[i].0 && topic_route_post(
                            s[i].1,
                            final(self).topic_listeners@[i].1,
                            message@,
                            r,
                        )
                } else {
                    *final(self) == *old(self) && (r matches Ok(ds) && ds@.len() == 0)
                }
            }),
            match r {
                Ok(ds) => forall|j: int| 0 <= j < ds@.len() ==> (#[trigger] ds@[j]).data.wf(),
                Err(_) => true,
            },
    {
        let n = self.topic_listeners.len();
        for i in 0..n
            invariant
                self.wf(),
                n == self.topic_listeners@.len(),
                self == old(self),
                forall|j: int| 0 <= j < i ==> (#[trigger] self.topic_listeners@[j]).0@ != operation@,
        {
            if self.topic_listeners[i].0 == *operation {
                let ghost s = self.topic_listeners@;
                let (name, mut listener) = self.topic_listeners.remove(i);
                let result = listener.handle_message(message);
                let ghost nm = name;
                let ghost lv = listener;
                self.topic_listeners.insert(i, (name, listener));
                proof {
                    assert(self.topic_listeners@ =~= s.update(i as int, (nm, lv)));
                    assert(exists|p: int|
                        #![trigger s[p]]
                        0 <= p < s.len() && s[p].0@ == operation@ && (forall|j: int|
                            0 <= j < p ==> s[j].0@ != operation@) && (forall|j: int|
                            0 <= j < s.len() && j != p ==> self.topic_listeners@[j] == s[j])
                            && self.topic_listeners@[p].0 == s[p].0 && topic_route_post(
                            s[p].1,
                            self.topic_listeners@[p].1,
                            message@,
                            result,
                        )) by {
                        assert(s[i as int].0@ == operation@);
                    }
                }
                return result;
            }
        }
        Ok(Vec::new())
    }
}

} // verus!
