//! One topic listener per operation: it owns one message processor per
//! configured topic and routes each raw record to the processor of the
//! record's topic. The consumer loop that feeds it — connection, group
//! id, `recv`, backoff — is I/O and runs outside the library.

use vstd::prelude::*;

use crate::configuration::Listener;
use crate::errors::Error;
use crate::kv_store::{KvStore, KvStoreFactory};
use crate::message_consumer::RawMessage;
use crate::message_processor::{
    dispatch_post, process_message_post, DispatchOutcome, DispatchSubscription, MessageProcessor,
};
use crate::router_client::RouterClient;
use crate::strings::{lower_of, to_lowercase};
use vstd::string::StringExecFns;

verus! {

/// The consumer group one operation's consumer joins:
/// `"{service_name}-{lowercase(operation)}"`.
pub fn consumer_group_id(service_name: &String, operation: &String) -> (r: String)
    ensures
        r@ == service_name@ + "-"@ + lower_of(operation@),
{
    let mut out = service_name.clone();
    out.append("-");
    let lowered = to_lowercase(operation);
    out.append(lowered.as_str());
    out
}

/// The per-operation router of raw records.
pub struct TopicListener<R: RouterClient, K: KvStore> {
    pub message_processors: Vec<(String, MessageProcessor<R, K>)>,
}

/// A freshly spawned topic listener for a configuration: one processor
/// per configured topic, keyed by the topic's name, carrying that
/// topic's and the operation's configuration.
pub open spec fn spawned_for<R: RouterClient, K: KvStore>(
    tl: TopicListener<R, K>,
    configuration: crate::configuration::ListenerView,
) -> bool {
    &&& tl.message_processors@.len() == configuration.topics.len()
    &&& forall|i: int|
        0 <= i < tl.message_processors@.len() ==> (#[trigger] tl.message_processors@[i]).0@
            == configuration.topics[i].name && tl.message_processors@[i].1.topic_configuration@
            == configuration.topics[i] && tl.message_processors@[i].1.listener_configuration@
            == configuration
}

impl<R: RouterClient + Clone, K: KvStore> TopicListener<R, K> {
    pub open spec fn wf(&self) -> bool {
        forall|i: int|
            0 <= i < self.message_processors@.len() ==> (
            #[trigger] self.message_processors@[i]).1.wf()
    }

    /// Builds one processor per configured topic, each keyed by the
    /// topic's name and holding its own store handle and router client.
    pub fn spawn<F: KvStoreFactory<Store = K>>(
        router_client: R,
        kv_store_factory: &F,
        configuration: Listener,
    ) -> (r: Result<Self, Error>)
        ensures
            match r {
                Ok(tl) => tl.wf() && spawned_for(tl, configuration@),
                Err(e) => (e matches Error::Config(_)) || (e matches Error::Storage(_)),
            },
    {
        let mut message_processors: Vec<(String, MessageProcessor<R, K>)> = Vec::new();
        let n = configuration.topics.len();
        for i in 0..n
            invariant
                n == configuration.topics@.len(),
                message_processors@.len() == i,
                forall|j: int|
                    0 <= j < i ==> (#[trigger] message_processors@[j]).0@
                        == configuration.topics@[j].name@ && message_processors@[j].1.wf()
                        && message_processors@[j].1.topic_configuration@
                        == configuration.topics@[j]@
                        && message_processors@[j].1.listener_configuration@ == configuration@,
        {
            let topic = configuration.topics[i].clone();
            let name = topic.name.clone();
            let processor = match MessageProcessor::spawn(
                router_client.clone(),
                kv_store_factory,
                configuration.clone(),
                topic,
            ) {
                Ok(p) => p,
                Err(e) => {
                    return Err(e);
                },
            };
            message_processors.push((name, processor));
        }
        Ok(TopicListener { message_processors })
    }

    /// Routes one raw record to the processor of its topic — the first
    /// one whose key matches — which handles it per
    /// [`process_message_post`]: a delayed topic's dispatches come back
    /// for the caller to schedule and feed to
    /// [`TopicListener::dispatch_delayed`] after the delay; any other
    /// topic's are performed at once. A record for an unknown topic is
    /// dropped. Exactly [`topic_route_post`].
    pub fn handle_message(&mut self, message: RawMessage) -> (r: Result<
        Vec<DispatchSubscription>,
        Error,
    >)
        requires
            old(self).wf(),
        ensures
            final(self).wf(),
            final(self).message_processors@.len() == old(self).message_processors@.len(),
            topic_route_post(*old(self), *final(self), message@, r),
            match r {
                Ok(ds) => forall|j: int|
                    0 <= j < ds@.len() ==> (#[trigger] ds@[j]).data.wf(),
                Err(_) => true,
            },
    {
        let n = self.message_processors.len();
        for i in 0..n
            invariant
                self.wf(),
                n == self.message_processors@.len(),
                self == old(self),
                forall|j: int|
                    0 <= j < i ==> (#[trigger] self.message_processors@[j]).0@ != message.topic@,
        {
            if self.message_processors[i].0 == message.topic {
                let ghost s = self.message_processors@;
                let (name, mut processor) = self.message_processors.remove(i);
                let result = processor.process_message(message);
                let ghost nm = name;
                let ghost pv = processor;
                self.message_processors.insert(i, (name, processor));
                proof {
                    assert(self.message_processors@ =~= s.update(i as int, (nm, pv)));
                    assert(exists|p: int|
                        #![trigger s[p]]
                        0 <= p < s.len() && s[p].0@ == message.topic@ && (forall|j: int|
                            0 <= j < p ==> s[j].0@ != message.topic@) && (forall|j: int|
                            0 <= j < s.len() && j != p ==> self.message_processors@[j] == s[j])
                            && self.message_processors@[p].0 == s[p].0 && process_message_post(
                            s[p].1,
                            self.message_processors@[p].1,
                            message@,
                            result,
                        )) by {
                        assert(s[i as int].0@ == message.topic@);
                    }
                }
                return result;
            }
        }
        Ok(Vec::new())
    }

    /// Performs one delayed dispatch on the processor of its topic, per
    /// its outcome contract; a dispatch for an unknown topic is dropped
    /// and answered with nothing.
    pub fn dispatch_delayed(&mut self, topic: &String, dispatch: &DispatchSubscription) -> (r:
        Result<Option<DispatchOutcome>, Error>)
        requires
            old(self).wf(),
            dispatch.data.wf(),
        ensures
            final(self).wf(),
            final(self).message_processors@.len() == old(self).message_processors@.len(),
            ({
                let s = old(self).message_processors@;
                if exists|i: int| 0 <= i < s.len() && (#[trigger] s[i]).0@ == topic@ {
                    exists|i: int|
                        #![trigger s[i]]
                        0 <= i < s.len() && s[i].0@ == topic@ && (forall|j: int|
                            0 <= j < i ==> s[j].0@ != topic@) && (forall|j: int|
                            0 <= j < s.len() && j != i ==> final(self).message_processors@[j]
                                == s[j]) && final(self).message_processors@[i].0 == s[i].0 && (
                        match r {
                            Ok(Some(outcome)) => dispatch_post(
                                s[i].1,
                                final(self).message_processors@[i].1,
                                dispatch@,
                                Ok(outcome),
                            ),
                            Ok(None) => false,
                            Err(e) => dispatch_post(
                                s[i].1,
                                final(self).message_processors@[i].1,
                                dispatch@,
                                Err(e),
                            ),
                        })
                } else {
                    *final(self) == *old(self) && r == Ok::<Option<DispatchOutcome>, Error>(None)
                }
            }),
    {
        let n = self.message_processors.len();
        for i in 0..n
            invariant
                self.wf(),
                dispatch.data.wf(),
                n == self.message_processors@.len(),
                self == old(self),
                forall|j: int|
                    0 <= j < i ==> (#[trigger] self.message_processors@[j]).0@ != topic@,
        {
            if self.message_processors[i].0 == *topic {
                let ghost s = self.message_processors@;
                let (name, mut processor) = self.message_processors.remove(i);
                let outcome = processor.handle_dispatch(dispatch);
                let ghost nm = name;
                let ghost pv = processor;
                self.message_processors.insert(i, (name, processor));
                let result = match outcome {
                    Ok(out) => Ok(Some(out)),
                    Err(e) => Err(e),
                };
                proof {
                    assert(self.message_processors@ =~= s.update(i as int, (nm, pv)));
                    assert(exists|p: int|
                        #![trigger s[p]]
                        0 <= p < s.len() && s[p].0@ == topic@ && (forall|j: int|
                            0 <= j < p ==> s[j].0@ != topic@) && (forall|j: int|
                            0 <= j < s.len() && j != p ==> self.message_processors@[j] == s[j])
                            && self.message_processors@[p].0 == s[p].0 && (match result {
                            Ok(Some(out)) => dispatch_post(
                                s[p].1,
                                self.message_processors@[p].1,
                                dispatch@,
                                Ok(out),
                            ),
                            Ok(None) => false,
                            Err(e) => dispatch_post(
                                s[p].1,
                                self.message_processors@[p].1,
                                dispatch@,
                                Err(e),
                            ),
                        })) by {
                        assert(s[i as int].0@ == topic@);
                    }
                }
                return result;
            }
        }
        Ok(None)
    }
}

/// What routing one raw record does: for the first processor whose topic
/// matches, exactly its [`process_message_post`], with every other
/// processor untouched; for an unknown topic, nothing at all.
pub open spec fn topic_route_post<R: RouterClient, K: KvStore>(
    pre: TopicListener<R, K>,
    post: TopicListener<R, K>,
    message: crate::message_consumer::RawMessageView,
    r: Result<Vec<DispatchSubscription>, Error>,
) -> bool {
    let s = pre.message_processors@;
    if exists|i: int| 0 <= i < s.len() && (#[trigger] s[i]).0@ == message.topic {
        exists|i: int|
            #![trigger s[i]]
            0 <= i < s.len() && s[i].0@ == message.topic && (forall|j: int|
                0 <= j < i ==> s[j].0@ != message.topic) && (forall|j: int|
                0 <= j < s.len() && j != i ==> post.message_processors@[j] == s[j])
                && post.message_processors@[i].0 == s[i].0 && process_message_post(
                s[i].1,
                post.message_processors@[i].1,
                message,
                r,
            )
    } else {
        post == pre && (r matches Ok(ds) && ds@.len() == 0)
    }
}

} // verus!
