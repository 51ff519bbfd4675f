//! One message processor per `(operation, topic)`: decode the record,
//! extract the identifier, look the live subscriptions up, and drive one
//! `next` callback per subscription — with deletion on failure and
//! terminal completion, exactly as the contracts below state.
//!
//! The processor is synchronous: the hosting runtime owns the mailbox
//! and the delay timers, feeds records to [`MessageProcessor::handle_raw_message`],
//! and performs each returned dispatch with
//! [`MessageProcessor::handle_dispatch`], immediately or after the
//! topic's delay.

use vstd::prelude::*;

use crate::configuration::{Listener, Topic, TopicDataSource};
use crate::data_serde::{decoded_value, decoder_error, Decoder};
use crate::errors::Error;
use crate::json_value::{JsonValueView, ValueMap};
use crate::kv_store::{fields_has, fields_distinct, fields_remove, group_fields, kv_delete_field, KvStore, KvStoreFactory, KvView};
use crate::message_consumer::{RawMessage, RawMessageView};
use crate::router_client::{Action, NextPayloadView, Request, RequestView, RouterClient};
use crate::subscription_store::{
    decoded_records, decode_record_spec, group_key_spec, lemma_decoded_records_ids,
    SubscriptionKey, SubscriptionRecord, SubscriptionRecordView, SubscriptionStore,
};

verus! {

/// One unit of work: deliver one decoded message to one subscription.
pub struct DispatchSubscription {
    pub subscription: SubscriptionRecord,
    pub id_value: String,
    pub data: ValueMap,
}

/// The mathematical value of a [`DispatchSubscription`].
pub struct DispatchSubscriptionView {
    pub subscription: SubscriptionRecordView,
    pub id_value: Seq<char>,
    pub data: Map<Seq<char>, JsonValueView>,
}

impl View for DispatchSubscription {
    type V = DispatchSubscriptionView;

    open spec fn view(&self) -> DispatchSubscriptionView {
        DispatchSubscriptionView {
            subscription: self.subscription@,
            id_value: self.id_value@,
            data: self.data@,
        }
    }
}

/// The identifier a decoded map names, when it names one: the value
/// under the listener's `id_key`, and only when that value is a string.
pub open spec fn extracted_id(
    vals: Map<Seq<char>, JsonValueView>,
    id_key: Seq<char>,
) -> Option<Seq<char>> {
    if vals.contains_key(id_key) {
        match vals[id_key] {
            JsonValueView::Str(s) => Some(s),
            _ => None,
        }
    } else {
        None
    }
}

/// The `next` envelope a dispatch posts: the decoded data, stamped with
/// the entity's `__typename`, published under the operation's name.
pub open spec fn next_request_view(
    operation: Seq<char>,
    entity_name: Seq<char>,
    d: DispatchSubscriptionView,
) -> RequestView {
    RequestView {
        callback_url: d.subscription.callback_url,
        id: d.subscription.id,
        verifier: d.subscription.verifier,
        action: Some(Action::Next),
        payload: Some(
            NextPayloadView {
                operation,
                data: d.data.insert("__typename"@, JsonValueView::Str(entity_name)),
            },
        ),
        errors: None,
    }
}

/// The best-effort `complete` envelope a terminal topic posts.
pub open spec fn complete_request_view(d: DispatchSubscriptionView) -> RequestView {
    RequestView {
        callback_url: d.subscription.callback_url,
        id: d.subscription.id,
        verifier: d.subscription.verifier,
        action: Some(Action::Complete),
        payload: None,
        errors: None,
    }
}

/// The half of the record a topic decodes: its key — empty when absent —
/// or its payload.
pub open spec fn selected_bytes(source: TopicDataSource, m: RawMessageView) -> Seq<u8> {
    match source {
        TopicDataSource::Key => match m.key {
            Some(k) => k,
            None => Seq::empty(),
        },
        TopicDataSource::Value => m.value,
    }
}

/// The fan-out a message with this identifier produces: one dispatch
/// per decoded record of the identifier's group, in storage order, each
/// carrying the identifier and the decoded data.
pub open spec fn planned_dispatches(
    operation: Seq<char>,
    id_value: Seq<char>,
    vals: Map<Seq<char>, JsonValueView>,
    v0: KvView,
) -> Seq<DispatchSubscriptionView> {
    decoded_records(group_fields(v0, group_key_spec(operation, id_value))).map_values(
        |rec: SubscriptionRecordView|
            DispatchSubscriptionView { subscription: rec, id_value, data: vals },
    )
}

/// Dispatch fan-out: when the decoded map names an identifier, exactly
/// the planned dispatches; otherwise none.
pub open spec fn plan_ok(
    operation: Seq<char>,
    id_key: Seq<char>,
    v0: KvView,
    vals: Map<Seq<char>, JsonValueView>,
    ds: Seq<DispatchSubscriptionView>,
) -> bool {
    match extracted_id(vals, id_key) {
        Some(idv) => ds == planned_dispatches(operation, idv, vals, v0),
        None => ds.len() == 0,
    }
}

/// How one dispatch ended.
#[derive(Clone, Copy, PartialEq, Eq, Structural, Debug)]
pub enum DispatchOutcome {
    /// The `next` callback went through; the record stays.
    Delivered,
    /// The `next` callback failed; the subscription is assumed dead and
    /// its record was removed.
    FailedAndRemoved,
    /// The `next` callback went through on a terminal topic; a
    /// best-effort `complete` was posted and the record was removed.
    CompletedAndRemoved,
}

/// What one dispatch does, per outcome: which envelopes were posted
/// beyond the earlier log, and what happened to the record.
pub open spec fn dispatch_post<R: RouterClient, K: KvStore>(
    pre: MessageProcessor<R, K>,
    post: MessageProcessor<R, K>,
    d: DispatchSubscriptionView,
    r: Result<DispatchOutcome, Error>,
) -> bool {
    let s0 = pre.router_client.sent();
    let v0 = pre.subscription_store.store_view();
    let nr = next_request_view(
        pre.listener_configuration.operation@,
        pre.listener_configuration.entity_name@,
        d,
    );
    let cr = complete_request_view(d);
    let deleted = kv_delete_field(v0, d.subscription.group_key(), d.subscription.id);
    match r {
        Ok(DispatchOutcome::Delivered) => !pre.topic_configuration.terminates_subscriptions
            && post.router_client.sent() == s0.push(nr) && post.subscription_store.store_view()
            == v0,
        Ok(DispatchOutcome::FailedAndRemoved) => post.router_client.sent() == s0.push(nr)
            && post.subscription_store.store_view() == deleted,
        Ok(DispatchOutcome::CompletedAndRemoved) => pre.topic_configuration.terminates_subscriptions
            && post.router_client.sent() == s0.push(nr).push(cr)
            && post.subscription_store.store_view() == deleted,
        Err(e) => (e matches Error::Storage(_)) && post.subscription_store.store_view() == v0 && (
        post.router_client.sent() == s0.push(nr) || post.router_client.sent() == s0.push(nr).push(
            cr,
        )),
    }
}

/// The per-`(operation, topic)` processor.
pub struct MessageProcessor<R: RouterClient, K: KvStore> {
    pub router_client: R,
    pub subscription_store: SubscriptionStore<K>,
    pub listener_configuration: Listener,
    pub topic_configuration: Topic,
    pub data_serde: Decoder,
}

impl<R: RouterClient, K: KvStore> MessageProcessor<R, K> {
    pub open spec fn wf(&self) -> bool {
        self.subscription_store.inv()
    }

    /// Builds the processor for one topic of one operation: its own
    /// store handle and the decoder the topic asks for.
    pub fn spawn<F: KvStoreFactory<Store = K>>(
        router_client: R,
        kv_store_factory: &F,
        configuration: Listener,
        topic: Topic,
    ) -> (r: Result<Self, Error>)
        ensures
            match r {
                Ok(p) => p.wf() && p.router_client == router_client && p.listener_configuration@
                    == configuration@ && p.topic_configuration@ == topic@ && (match p.data_serde {
                    Decoder::Json(j) => topic.data_serde is Json && j.mapping_view()
                        == topic.json_mapping@ && j.strict_mode() == topic.strict_mapping,
                    Decoder::Protobuf(pd) => !(topic.data_serde is Json) && pd.mapping_view()
                        == topic.protobuf_mapping@ && pd.wire_mode() == (
                    topic.data_serde is ProtobufWire),
                }),
                Err(Error::Config(_)) => (topic.data_serde is Json && topic.strict_mapping
                    && topic.json_mapping@.len() == 0) || (!(topic.data_serde is Json)
                    && topic.protobuf_mapping@.len() == 0),
                Err(Error::Storage(_)) => true,
                Err(_) => false,
            },
    {
        let data_serde = match Decoder::build(&topic) {
            Ok(d) => d,
            Err(e) => {
                return Err(Error::Config(e));
            },
        };
        let subscription_store = match SubscriptionStore::new(kv_store_factory) {
            Ok(s) => s,
            Err(e) => {
                return Err(Error::Storage(e));
            },
        };
        Ok(
            MessageProcessor {
                router_client,
                subscription_store,
                listener_configuration: configuration,
                topic_configuration: topic,
                data_serde,
            },
        )
    }

    /// Builds one dispatch per live subscription of the decoded
    /// identifier, per [`plan_ok`]. A missing or non-string identifier
    /// plans nothing; only the store can fail.
    pub fn plan_dispatches(&mut self, vals: &ValueMap) -> (r: Result<
        Vec<DispatchSubscription>,
        Error,
    >)
        requires
            old(self).wf(),
            vals.wf(),
        ensures
            final(self).wf(),
            final(self).router_client == old(self).router_client,
            final(self).listener_configuration == old(self).listener_configuration,
            final(self).topic_configuration == old(self).topic_configuration,
            final(self).data_serde == old(self).data_serde,
            final(self).subscription_store.store_view() == old(self).subscription_store.store_view(),
            match r {
                Ok(ds) => plan_ok(
                    old(self).listener_configuration.operation@,
                    old(self).listener_configuration.id_key@,
                    old(self).subscription_store.store_view(),
                    vals@,
                    ds@.map_values(|d: DispatchSubscription| d@),
                ) && (forall|j: int| 0 <= j < ds@.len() ==> (#[trigger] ds@[j]).data.wf()),
                Err(e) => e matches Error::Storage(_),
            },
    {
        let id_value = match vals.get(&self.listener_configuration.id_key) {
            Some(v) => match v {
                crate::json_value::JsonValue::Str(s) => s.clone(),
                _ => {
                    return Ok(Vec::new());
                },
            },
            None => {
                return Ok(Vec::new());
            },
        };
        let key = SubscriptionKey {
            operation: self.listener_configuration.operation.clone(),
            operation_id_value: id_value.clone(),
        };
        let subscriptions = match self.subscription_store.get_all(&key) {
            Ok(subs) => subs,
            Err(e) => {
                return Err(Error::Storage(e));
            },
        };
        let mut dispatches: Vec<DispatchSubscription> = Vec::new();
        let n = subscriptions.len();
        for i in 0..n
            invariant
                n == subscriptions@.len(),
                vals.wf(),
                dispatches@.len() == i,
                forall|j: int|
                    0 <= j < i ==> (#[trigger] dispatches@[j])@.subscription
                        == subscriptions@[j]@ && dispatches@[j]@.id_value == id_value@
                        && dispatches@[j]@.data == vals@ && dispatches@[j].data.wf(),
        {
            let dispatch = DispatchSubscription {
                subscription: subscriptions[i].clone(),
                id_value: id_value.clone(),
                data: vals.clone(),
            };
            dispatches.push(dispatch);
        }
        proof {
            let idv = id_value@;
            let v0 = old(self).subscription_store.store_view();
            let op = old(self).listener_configuration.operation@;
            let records = decoded_records(group_fields(v0, group_key_spec(op, idv)));
            assert(subscriptions@.map_values(|rec: SubscriptionRecord| rec@) == records);
            assert(dispatches@.map_values(|d: DispatchSubscription| d@) =~= planned_dispatches(
                op,
                idv,
                vals@,
                v0,
            ));
        }
        Ok(dispatches)
    }

    /// Posts the `next` callback for one dispatch. A failed POST removes
    /// the record — the subscription is assumed dead. A successful POST
    /// on a terminal topic posts a best-effort `complete` and removes
    /// the record. Only the store can make this fail.
    pub fn handle_dispatch(&mut self, dispatch: &DispatchSubscription) -> (r: Result<
        DispatchOutcome,
        Error,
    >)
        requires
            old(self).wf(),
            dispatch.data.wf(),
        ensures
            final(self).wf(),
            final(self).listener_configuration == old(self).listener_configuration,
            final(self).topic_configuration == old(self).topic_configuration,
            final(self).data_serde == old(self).data_serde,
            dispatch_post(*old(self), *final(self), dispatch@, r),
    {
        let mut next_request = Request::subscription(
            &dispatch.subscription.callback_url,
            &dispatch.subscription.id,
            &dispatch.subscription.verifier,
        );
        next_request.next(
            &self.listener_configuration.operation,
            &self.listener_configuration.entity_name,
            dispatch.data.clone(),
        );
        proof {
            assert(next_request@ == next_request_view(
                self.listener_configuration.operation@,
                self.listener_configuration.entity_name@,
                dispatch@,
            ));
        }
        let response = self.router_client.send(&next_request);
        if let Err(_) = response {
            let key = dispatch.subscription.key();
            let id = dispatch.subscription.id();
            return match self.subscription_store.delete(&key, &id) {
                Ok(()) => Ok(DispatchOutcome::FailedAndRemoved),
                Err(e) => Err(Error::Storage(e)),
            };
        }
        if self.topic_configuration.terminates_subscriptions {
            let mut complete_request = Request::subscription(
                &dispatch.subscription.callback_url,
                &dispatch.subscription.id,
                &dispatch.subscription.verifier,
            );
            complete_request.complete(None);
            proof {
                assert(complete_request@ == complete_request_view(dispatch@));
            }
            let _ = self.router_client.send(&complete_request);
            let key = dispatch.subscription.key();
            let id = dispatch.subscription.id();
            return match self.subscription_store.delete(&key, &id) {
                Ok(()) => Ok(DispatchOutcome::CompletedAndRemoved),
                Err(e) => Err(Error::Storage(e)),
            };
        }
        Ok(DispatchOutcome::Delivered)
    }

    /// Handles one raw record end to end up to the posting: selects the
    /// configured half, decodes it, and plans the fan-out. A record that
    /// does not decode is an [`Error::Decode`] the caller logs and
    /// drops.
    pub fn handle_raw_message(&mut self, message: RawMessage) -> (r: Result<
        Vec<DispatchSubscription>,
        Error,
    >)
        requires
            old(self).wf(),
        ensures
            final(self).wf(),
            final(self).router_client == old(self).router_client,
            final(self).listener_configuration == old(self).listener_configuration,
            final(self).topic_configuration == old(self).topic_configuration,
            final(self).data_serde == old(self).data_serde,
            final(self).subscription_store.store_view() == old(self).subscription_store.store_view(),
            ({
                let input = selected_bytes(old(self).topic_configuration.data_source, message@);
                match r {
                    Ok(ds) => decoded_value(old(self).data_serde, input) matches Some(vals)
                        && plan_ok(
                        old(self).listener_configuration.operation@,
                        old(self).listener_configuration.id_key@,
                        old(self).subscription_store.store_view(),
                        vals,
                        ds@.map_values(|d: DispatchSubscription| d@),
                    ) && (forall|j: int| 0 <= j < ds@.len() ==> (#[trigger] ds@[j]).data.wf()),
                    Err(Error::Decode(e)) => decoded_value(old(self).data_serde, input) is None
                        && e == decoder_error(old(self).data_serde),
                    Err(Error::Storage(_)) => decoded_value(old(self).data_serde, input) is Some,
                    Err(_) => false,
                }
            }),
    {
        let ghost input = selected_bytes(self.topic_configuration.data_source, message@);
        let data: Vec<u8> = match self.topic_configuration.data_source {
            TopicDataSource::Key => match message.key {
                Some(k) => k,
                None => Vec::new(),
            },
            TopicDataSource::Value => message.value,
        };
        proof {
            assert(data@ =~= input);
        }
        let vals = match self.data_serde.extract_values(data) {
            Ok(vals) => vals,
            Err(e) => {
                return Err(Error::Decode(e));
            },
        };
        let ghost decoded = vals@;
        proof {
            assert(decoded_value(old(self).data_serde, input) == Some(decoded));
        }
        self.plan_dispatches(&vals)
    }
}

/// The `next` envelopes a dispatch sequence is meant to post, in order.
pub open spec fn next_requests_of(
    operation: Seq<char>,
    entity_name: Seq<char>,
    ds: Seq<DispatchSubscription>,
) -> Seq<RequestView> {
    ds.map_values(|d: DispatchSubscription| next_request_view(operation, entity_name, d@))
}

/// The `next` envelopes within a sent segment, in order.
pub open spec fn nexts_of(s: Seq<RequestView>) -> Seq<RequestView>
    decreases s.len(),
{
    if s.len() == 0 {
        Seq::empty()
    } else if s[0].action == Some(Action::Next) {
        seq![s[0]] + nexts_of(s.drop_first())
    } else {
        nexts_of(s.drop_first())
    }
}

/// Splitting a segment splits its `next` envelopes.
pub proof fn lemma_nexts_of_concat(a: Seq<RequestView>, b: Seq<RequestView>)
    ensures
        nexts_of(a + b) == nexts_of(a) + nexts_of(b),
    decreases a.len(),
{
    if a.len() == 0 {
        assert(a + b =~= b);
        assert(nexts_of(a) + nexts_of(b) =~= nexts_of(b));
    } else {
        lemma_nexts_of_concat(a.drop_first(), b);
        let c = a + b;
        assert(c[0] == a[0]);
        assert(c.drop_first() =~= a.drop_first() + b);
        if a[0].action == Some(Action::Next) {
            assert(nexts_of(c) =~= seq![a[0]] + (nexts_of(a.drop_first()) + nexts_of(b)));
            assert(nexts_of(a) + nexts_of(b) =~= seq![a[0]] + (nexts_of(a.drop_first())
                + nexts_of(b)));
        }
    }
}

impl<R: RouterClient, K: KvStore> MessageProcessor<R, K> {
    /// Performs every planned dispatch in order. Dispatch fan-out: on
    /// success, the envelopes posted beyond the old log contain exactly
    /// one `next` per dispatch, the j-th being the j-th dispatch's — N
    /// live subscriptions get exactly N `next` callbacks.
    pub fn dispatch_all(&mut self, dispatches: &Vec<DispatchSubscription>) -> (r: Result<
        (),
        Error,
    >)
        requires
            old(self).wf(),
            forall|j: int| 0 <= j < dispatches@.len() ==> (#[trigger] dispatches@[j]).data.wf(),
        ensures
            final(self).wf(),
            final(self).listener_configuration == old(self).listener_configuration,
            final(self).topic_configuration == old(self).topic_configuration,
            final(self).data_serde == old(self).data_serde,
            r is Ok ==> nexts_of(
                final(self).router_client.sent().skip(old(self).router_client.sent().len() as int),
            ) == dispatches@.map_values(
                |d: DispatchSubscription|
                    next_request_view(
                        old(self).listener_configuration.operation@,
                        old(self).listener_configuration.entity_name@,
                        d@,
                    ),
            ),
            dispatches@.len() == 0 ==> final(self).router_client.sent() == old(
                self,
            ).router_client.sent() && final(self).subscription_store.store_view() == old(
                self,
            ).subscription_store.store_view() && r is Ok,
            r matches Err(e) ==> e matches Error::Storage(_),
            r is Err ==> exists|n: int|
                #![trigger next_requests_of(
                    old(self).listener_configuration.operation@,
                    old(self).listener_configuration.entity_name@,
                    dispatches@,
                ).take(n)]
                0 <= n <= dispatches@.len() && nexts_of(
                    final(self).router_client.sent().skip(
                        old(self).router_client.sent().len() as int,
                    ),
                ) == next_requests_of(
                    old(self).listener_configuration.operation@,
                    old(self).listener_configuration.entity_name@,
                    dispatches@,
                ).take(n),
    {
        let ghost s0 = self.router_client.sent();
        let ghost op = self.listener_configuration.operation@;
        let ghost entity = self.listener_configuration.entity_name@;
        let n = dispatches.len();
        proof {
            assert(self.router_client.sent().skip(s0.len() as int) =~= Seq::<RequestView>::empty());
        }
        for i in 0..n
            invariant
                n == dispatches@.len(),
                forall|j: int| 0 <= j < dispatches@.len() ==> (#[trigger] dispatches@[j]).data.wf(),
                self.wf(),
                s0 == old(self).router_client.sent(),
                op == old(self).listener_configuration.operation@,
                entity == old(self).listener_configuration.entity_name@,
                self.listener_configuration == old(self).listener_configuration,
                self.topic_configuration == old(self).topic_configuration,
                self.data_serde == old(self).data_serde,
                s0.len() <= self.router_client.sent().len(),
                self.router_client.sent().take(s0.len() as int) == s0,
                dispatches@.len() == 0 ==> self.router_client.sent() == s0 && self
                    .subscription_store.store_view() == old(self).subscription_store.store_view(),
                nexts_of(self.router_client.sent().skip(s0.len() as int)) =~= dispatches@.take(
                    i as int,
                ).map_values(
                    |d: DispatchSubscription| next_request_view(op, entity, d@),
                ),
        {
            let ghost sent_before = self.router_client.sent();
            let outcome = self.handle_dispatch(&dispatches[i]);
            proof {
                let seg0 = sent_before.skip(s0.len() as int);
                let seg1 = self.router_client.sent().skip(s0.len() as int);
                let nr = next_request_view(op, entity, dispatches@[i as int]@);
                let cr = complete_request_view(dispatches@[i as int]@);
                if self.router_client.sent() == sent_before.push(nr) {
                    assert(seg1 =~= seg0 + seq![nr]);
                    lemma_nexts_of_concat(seg0, seq![nr]);
                    assert(nexts_of(seq![nr]) =~= seq![nr]) by {
                        assert(seq![nr][0] == nr);
                        assert(nr.action == Some(Action::Next));
                        assert(seq![nr].drop_first() =~= Seq::<RequestView>::empty());
                        assert(nexts_of(Seq::<RequestView>::empty())
                            == Seq::<RequestView>::empty());
                    }
                } else {
                    assert(self.router_client.sent() == sent_before.push(nr).push(cr));
                    assert(seg1 =~= seg0 + seq![nr, cr]);
                    lemma_nexts_of_concat(seg0, seq![nr, cr]);
                    assert(nexts_of(seq![nr, cr]) =~= seq![nr]) by {
                        assert(seq![nr, cr][0] == nr);
                        assert(nr.action == Some(Action::Next));
                        assert(seq![nr, cr].drop_first() =~= seq![cr]);
                        assert(seq![cr][0] == cr);
                        assert(cr.action == Some(Action::Complete));
                        assert(seq![cr].drop_first() =~= Seq::<RequestView>::empty());
                        assert(nexts_of(Seq::<RequestView>::empty())
                            == Seq::<RequestView>::empty());
                        assert(nexts_of(seq![cr]) =~= Seq::<RequestView>::empty());
                    }
                }
                assert(self.router_client.sent().take(s0.len() as int) =~= s0);
                assert(dispatches@.take(i as int + 1).map_values(
                    |d: DispatchSubscription| next_request_view(op, entity, d@),
                ) =~= dispatches@.take(i as int).map_values(
                    |d: DispatchSubscription| next_request_view(op, entity, d@),
                ) + seq![nr]);
            }
            match outcome {
                Ok(_) => {},
                Err(e) => {
                    proof {
                        assert(next_requests_of(op, entity, dispatches@).take(i as int + 1)
                            =~= dispatches@.take(i as int + 1).map_values(
                            |d: DispatchSubscription| next_request_view(op, entity, d@),
                        ));
                        assert(nexts_of(self.router_client.sent().skip(s0.len() as int))
                            =~= next_requests_of(op, entity, dispatches@).take(i as int + 1));
                    }
                    return Err(e);
                },
            }
        }
        proof {
            assert(dispatches@.take(n as int) =~= dispatches@);
        }
        Ok(())
    }
}

/// What handling one raw record does, end to end, by the topic's delay
/// mode: for a delayed topic the plan comes back untouched and nothing
/// is posted; otherwise the plan is performed at once — exactly one
/// `next` per planned dispatch, in order — and the result is empty.
pub open spec fn process_message_post<R: RouterClient, K: KvStore>(
    pre: MessageProcessor<R, K>,
    post: MessageProcessor<R, K>,
    message: RawMessageView,
    r: Result<Vec<DispatchSubscription>, Error>,
) -> bool {
    let input = selected_bytes(pre.topic_configuration.data_source, message);
    let op = pre.listener_configuration.operation@;
    let id_key = pre.listener_configuration.id_key@;
    let entity = pre.listener_configuration.entity_name@;
    let v0 = pre.subscription_store.store_view();
    let s0 = pre.router_client.sent();
    match r {
        Ok(ds) => match decoded_value(pre.data_serde, input) {
            Some(vals) => (forall|j: int| 0 <= j < ds@.len() ==> (#[trigger] ds@[j]).data.wf())
                && if pre.topic_configuration.delay_ms is Some {
                ({
                    &&& plan_ok(op, id_key, v0, vals, ds@.map_values(|d: DispatchSubscription| d@))
                    &&& post.router_client.sent() == s0
                    &&& post.subscription_store.store_view() == v0
                })
            } else {
                ({
                    &&& ds@.len() == 0
                    &&& match extracted_id(vals, id_key) {
                        Some(idv) => nexts_of(post.router_client.sent().skip(s0.len() as int))
                            == planned_dispatches(op, idv, vals, v0).map_values(
                            |d: DispatchSubscriptionView| next_request_view(op, entity, d),
                        ),
                        None => post.router_client.sent() == s0
                            && post.subscription_store.store_view() == v0,
                    }
                })
            },
            None => false,
        },
        Err(Error::Decode(e)) => decoded_value(pre.data_serde, input) is None && e == decoder_error(
            pre.data_serde,
        ) && post.router_client.sent() == s0 && post.subscription_store.store_view() == v0,
        Err(Error::Storage(_)) => decoded_value(pre.data_serde, input) is Some,
        Err(_) => false,
    }
}

impl<R: RouterClient, K: KvStore> MessageProcessor<R, K> {
    /// Handles one raw record end to end, as [`process_message_post`]
    /// says: decode, plan, and — unless the topic is delayed — perform
    /// every dispatch at once. For a delayed topic the caller schedules
    /// the returned dispatches and performs each after the delay.
    pub fn process_message(&mut self, message: RawMessage) -> (r: Result<
        Vec<DispatchSubscription>,
        Error,
    >)
        requires
            old(self).wf(),
        ensures
            final(self).wf(),
            final(self).listener_configuration == old(self).listener_configuration,
            final(self).topic_configuration == old(self).topic_configuration,
            final(self).data_serde == old(self).data_serde,
            process_message_post(*old(self), *final(self), message@, r),
    {
        let ghost pre = *self;
        let planned = match self.handle_raw_message(message) {
            Ok(planned) => planned,
            Err(e) => {
                return Err(e);
            },
        };
        let immediate = match self.topic_configuration.delay_ms {
            None => true,
            Some(_) => false,
        };
        if !immediate {
            return Ok(planned);
        }
        let outcome = self.dispatch_all(&planned);
        proof {
            let input = selected_bytes(pre.topic_configuration.data_source, message@);
            let op = pre.listener_configuration.operation@;
            let id_key = pre.listener_configuration.id_key@;
            let entity = pre.listener_configuration.entity_name@;
            let v0 = pre.subscription_store.store_view();
            let vals = decoded_value(pre.data_serde, input).unwrap();
            if outcome is Ok {
                match extracted_id(vals, id_key) {
                    Some(idv) => {
                        let want = planned_dispatches(op, idv, vals, v0);
                        assert(planned@.map_values(|d: DispatchSubscription| d@) == want);
                        assert forall|j: int|
                            0 <= j < planned@.len() implies next_requests_of(op, entity, planned@)[j]
                            == want.map_values(
                            |d: DispatchSubscriptionView| next_request_view(op, entity, d),
                        )[j] by {
                            assert(planned@.map_values(|d: DispatchSubscription| d@)[j]
                                == planned@[j]@);
                        }
                        assert(next_requests_of(op, entity, planned@) =~= want.map_values(
                            |d: DispatchSubscriptionView| next_request_view(op, entity, d),
                        ));
                    },
                    None => {
                        assert(planned@.len() == 0);
                    },
                }
            }
        }
        match outcome {
            Ok(()) => Ok(Vec::new()),
            Err(e) => Err(e),
        }
    }
}

/// Delete-on-failure, the second half: once a record's id is removed
/// from its group, no later lookup of that group decodes a record with
/// that id — so no further callback can be planned for it.
pub proof fn lemma_removed_id_not_decoded(
    key: Seq<char>,
    fields: Seq<(Seq<char>, Seq<u8>)>,
    id: Seq<char>,
)
    requires
        fields_distinct(fields),
        forall|i: int|
            #![trigger fields[i]]
            0 <= i < fields.len() ==> match decode_record_spec(fields[i].1) {
                Some(rv) => rv.id == fields[i].0 && rv.group_key() == key,
                None => true,
            },
    ensures
        forall|p: int|
            #![trigger decoded_records(fields_remove(fields, id))[p]]
            0 <= p < decoded_records(fields_remove(fields, id)).len() ==> decoded_records(
                fields_remove(fields, id),
            )[p].id != id,
{
    let f2 = fields_remove(fields, id);
    assert forall|i: int| 0 <= i < f2.len() implies #[trigger] f2[i].0 != id && match
        decode_record_spec(f2[i].1) {
        Some(rv) => rv.id == f2[i].0 && rv.group_key() == key,
        None => true,
    } by {
        if fields_has(fields, id) {
            crate::kv_store::lemma_field_index_bounds(fields, id);
            let ix = crate::kv_store::field_index_of(fields, id);
            let i0 = if i < ix {
                i
            } else {
                i + 1
            };
            assert(f2[i] == fields[i0]);
            assert(fields[i0].0 != fields[ix].0 || i0 == ix);
        } else {
            assert(f2[i] == fields[i]);
            assert(!fields_has(fields, id) ==> fields[i].0 != id);
        }
    }
    lemma_decoded_records_ids(key, f2);
    assert forall|p: int|
        #![trigger decoded_records(f2)[p]]
        0 <= p < decoded_records(f2).len() implies decoded_records(f2)[p].id != id by {
        let j = choose|j: int| 0 <= j < f2.len() && f2[j].0 == decoded_records(f2)[p].id;
        assert(f2[j].0 != id);
    }
}

} // verus!
