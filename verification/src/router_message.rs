//! The ingress decision: what to do with a POST from the router.
//!
//! The HTTP surface itself — binding, JSON bodies, peer addresses, the
//! optional callback-URL rewrite towards the peer's IP — lives outside
//! the library; it hands over the decoded body and gets back either a
//! registration to forward, the instruction to answer `{"data": null}`
//! without registering, or the rejection of a non-subscription POST.

use vstd::prelude::*;

use crate::errors::Error;
use crate::graphql::{doc_result, parsed_doc_of, vars_of, SubscriptionOperation};
use crate::json_value::ValueMap;
use crate::subscription_listener::IncomingSubscription;

verus! {

/// The subscription extension of a router POST.
pub struct Subscription {
    pub callback_url: String,
    pub heartbeat_interval_ms: u64,
    pub subscription_id: String,
    pub verifier: String,
}

/// The extensions object of a router POST.
pub struct Extensions {
    pub subscription: Option<Subscription>,
}

/// The body of a router POST.
pub struct MessageFromRouter {
    pub query: String,
    pub operation_name: Option<String>,
    pub extensions: Option<Extensions>,
    pub variables: Option<ValueMap>,
}

impl MessageFromRouter {
    /// The subscription extension carried, when one is.
    pub open spec fn subscription_ext(&self) -> Option<&Subscription> {
        match &self.extensions {
            Some(ext) => match &ext.subscription {
                Some(sub) => Some(sub),
                None => None,
            },
            None => None,
        }
    }
}

/// Decides one router POST: a POST without the subscription extension is
/// rejected; one whose query parses to a subscription operation becomes
/// that operation's registration; one whose query names no operation is
/// answered with `{"data": null}` and registers nothing.
pub fn handle_router_message(msg: MessageFromRouter) -> (r: Result<
    Option<IncomingSubscription>,
    Error,
>)
    requires
        match &msg.variables {
            Some(vm) => vm.wf(),
            None => true,
        },
    ensures
        match r {
            Ok(Some(ins)) => ({
                &&& msg.subscription_ext() matches Some(ext) && ins.id@ == ext.subscription_id@
                    && ins.verifier@ == ext.verifier@ && ins.heartbeat_interval_ms
                    == ext.heartbeat_interval_ms && ins.callback_url@ == ext.callback_url@
                &&& ins.arguments.wf()
                &&& doc_result(parsed_doc_of(msg.query@), vars_of(&msg.variables)) == Some(
                    (ins.operation@, ins.arguments@),
                )
            }),
            Ok(None) => msg.subscription_ext() is Some && doc_result(
                parsed_doc_of(msg.query@),
                vars_of(&msg.variables),
            ) is None,
            Err(e) => e == Error::InvalidRequest && msg.subscription_ext() is None,
        },
{
    let ext = match msg.extensions {
        Some(Extensions { subscription: Some(sub) }) => sub,
        _ => {
            return Err(Error::InvalidRequest);
        },
    };
    match SubscriptionOperation::from_query(msg.query.as_str(), &msg.variables) {
        Some(operation) => Ok(
            Some(
                IncomingSubscription {
                    id: ext.subscription_id,
                    verifier: ext.verifier,
                    heartbeat_interval_ms: ext.heartbeat_interval_ms,
                    callback_url: ext.callback_url,
                    operation: operation.name,
                    arguments: operation.arguments,
                },
            ),
        ),
        None => Ok(None),
    }
}

} // verus!
