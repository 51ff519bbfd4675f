//! The callback envelope sent to the router, and the client port that
//! posts it.
//!
//! Every envelope carries `kind = "subscription"`, the subscription's id
//! and verifier, and one action: `check` during registration, `next`
//! with a payload for every update, `complete` when a subscription ends.
//! The client port records, in its abstraction, every request it was
//! given, so callers can state exactly what was dispatched.

use vstd::prelude::*;

use crate::json_value::{JsonValue, JsonValueView, ValueMap};
use vstd::string::StrSliceExecFns;

verus! {

/// The protocol the router advertises in its response header.
#[derive(Clone, Copy, PartialEq, Eq, Structural, Debug)]
pub enum SubscriptionProtocol {
    Callback1,
    Unknown,
}

impl SubscriptionProtocol {
    /// Reads the `subscription-protocol` response header value;
    /// `"callback/1.0"` is the one recognised protocol.
    pub fn from_header(value: &str) -> (r: Self)
        ensures
            r is Callback1 <==> value@ == "callback/1.0"@,
    {
        if value.to_owned() == "callback/1.0".to_owned() {
            SubscriptionProtocol::Callback1
        } else {
            SubscriptionProtocol::Unknown
        }
    }
}

/// One error entry of a callback response or a `complete` envelope.
pub struct ErrorDetails {
    pub message: Option<String>,
}

impl View for ErrorDetails {
    type V = Option<Seq<char>>;

    open spec fn view(&self) -> Option<Seq<char>> {
        match self.message {
            Some(m) => Some(m@),
            None => None,
        }
    }
}

impl Clone for ErrorDetails {
    fn clone(&self) -> (r: Self)
        ensures
            r@ == self@,
    {
        ErrorDetails {
            message: match &self.message {
                Some(m) => Some(m.clone()),
                None => None,
            },
        }
    }
}

/// The body a router may answer with: optional error entries.
pub struct EmptyResponse {
    pub errors: Option<Vec<ErrorDetails>>,
}

/// The action of an envelope.
#[derive(Clone, Copy, PartialEq, Eq, Structural, Debug)]
pub enum Action {
    Check,
    Next,
    Complete,
}

/// The payload of a `next` envelope: the data map is published under the
/// operation's field name.
pub struct NextPayload {
    pub operation: String,
    pub data: ValueMap,
}

/// The mathematical value of a [`NextPayload`].
pub struct NextPayloadView {
    pub operation: Seq<char>,
    pub data: Map<Seq<char>, JsonValueView>,
}

impl View for NextPayload {
    type V = NextPayloadView;

    open spec fn view(&self) -> NextPayloadView {
        NextPayloadView { operation: self.operation@, data: self.data@ }
    }
}

/// One callback envelope.
pub struct Request {
    pub callback_url: String,
    pub id: String,
    pub verifier: String,
    pub action: Option<Action>,
    pub payload: Option<NextPayload>,
    pub errors: Option<Vec<ErrorDetails>>,
}

/// The mathematical value of a [`Request`].
pub struct RequestView {
    pub callback_url: Seq<char>,
    pub id: Seq<char>,
    pub verifier: Seq<char>,
    pub action: Option<Action>,
    pub payload: Option<NextPayloadView>,
    pub errors: Option<Seq<Option<Seq<char>>>>,
}

impl View for Request {
    type V = RequestView;

    open spec fn view(&self) -> RequestView {
        RequestView {
            callback_url: self.callback_url@,
            id: self.id@,
            verifier: self.verifier@,
            action: self.action,
            payload: match &self.payload {
                Some(p) => Some(p@),
                None => None,
            },
            errors: match &self.errors {
                Some(es) => Some(es@.map_values(|e: ErrorDetails| e@)),
                None => None,
            },
        }
    }
}

impl Request {
    /// Starts an envelope for one subscription: its callback URL, id and
    /// verifier, with no action chosen yet.
    pub fn subscription(callback_url: &String, id: &String, verifier: &String) -> (r: Self)
        ensures
            r@ == (RequestView {
                callback_url: callback_url@,
                id: id@,
                verifier: verifier@,
                action: None,
                payload: None,
                errors: None,
            }),
    {
        Request {
            callback_url: callback_url.clone(),
            id: id.clone(),
            verifier: verifier.clone(),
            action: None,
            payload: None,
            errors: None,
        }
    }

    /// Turns the envelope into the registration handshake.
    pub fn check(&mut self)
        ensures
            final(self)@ == (RequestView { action: Some(Action::Check), ..old(self)@ }),
    {
        self.action = Some(Action::Check);
    }

    /// Turns the envelope into a completion notice, with optional error
    /// entries.
    pub fn complete(&mut self, errors: Option<Vec<ErrorDetails>>)
        ensures
            final(self)@ == (RequestView {
                action: Some(Action::Complete),
                errors: match errors {
                    Some(es) => Some(es@.map_values(|e: ErrorDetails| e@)),
                    None => None,
                },
                ..old(self)@
            }),
    {
        self.action = Some(Action::Complete);
        self.errors = errors;
    }

    /// Turns the envelope into an update: the data map gains the
    /// entity's `__typename` and is published under the operation's
    /// field name.
    pub fn next(&mut self, operation: &String, entity_name: &String, data: ValueMap)
        requires
            data.wf(),
        ensures
            final(self)@ == (RequestView {
                action: Some(Action::Next),
                payload: Some(
                    NextPayloadView {
                        operation: operation@,
                        data: data@.insert("__typename"@, JsonValueView::Str(entity_name@)),
                    },
                ),
                ..old(self)@
            }),
    {
        let mut data = data;
        data.insert("__typename".to_owned(), JsonValue::Str(entity_name.clone()));
        self.action = Some(Action::Next);
        self.payload = Some(NextPayload { operation: operation.clone(), data });
    }
}

impl Clone for Request {
    fn clone(&self) -> (r: Self)
        ensures
            r@ == self@,
    {
        let errors = match &self.errors {
            Some(es) => {
                let mut out: Vec<ErrorDetails> = Vec::new();
                let n = es.len();
                for i in 0..n
                    invariant
                        n == es@.len(),
                        out@.len() == i,
                        forall|j: int| 0 <= j < i ==> out@[j]@ == es@[j]@,
                {
                    out.push(es[i].clone());
                }
                proof {
                    assert(out@.map_values(|e: ErrorDetails| e@) =~= es@.map_values(
                        |e: ErrorDetails| e@,
                    ));
                }
                Some(out)
            },
            None => None,
        };
        Request {
            callback_url: self.callback_url.clone(),
            id: self.id.clone(),
            verifier: self.verifier.clone(),
            action: self.action,
            payload: match &self.payload {
                Some(p) => Some(
                    NextPayload { operation: p.operation.clone(), data: p.data.clone() },
                ),
                None => None,
            },
            errors,
        }
    }
}

/// What the router answered.
pub struct Response {
    pub status_code: u16,
    pub subscription_protocol: Option<SubscriptionProtocol>,
    pub errors: Option<Vec<ErrorDetails>>,
}

impl Response {
    /// Whether the status code is in the success class.
    pub fn is_success(&self) -> (r: bool)
        ensures
            r == (200 <= self.status_code < 300),
    {
        200 <= self.status_code && self.status_code < 300
    }
}

/// Why a callback POST failed.
pub enum RouterError {
    /// The request never completed: connection, timeout, or transport.
    Transport,
    /// The router answered outside the success class; the decoded error
    /// body rides along for logging.
    Rejected { status_code: u16, errors: Option<Vec<ErrorDetails>> },
}

/// The log a router client's abstraction keeps: every envelope it was
/// given, oldest first.
pub type SentLog = Seq<RequestView>;

/// The router client port. Its abstraction records every envelope handed
/// to [`RouterClient::send`], in order, whatever the outcome; nothing is
/// promised about the outcome itself, since the router is free to fail
/// any request.
pub trait RouterClient: Sized {
    /// Every envelope given to `send` so far, oldest first.
    spec fn sent(&self) -> SentLog;

    /// Posts one envelope to its callback URL.
    fn send(&mut self, request: &Request) -> (r: Result<Response, RouterError>)
        ensures
            final(self).sent() == old(self).sent().push(request@),
    ;
}

/// A callback URL naming the in-memory client's designated failure sink.
pub open spec fn is_error_sink(url: Seq<char>) -> bool {
    url.len() >= 6 && url.subrange(url.len() - 6, url.len() as int) == "/error"@
}

/// An in-process router client: it accepts every envelope, keeps it for
/// inspection, and fails exactly the URLs that end in `/error`.
pub struct InMemoryRouterClient {
    sent_requests: Vec<Request>,
}

impl InMemoryRouterClient {
    pub fn new() -> (r: Self)
        ensures
            r.sent() =~= Seq::<RequestView>::empty(),
    {
        InMemoryRouterClient { sent_requests: Vec::new() }
    }

    /// The envelopes sent so far, for inspection.
    pub fn sent_requests(&self) -> (r: &Vec<Request>)
        ensures
            r@.map_values(|q: Request| q@) == self.sent(),
    {
        &self.sent_requests
    }
}

impl Clone for InMemoryRouterClient {
    /// Each holder gets its own fresh client: the log of envelopes is
    /// per holder, not shared.
    fn clone(&self) -> (r: Self)
        ensures
            r.sent() =~= Seq::<RequestView>::empty(),
    {
        InMemoryRouterClient { sent_requests: Vec::new() }
    }
}

impl RouterClient for InMemoryRouterClient {
    closed spec fn sent(&self) -> Seq<RequestView> {
        self.sent_requests@.map_values(|q: Request| q@)
    }

    fn send(&mut self, request: &Request) -> (r: Result<Response, RouterError>)
        ensures
            final(self).sent() == old(self).sent().push(request@),
            match r {
                Ok(resp) => !is_error_sink(request.callback_url@) && resp.status_code == 204
                    && resp.subscription_protocol == Some(SubscriptionProtocol::Callback1),
                Err(e) => ({
                    &&& is_error_sink(request.callback_url@)
                    &&& e matches RouterError::Rejected { status_code, errors } && status_code
                        == 500 && (errors matches Some(es) && es@.len() == 1 && es@[0]@ == Some(
                        "test"@,
                    ))
                }),
            },
    {
        let ghost s0 = self.sent_requests@;
        self.sent_requests.push(request.clone());
        proof {
            assert(self.sent_requests@.map_values(|q: Request| q@) =~= s0.map_values(
                |q: Request| q@,
            ).push(request@));
        }
        let url = request.callback_url.as_str();
        let n = url.unicode_len();
        let failing = if n >= 6 {
            let suffix = url.substring_char(n - 6, n);
            let is_err = suffix.to_owned() == "/error".to_owned();
            proof {
                assert(suffix@ == request.callback_url@.subrange(
                    n - 6int,
                    request.callback_url@.len() as int,
                ));
            }
            is_err
        } else {
            false
        };
        if failing {
            let details = ErrorDetails { message: Some("test".to_owned()) };
            let mut errs: Vec<ErrorDetails> = Vec::new();
            errs.push(details);
            Err(RouterError::Rejected { status_code: 500, errors: Some(errs) })
        } else {
            Ok(
                Response {
                    status_code: 204,
                    subscription_protocol: Some(SubscriptionProtocol::Callback1),
                    errors: None,
                },
            )
        }
    }
}

} // verus!
