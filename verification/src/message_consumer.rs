//! What the bus hands the library: one raw record per message. The
//! consumer itself — connection, subscription, the receive loop — is
//! I/O and lives outside the library, which only ever sees these plain
//! values.

use vstd::prelude::*;

verus! {

/// The pause before the next receive attempt after a failure: it
/// doubles from one second up to a cap of thirty seconds.
pub open spec fn backoff_after(previous_ms: u64) -> u64 {
    if previous_ms == 0 {
        1000
    } else if previous_ms >= 15000 {
        30000
    } else {
        (2 * previous_ms) as u64
    }
}

/// Computes the consumer loop's next backoff, per [`backoff_after`]; the
/// loop resets it to zero after a successful receive.
pub fn next_backoff_ms(previous_ms: u64) -> (r: u64)
    ensures
        r == backoff_after(previous_ms),
{
    if previous_ms == 0 {
        1000
    } else if previous_ms >= 15000 {
        30000
    } else {
        2 * previous_ms
    }
}

/// One record from the bus.
pub struct RawMessage {
    /// The record key, when the bus carried one.
    pub key: Option<Vec<u8>>,
    /// The record payload.
    pub value: Vec<u8>,
    /// The topic the record arrived on.
    pub topic: String,
}

/// The mathematical value of a [`RawMessage`].
pub struct RawMessageView {
    pub key: Option<Seq<u8>>,
    pub value: Seq<u8>,
    pub topic: Seq<char>,
}

impl View for RawMessage {
    type V = RawMessageView;

    open spec fn view(&self) -> RawMessageView {
        RawMessageView {
            key: match &self.key {
                Some(k) => Some(k@),
                None => None,
            },
            value: self.value@,
            topic: self.topic@,
        }
    }
}

} // verus!
