//! The health probe's request and answer. The HTTP endpoint serving it
//! lives outside the library.

use vstd::prelude::*;

verus! {

/// A liveness probe.
#[derive(Clone, Copy, PartialEq, Eq, Structural, Debug)]
pub struct CheckHealthRequest {}

impl Default for CheckHealthRequest {
    fn default() -> (r: Self)
        ensures
            r == (CheckHealthRequest {  }),
    {
        CheckHealthRequest {  }
    }
}

/// The probe's answer: whether the supervisor is alive.
#[derive(Clone, Copy, PartialEq, Eq, Structural, Debug)]
pub struct CheckHealthResponse {
    pub is_ok: bool,
}

impl CheckHealthResponse {
    /// Answers a probe for a supervisor in the given liveness state.
    pub fn new(is_alive: bool) -> (r: Self)
        ensures
            r.is_ok == is_alive,
    {
        CheckHealthResponse { is_ok: is_alive }
    }
}

} // verus!
