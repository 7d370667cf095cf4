//! The stop signal: a single shared cancellation flag.
//!
//! The flag is set (idempotently) by the operator path and polled cheaply
//! and often by every worker and the reporter. The surrounding binary
//! shares one controller among all loops; this module states what setting
//! and reading the flag mean.

use vstd::prelude::*;

verus! {

/// The cancellation flag. Once set it never becomes unset again: the only
/// mutation offered is `request_stop`.
pub struct StopController {
    stopped: bool,
}

/// The effect of `request_stop` on a controller: the flag is set, whatever
/// it held before.
pub closed spec fn stop_transition(s: StopController) -> StopController {
    StopController { stopped: true }
}

impl StopController {
    /// The flag's abstract value.
    pub closed spec fn is_stopped(&self) -> bool {
        self.stopped
    }

    /// A fresh controller: no stop has been requested.
    pub fn new() -> (r: StopController)
        ensures
            !r.is_stopped(),
    {
        StopController { stopped: false }
    }

    /// Request a graceful stop. Idempotent: the resulting state is the
    /// same whether the flag was already set or not.
    pub fn request_stop(&mut self)
        ensures
            *final(self) == stop_transition(*old(self)),
            final(self).is_stopped(),
    {
        self.stopped = true;
    }

    /// Poll the flag.
    pub fn should_stop(&self) -> (r: bool)
        ensures
            r == self.is_stopped(),
    {
        self.stopped
    }
}

/// Requesting a stop twice leaves the controller exactly as one request
/// does: repeated (or concurrent, serialized by the shared-flag discipline)
/// calls of `request_stop` are observably one call.
pub proof fn lemma_request_stop_idempotent(s: StopController)
    ensures
        stop_transition(stop_transition(s)) == stop_transition(s),
{
}

} // verus!
