//! The serve-lifecycle state machine behind graceful shutdown: while
//! running, requests are admitted; after the shutdown signal, no new request
//! is admitted but every in-flight one may finish; the service stops when
//! the last one has finished or the drain deadline fires. The listener and
//! the signal live outside the library, which only decides.

use vstd::prelude::*;

verus! {

/// Where the service stands in its life.
#[derive(Clone, Copy, PartialEq, Eq, Structural, Debug)]
pub enum Phase {
    /// Accepting new requests.
    Running,
    /// Shutdown was signalled: in-flight requests finish, none is admitted.
    Draining,
    /// Fully stopped.
    Stopped,
}

/// The lifecycle state: the phase and how many requests are in flight.
#[derive(Clone, Copy, PartialEq, Eq, Structural, Debug)]
pub struct Lifecycle {
    pub phase: Phase,
    pub in_flight: u64,
}

/// A fresh lifecycle: running, nothing in flight.
pub open spec fn initial_lifecycle() -> Lifecycle {
    Lifecycle { phase: Phase::Running, in_flight: 0 }
}

/// Whether a new request would be admitted in this state.
pub open spec fn admits(s: Lifecycle) -> bool {
    s.phase == Phase::Running
}

/// The state after trying to admit one request: the count grows only while
/// running.
pub open spec fn spec_start(s: Lifecycle) -> Lifecycle {
    if admits(s) {
        Lifecycle { phase: s.phase, in_flight: (s.in_flight + 1) as u64 }
    } else {
        s
    }
}

/// The state after one in-flight request finishes: the count falls, and a
/// draining service whose last request finished stops.
pub open spec fn spec_finish(s: Lifecycle) -> Lifecycle {
    let left = (s.in_flight - 1) as u64;
    if s.phase == Phase::Draining && left == 0 {
        Lifecycle { phase: Phase::Stopped, in_flight: left }
    } else {
        Lifecycle { phase: s.phase, in_flight: left }
    }
}

/// The state after the shutdown signal: a running service with work drains,
/// an idle one stops at once; a signal repeated later changes nothing.
pub open spec fn spec_signal(s: Lifecycle) -> Lifecycle {
    if s.phase == Phase::Running {
        if s.in_flight == 0 {
            Lifecycle { phase: Phase::Stopped, in_flight: s.in_flight }
        } else {
            Lifecycle { phase: Phase::Draining, in_flight: s.in_flight }
        }
    } else {
        s
    }
}

/// The state after the bounded drain timeout fires: a draining service
/// stops even with work left.
pub open spec fn spec_deadline(s: Lifecycle) -> Lifecycle {
    if s.phase == Phase::Draining {
        Lifecycle { phase: Phase::Stopped, in_flight: s.in_flight }
    } else {
        s
    }
}

impl Lifecycle {
    /// A fresh lifecycle.
    pub fn new() -> (r: Lifecycle)
        ensures
            r == initial_lifecycle(),
    {
        Lifecycle { phase: Phase::Running, in_flight: 0 }
    }

    /// Tries to admit one request; says whether it was admitted. The count
    /// staying below the machine's limit is forced by the word size.
    pub fn start_request(&mut self) -> (admitted: bool)
        requires
            old(self).in_flight < u64::MAX,
        ensures
            admitted == admits(*old(self)),
            *final(self) == spec_start(*old(self)),
    {
        if matches!(self.phase, Phase::Running) {
            self.in_flight = self.in_flight + 1;
            true
        } else {
            false
        }
    }

    /// Records that one in-flight request finished. A request that was
    /// admitted may always finish, in any phase.
    pub fn finish_request(&mut self)
        requires
            old(self).in_flight > 0,
        ensures
            *final(self) == spec_finish(*old(self)),
    {
        self.in_flight = self.in_flight - 1;
        if matches!(self.phase, Phase::Draining) && self.in_flight == 0 {
            self.phase = Phase::Stopped;
        }
    }

    /// Reacts to the shutdown signal.
    pub fn signal_shutdown(&mut self)
        ensures
            *final(self) == spec_signal(*old(self)),
    {
        if matches!(self.phase, Phase::Running) {
            if self.in_flight == 0 {
                self.phase = Phase::Stopped;
            } else {
                self.phase = Phase::Draining;
            }
        }
    }

    /// Reacts to the drain deadline.
    pub fn deadline(&mut self)
        ensures
            *final(self) == spec_deadline(*old(self)),
    {
        if matches!(self.phase, Phase::Draining) {
            self.phase = Phase::Stopped;
        }
    }
}

/// After the shutdown signal, no state reachable by any further events
/// admits a new request: the signalled state does not, and none of the
/// transitions leads from a non-admitting state back to an admitting one.
pub proof fn lemma_no_admission_after_signal(s: Lifecycle)
    ensures
        !admits(spec_signal(s)),
        !admits(s) ==> !admits(spec_start(s)) && !admits(spec_finish(s)) && !admits(spec_signal(s))
            && !admits(spec_deadline(s)),
{
}

/// A request admitted before the signal is never lost by the signal: it
/// stays counted while the service drains, and the service does not stop
/// with it still in flight unless the bounded deadline forces it.
pub proof fn lemma_drain_keeps_in_flight(s: Lifecycle)
    requires
        s.in_flight > 0,
        s.phase != Phase::Stopped,
    ensures
        spec_signal(s).in_flight == s.in_flight,
        spec_signal(s).phase != Phase::Stopped,
{
}

} // verus!
