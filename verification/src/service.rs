//! The cooperative-shutdown protocol shared by both service loops: each
//! loop observes the process-wide shutdown flag at the top of every tick
//! and stops at the first observation of `true`.

use vstd::prelude::*;

verus! {

/// The two effective states of a service loop.
#[derive(Clone, Copy, Debug, PartialEq, Eq, Structural)]
pub enum ServiceState {
    /// The loop admits one more tick of work.
    Active,
    /// The loop has observed the shutdown flag and exited.
    Stopped,
}

/// Where one observation of the shutdown flag takes a service: a raised
/// flag stops it, an unraised flag leaves it as it was.
pub open spec fn next_state(state: ServiceState, terminated: bool) -> ServiceState {
    if terminated {
        ServiceState::Stopped
    } else {
        state
    }
}

/// Whether a service in this state admits another tick of work.
pub open spec fn admits_work(state: ServiceState) -> bool {
    state == ServiceState::Active
}

/// Observes the shutdown flag once, as each service loop does at the top
/// of every tick.
pub fn observe_shutdown(state: ServiceState, terminated: bool) -> (next: ServiceState)
    ensures
        next == next_state(state, terminated),
{
    if terminated {
        ServiceState::Stopped
    } else {
        state
    }
}

/// Decides whether a loop runs one more tick: work is admitted exactly
/// while the shutdown flag stays unraised.
pub fn tick_admitted(state: ServiceState) -> (run: bool)
    ensures
        run == admits_work(state),
{
    match state {
        ServiceState::Active => true,
        ServiceState::Stopped => false,
    }
}

/// Raising the shutdown flag stops a service within the one observation
/// its loop makes per tick; a stopped service admits no further work and
/// never resumes, whatever the flag later reads.
pub proof fn lemma_shutdown_within_one_tick(state: ServiceState, terminated: bool)
    ensures
        terminated ==> next_state(state, terminated) == ServiceState::Stopped,
        !admits_work(ServiceState::Stopped),
        next_state(ServiceState::Stopped, terminated) == ServiceState::Stopped,
{
}

} // verus!
