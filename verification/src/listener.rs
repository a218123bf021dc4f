//! The event listener's decision logic: what one poll of the terminal
//! backend obliges the listener to do. The poll itself is I/O and runs
//! outside the library; the decision is pure and verified here.

use vstd::prelude::*;

verus! {

/// A key event as the terminal backend reports it: a printable character,
/// the escape key, or any other key.
#[derive(Clone, Copy, Debug, PartialEq, Eq, Structural)]
pub enum KeyEvent {
    Character(char),
    Escape,
    Other,
}

/// The outcome of one poll of the terminal backend.
#[derive(Clone, Copy, Debug, PartialEq, Eq, Structural)]
pub enum PollOutcome {
    /// The backend delivered a key event.
    Key(KeyEvent),
    /// The backend delivered something that is no key event.
    NoKey,
    /// The poll itself failed.
    Failed,
}

/// What the listener must do with one poll outcome.
#[derive(Clone, Copy, Debug, PartialEq, Eq, Structural)]
pub enum ListenerAction {
    /// Forward this character to the injected `Keyboard` capability.
    Forward(char),
    /// Raise the process-wide termination signal.
    RequestShutdown,
    /// Do nothing this tick.
    Ignore,
    /// The backend is broken: no event can ever be polled again.
    Fatal,
}

/// The listener's tick, as a function of the poll outcome alone: a
/// character is forwarded, escape requests shutdown, any other event is
/// ignored, and a failed poll is fatal.
pub open spec fn action_for(outcome: PollOutcome) -> ListenerAction {
    match outcome {
        PollOutcome::Key(KeyEvent::Character(c)) => ListenerAction::Forward(c),
        PollOutcome::Key(KeyEvent::Escape) => ListenerAction::RequestShutdown,
        PollOutcome::Key(KeyEvent::Other) => ListenerAction::Ignore,
        PollOutcome::NoKey => ListenerAction::Ignore,
        PollOutcome::Failed => ListenerAction::Fatal,
    }
}

/// Decides one listener tick from the poll outcome.
pub fn listener_step(outcome: PollOutcome) -> (action: ListenerAction)
    ensures
        action == action_for(outcome),
{
    match outcome {
        PollOutcome::Key(KeyEvent::Character(c)) => ListenerAction::Forward(c),
        PollOutcome::Key(KeyEvent::Escape) => ListenerAction::RequestShutdown,
        PollOutcome::Key(KeyEvent::Other) => ListenerAction::Ignore,
        PollOutcome::NoKey => ListenerAction::Ignore,
        PollOutcome::Failed => ListenerAction::Fatal,
    }
}

/// A character event forwards exactly that character, and is the only
/// outcome that forwards anything; every other recognized key event
/// forwards nothing.
pub proof fn lemma_forward_exactly_mapped(outcome: PollOutcome)
    ensures
        forall|c: char| action_for(outcome) == ListenerAction::Forward(c)
            <==> outcome == PollOutcome::Key(KeyEvent::Character(c)),
{
}

} // verus!
