use console::{listener_step, KeyEvent, Keyboard, ListenerAction, PollOutcome};
use std::sync::Mutex;

/// A keypad that records every key press it receives, as the application
/// would before routing the key onto its own channel.
struct RecordingKeypad {
    presses: Mutex<Vec<char>>,
}

impl RecordingKeypad {
    fn new() -> Self {
        RecordingKeypad { presses: Mutex::new(Vec::new()) }
    }
}

impl Keyboard for RecordingKeypad {
    fn press(&self, key: char) {
        self.presses.lock().unwrap().push(key);
    }
}

/// Runs one listener tick against a keyboard, as the service loop does:
/// only a `Forward` action reaches `press`.
fn tick(keyboard: &dyn Keyboard, outcome: PollOutcome) -> ListenerAction {
    let action = listener_step(outcome);
    if let ListenerAction::Forward(c) = action {
        keyboard.press(c);
    }
    action
}

#[test]
fn character_key_forwards_exactly_one_press() {
    let keypad = RecordingKeypad::new();
    let action = tick(&keypad, PollOutcome::Key(KeyEvent::Character('a')));
    assert_eq!(action, ListenerAction::Forward('a'));
    assert_eq!(*keypad.presses.lock().unwrap(), vec!['a']);
}

#[test]
fn unmapped_key_forwards_nothing() {
    let keypad = RecordingKeypad::new();
    let action = tick(&keypad, PollOutcome::Key(KeyEvent::Other));
    assert_eq!(action, ListenerAction::Ignore);
    assert!(keypad.presses.lock().unwrap().is_empty());
}

#[test]
fn escape_requests_shutdown_and_forwards_nothing() {
    let keypad = RecordingKeypad::new();
    let action = tick(&keypad, PollOutcome::Key(KeyEvent::Escape));
    assert_eq!(action, ListenerAction::RequestShutdown);
    assert!(keypad.presses.lock().unwrap().is_empty());
}

#[test]
fn non_key_event_is_ignored() {
    assert_eq!(listener_step(PollOutcome::NoKey), ListenerAction::Ignore);
}

#[test]
fn failed_poll_is_fatal() {
    assert_eq!(listener_step(PollOutcome::Failed), ListenerAction::Fatal);
}

#[test]
fn key_events_forwarded_in_arrival_order() {
    let keypad = RecordingKeypad::new();
    tick(&keypad, PollOutcome::Key(KeyEvent::Character('1')));
    tick(&keypad, PollOutcome::Key(KeyEvent::Other));
    tick(&keypad, PollOutcome::Key(KeyEvent::Character('2')));
    tick(&keypad, PollOutcome::NoKey);
    tick(&keypad, PollOutcome::Key(KeyEvent::Character('3')));
    assert_eq!(*keypad.presses.lock().unwrap(), vec!['1', '2', '3']);
}
