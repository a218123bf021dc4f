//! The input capability: a single-method interface the application
//! implements to receive the key presses the event listener forwards.

use vstd::prelude::*;

verus! {

/// Receives one forwarded key press per recognized character event. The
/// implementation decides the mapping and routing; it runs on the event
/// listener's thread and must not block indefinitely.
pub trait Keyboard: Send + Sync {
    fn press(&self, key: char);
}

} // verus!
