use vstd::prelude::*;

verus! {

/// What the in-browser node reports to its window.
#[derive(Debug)]
pub enum Event {
    /// A chat message.
    Message(String),
    /// Connected to the address given.
    Connected(String),
}

} // verus!
