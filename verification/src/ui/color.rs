use vstd::prelude::*;

verus! {

/// The colours in which the chat log shows its lines.
#[derive(Debug, Clone, Copy, PartialEq, Eq)]
pub enum Color {
    /// A message from a peer.
    Green,
    /// A connection coming or going.
    Yellow,
    /// An error.
    Red,
    /// A message sent from here.
    LightBlue,
}

} // verus!
