use vstd::prelude::*;

use crate::wasm::lan::{lan_effects, LanEffect, LanEvent};

verus! {

/// A peer whose identification timed out is taken out of the routing table, exactly as
/// one whose connection closed: either event gives the single removal of that peer.
pub proof fn law_vanished_peer_removed<A, P>(peer: P)
    ensures
        lan_effects::<A, P>(LanEvent::IdentifyTimeout(peer)) == seq![LanEffect::<A, P>::RemovePeer(peer)],
        lan_effects::<A, P>(LanEvent::ConnectionClosed(peer)) == seq![LanEffect::<A, P>::RemovePeer(peer)],
{
}

} // verus!
