use vstd::prelude::*;

verus! {

/// The protocol name under which in-browser nodes run their routing table.
pub const KADEMLIA_PROTOCOL_NAME: &'static str = "/jiri/lan/kad/1.0.0";

/// The gossip topic of in-browser nodes.
pub const GOSSIPSUB_TOPIC: &'static str = "jiri";

/// What the network reports to an in-browser node. `A` is an address, `P` identifies a peer.
pub enum LanEvent<A, P> {
    NewListenAddr(A),
    ConnectionEstablished(P),
    OutgoingConnectionError,
    ConnectionClosed(P),
    GossipMessage,
    GossipSubscribed,
    /// Identifying the peer timed out: a browser tab that went away gives no other sign.
    IdentifyTimeout(P),
    /// Identifying the peer failed otherwise.
    IdentifyFailed(P),
    /// The peer identified itself with its listen addresses, its protocols, and the
    /// address it sees this node at.
    IdentifyReceived { peer: P, listen_addrs: Vec<A>, protocols: Vec<String>, observed_addr: A },
    IdentifyOther,
    Kademlia,
    Other,
}

/// Something an in-browser node does in answer to a [`LanEvent`].
pub enum LanEffect<A, P> {
    /// Remove the peer from the routing table.
    RemovePeer(P),
    /// Record the address as one at which this node can be reached.
    AddExternalAddress(A),
    /// Add the listen address at `index` of the identified peer to the routing table.
    AddListenAddress { peer: P, index: usize },
}

/// Whether `protocols` holds `name`.
pub open spec fn holds_protocol(protocols: Seq<String>, name: Seq<char>) -> bool {
    exists|i: int| 0 <= i < protocols.len() && (#[trigger] protocols[i])@ == name
}

/// Each listen address of `peer`, from the first, added to the routing table twice over.
pub open spec fn listen_effects<A, P>(peer: P, count: nat) -> Seq<LanEffect<A, P>>
    decreases count,
{
    if count == 0 {
        seq![]
    } else {
        let i = (count - 1) as usize;
        listen_effects(peer, (count - 1) as nat) + seq![
            LanEffect::AddListenAddress { peer, index: i },
            LanEffect::AddListenAddress { peer, index: i },
        ]
    }
}

/// How an in-browser node answers one network event.
pub open spec fn lan_effects<A, P>(event: LanEvent<A, P>) -> Seq<LanEffect<A, P>> {
    match event {
        LanEvent::ConnectionClosed(p) => seq![LanEffect::RemovePeer(p)],
        LanEvent::IdentifyTimeout(p) => seq![LanEffect::RemovePeer(p)],
        LanEvent::IdentifyReceived { peer, listen_addrs, protocols, observed_addr } => seq![
            LanEffect::AddExternalAddress(observed_addr),
        ] + if holds_protocol(protocols@, KADEMLIA_PROTOCOL_NAME@) {
            listen_effects(peer, listen_addrs@.len())
        } else {
            seq![]
        },
        _ => seq![],
    }
}

/// Whether `protocols` holds the routing-table protocol of in-browser nodes.
pub fn speaks_kademlia(protocols: &Vec<String>) -> (b: bool)
    ensures
        b == holds_protocol(protocols@, KADEMLIA_PROTOCOL_NAME@),
{
    let name = String::from_str(KADEMLIA_PROTOCOL_NAME);
    let mut i: usize = 0;
    while i < protocols.len()
        invariant
            i <= protocols@.len(),
            name@ == KADEMLIA_PROTOCOL_NAME@,
            forall|j: int| 0 <= j < i ==> (#[trigger] protocols@[j])@ != KADEMLIA_PROTOCOL_NAME@,
        decreases protocols@.len() - i,
    {
        if protocols[i] == name {
            return true;
        }
        i = i + 1;
    }
    false
}

/// Answers one network event of an in-browser node with the effects to carry out, in order.
pub fn handle_lan_event<A, P: Copy>(event: LanEvent<A, P>) -> (effects: Vec<LanEffect<A, P>>)
    ensures
        effects@ == lan_effects(event),
{
    let ghost ev = event;
    let mut effects: Vec<LanEffect<A, P>> = Vec::new();
    match event {
        LanEvent::ConnectionClosed(p) => {
            effects.push(LanEffect::RemovePeer(p));
        },
        LanEvent::IdentifyTimeout(p) => {
            effects.push(LanEffect::RemovePeer(p));
        },
        LanEvent::IdentifyReceived { peer, listen_addrs, protocols, observed_addr } => {
            effects.push(LanEffect::AddExternalAddress(observed_addr));
            if speaks_kademlia(&protocols) {
                let n = listen_addrs.len();
                let mut i: usize = 0;
                while i < n
                    invariant
                        i <= n,
                        effects@ == seq![LanEffect::<A, P>::AddExternalAddress(observed_addr)]
                            + listen_effects::<A, P>(peer, i as nat),
                    decreases n - i,
                {
                    effects.push(LanEffect::AddListenAddress { peer, index: i });
                    effects.push(LanEffect::AddListenAddress { peer, index: i });
                    proof {
                        assert(listen_effects::<A, P>(peer, (i + 1) as nat) =~= listen_effects::<
                            A,
                            P,
                        >(peer, i as nat) + seq![
                            LanEffect::AddListenAddress { peer, index: i },
                            LanEffect::AddListenAddress { peer, index: i },
                        ]);
                    }
                    i = i + 1;
                }
            }
        },
        _ => {},
    }
    assert(effects@ =~= lan_effects(ev));
    effects
}

} // verus!
