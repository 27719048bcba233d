use vstd::prelude::*;

use crate::node::command::CommandView;
use crate::node::message::MessageView;
use crate::node::node_state::{
    node_discovered_effects, node_event_step, node_expired_effects, NodeEffectView, NodeEventView,
};
use crate::p2p::core_laws::{discovered_peers, MembershipView};
use crate::p2p::file_exchange::FileResponseView;
use crate::p2p::pending::PendingView;

verus! {

/// A file received for a name is delivered at most once: a second response for the same
/// name has no effect and changes nothing.
pub proof fn law_node_file_delivered_once<A, P, S, C>(
    state: PendingView<S>,
    first_id: u64,
    first: FileResponseView,
    second_id: u64,
    second: FileResponseView,
)
    requires
        first.file_name == second.file_name,
    ensures
        ({
            let after = node_event_step::<A, P, S, C>(
                state,
                NodeEventView::FileReceived { request_id: first_id, response: first },
            ).state;
            let again = node_event_step::<A, P, S, C>(
                after,
                NodeEventView::FileReceived { request_id: second_id, response: second },
            );
            again.effects.len() == 0 && again.error is None && again.state == after
        }),
{
}

/// After a file request for a name is recorded, a response for that name is delivered.
pub proof fn law_node_recorded_request_is_delivered<A, P, S, C>(
    state: PendingView<S>,
    file_name: Seq<char>,
    request_id: u64,
    response_id: u64,
    file: Seq<u8>,
)
    ensures
        ({
            let event = NodeEventView::FileReceived {
                request_id: response_id,
                response: FileResponseView { file_name, file },
            };
            node_event_step::<A, P, S, C>(state.record_file_request(file_name, request_id), event).effects
                == seq![NodeEffectView::<A, P, S, C>::Deliver(MessageView::File { file_name, file })]
        }),
{
}

/// The first answer to a provider lookup is acted on, any later one is skipped.
pub proof fn law_node_providers_handled_once<A, P, S, C>(
    state: PendingView<S>,
    query: u64,
    key: Seq<u8>,
    providers: Seq<P>,
    key2: Seq<u8>,
    providers2: Seq<P>,
)
    ensures
        ({
            let after = node_event_step::<A, P, S, C>(
                state,
                NodeEventView::ProvidersFound { query, key, providers },
            ).state;
            let again = node_event_step::<A, P, S, C>(
                after,
                NodeEventView::ProvidersFound { query, key: key2, providers: providers2 },
            );
            again.effects.len() == 0 && again.error is None && again.state == after
        }),
{
}

/// The handle of a provider announcement is signalled at most once.
pub proof fn law_node_providing_signalled_once<A, P, S, C>(state: PendingView<S>, query: u64)
    ensures
        ({
            let event = NodeEventView::StartProvidingProgressed { query };
            let first = node_event_step::<A, P, S, C>(state, event);
            let again = node_event_step::<A, P, S, C>(first.state, event);
            again.effects.len() == 0 && again.state == first.state
        }),
{
}

/// The handle recorded with a provider announcement is the one signalled when that
/// announcement progresses, and it is signalled alone.
pub proof fn law_node_recorded_announcement_signalled<A, P, S, C>(
    state: PendingView<S>,
    query: u64,
    sender: S,
)
    ensures
        ({
            let event = NodeEventView::StartProvidingProgressed { query };
            node_event_step::<A, P, S, C>(state.record_start_providing(query, sender), event).effects
                == seq![NodeEffectView::<A, P, S, C>::SignalProvided(sender)]
        }),
{
}

/// A request for a file is answered by serving the stored file of that name on the
/// request's channel, and by nothing else.
pub proof fn law_node_request_served<A, P, S, C>(state: PendingView<S>, file_name: Seq<char>, channel: C)
    ensures
        ({
            let step = node_event_step::<A, P, S, C>(
                state,
                NodeEventView::FileRequested { request: file_name, channel },
            );
            &&& step.effects == seq![NodeEffectView::<A, P, S, C>::ServeStoredFile { file_name, channel }]
            &&& step.error is None
            &&& step.state == state
        }),
{
}

/// An advertised file is looked up under its name; a chat text is delivered as it is.
pub proof fn law_node_messages_routed<A, P, S, C>(
    state: PendingView<S>,
    source: P,
    file_name: Seq<char>,
    text: Seq<char>,
)
    ensures
        ({
            let ad = NodeEventView::Message { source, message: Some(MessageView::FileAd(file_name)) };
            node_event_step::<A, P, S, C>(state, ad).effects == seq![
                NodeEffectView::<A, P, S, C>::Enqueue(CommandView::GetFileProviders { file_name }),
            ]
        }),
        ({
            let chat = NodeEventView::Message { source, message: Some(MessageView::Text(text)) };
            node_event_step::<A, P, S, C>(state, chat).effects == seq![
                NodeEffectView::<A, P, S, C>::Deliver(MessageView::Text(text)),
            ]
        }),
{
}

/// The membership after one effect of the chat node: additions and removals of a peer, as
/// the effect names them; every other effect leaves it as it is.
pub open spec fn node_apply_effect<A, P, S, C>(m: MembershipView<P>, e: NodeEffectView<A, P, S, C>) -> MembershipView<P> {
    match e {
        NodeEffectView::AddExplicitPeer(p) => MembershipView { explicit: m.explicit.insert(p), ..m },
        NodeEffectView::RemoveExplicitPeer(p) => MembershipView { explicit: m.explicit.remove(p), ..m },
        NodeEffectView::AddAddress { peer, .. } => MembershipView { routed: m.routed.insert(peer), ..m },
        NodeEffectView::RemovePeer(p) => MembershipView { routed: m.routed.remove(p), ..m },
        _ => m,
    }
}

/// The membership after a sequence of effects of the chat node, carried out in order.
pub open spec fn node_apply_effects<A, P, S, C>(m: MembershipView<P>, es: Seq<NodeEffectView<A, P, S, C>>) -> MembershipView<P>
    decreases es.len(),
{
    if es.len() == 0 {
        m
    } else {
        node_apply_effect(node_apply_effects(m, es.drop_last()), es.last())
    }
}

proof fn lemma_node_apply_concat<A, P, S, C>(
    m: MembershipView<P>,
    s1: Seq<NodeEffectView<A, P, S, C>>,
    s2: Seq<NodeEffectView<A, P, S, C>>,
)
    ensures
        node_apply_effects(m, s1 + s2) == node_apply_effects(node_apply_effects(m, s1), s2),
    decreases s2.len(),
{
    if s2.len() > 0 {
        assert((s1 + s2).drop_last() =~= s1 + s2.drop_last());
        lemma_node_apply_concat(m, s1, s2.drop_last());
    } else {
        assert(s1 + s2 =~= s1);
    }
}

proof fn lemma_node_apply_discovered<A, P, S, C>(m: MembershipView<P>, peers: Seq<(P, A)>)
    ensures
        ({
            let ids = discovered_peers(peers).to_set();
            node_apply_effects(m, node_discovered_effects::<A, P, S, C>(peers)) == MembershipView {
                explicit: m.explicit + ids,
                routed: m.routed + ids,
                partial: m.partial,
            }
        }),
    decreases peers.len(),
{
    let ids = discovered_peers(peers).to_set();
    if peers.len() == 0 {
        assert(ids =~= Set::<P>::empty());
        assert(m.explicit + ids =~= m.explicit);
        assert(m.routed + ids =~= m.routed);
    } else {
        let (p, a) = peers.last();
        let rest = peers.drop_last();
        lemma_node_apply_discovered::<A, P, S, C>(m, rest);
        let tail = seq![
            NodeEffectView::<A, P, S, C>::AddExplicitPeer(p),
            NodeEffectView::AddAddress { peer: p, address: a },
        ];
        lemma_node_apply_concat(m, node_discovered_effects::<A, P, S, C>(rest), tail);
        let rest_ids = discovered_peers(rest).to_set();
        assert(discovered_peers(rest) =~= discovered_peers(peers).drop_last());
        assert forall|q: P| #[trigger] ids.contains(q) == rest_ids.insert(p).contains(q) by {
            if ids.contains(q) {
                let i = choose|i: int|
                    0 <= i < discovered_peers(peers).len() && discovered_peers(peers)[i] == q;
                if i < rest.len() {
                    assert(discovered_peers(rest)[i] == q);
                }
            }
            if rest_ids.contains(q) {
                let i = choose|i: int|
                    0 <= i < discovered_peers(rest).len() && discovered_peers(rest)[i] == q;
                assert(discovered_peers(peers)[i] == q);
            }
            if q == p {
                assert(discovered_peers(peers)[peers.len() - 1] == p);
            }
        }
        assert(ids =~= rest_ids.insert(p));
        let x0 = node_apply_effects(m, node_discovered_effects::<A, P, S, C>(rest));
        assert(node_discovered_effects::<A, P, S, C>(peers) == node_discovered_effects::<A, P, S, C>(rest)
            + tail);
        let t1 = tail.drop_last();
        assert(t1 =~= seq![NodeEffectView::<A, P, S, C>::AddExplicitPeer(p)]);
        assert(t1.drop_last() =~= Seq::<NodeEffectView<A, P, S, C>>::empty());
        assert(node_apply_effects(x0, t1.drop_last()) == x0);
        let x1 = node_apply_effects(x0, t1);
        assert(x1 == node_apply_effect(x0, NodeEffectView::<A, P, S, C>::AddExplicitPeer(p)));
        assert(node_apply_effects(x0, tail) == node_apply_effect(
            x1,
            NodeEffectView::<A, P, S, C>::AddAddress { peer: p, address: a },
        ));
        assert((m.explicit + rest_ids).insert(p) =~= m.explicit + ids);
        assert((m.routed + rest_ids).insert(p) =~= m.routed + ids);
    }
}

proof fn lemma_node_apply_expired<A, P, S, C>(m: MembershipView<P>, peers: Seq<P>)
    ensures
        ({
            let ids = peers.to_set();
            node_apply_effects(m, node_expired_effects::<A, P, S, C>(peers)) == MembershipView {
                explicit: m.explicit - ids,
                routed: m.routed - ids,
                partial: m.partial,
            }
        }),
    decreases peers.len(),
{
    let ids = peers.to_set();
    if peers.len() == 0 {
        assert(ids =~= Set::<P>::empty());
        assert(m.explicit - ids =~= m.explicit);
        assert(m.routed - ids =~= m.routed);
    } else {
        let p = peers.last();
        let rest = peers.drop_last();
        lemma_node_apply_expired::<A, P, S, C>(m, rest);
        let tail = seq![
            NodeEffectView::<A, P, S, C>::RemoveExplicitPeer(p),
            NodeEffectView::RemovePeer(p),
        ];
        lemma_node_apply_concat(m, node_expired_effects::<A, P, S, C>(rest), tail);
        let rest_ids = rest.to_set();
        assert forall|q: P| #[trigger] ids.contains(q) == rest_ids.insert(p).contains(q) by {
            if ids.contains(q) {
                let i = choose|i: int| 0 <= i < peers.len() && peers[i] == q;
                if i < rest.len() {
                    assert(rest[i] == q);
                }
            }
            if rest_ids.contains(q) {
                let i = choose|i: int| 0 <= i < rest.len() && rest[i] == q;
                assert(peers[i] == q);
            }
            if q == p {
                assert(peers[peers.len() - 1] == p);
            }
        }
        assert(ids =~= rest_ids.insert(p));
        let x0 = node_apply_effects(m, node_expired_effects::<A, P, S, C>(rest));
        assert(node_expired_effects::<A, P, S, C>(peers) == node_expired_effects::<A, P, S, C>(rest) + tail);
        let t1 = tail.drop_last();
        assert(t1 =~= seq![NodeEffectView::<A, P, S, C>::RemoveExplicitPeer(p)]);
        assert(t1.drop_last() =~= Seq::<NodeEffectView<A, P, S, C>>::empty());
        assert(node_apply_effects(x0, t1.drop_last()) == x0);
        let x1 = node_apply_effects(x0, t1);
        assert(x1 == node_apply_effect(x0, NodeEffectView::<A, P, S, C>::RemoveExplicitPeer(p)));
        assert(node_apply_effects(x0, tail) == node_apply_effect(
            x1,
            NodeEffectView::<A, P, S, C>::RemovePeer(p),
        ));
        assert((m.explicit - rest_ids).remove(p) =~= m.explicit - ids);
        assert((m.routed - rest_ids).remove(p) =~= m.routed - ids);
    }
}

/// Peers found on the local network join the explicit gossip peers and the routing table;
/// when the same peers expire they leave both, and every other peer stays where it was.
/// So a peer that was in neither before its discovery is in neither after its expiry.
pub proof fn law_node_expiry_undoes_discovery<A, P, S, C>(
    state: PendingView<S>,
    m: MembershipView<P>,
    peers: Seq<(P, A)>,
)
    ensures
        ({
            let ids = discovered_peers(peers).to_set();
            let found = node_event_step::<A, P, S, C>(state, NodeEventView::PeersDiscovered(peers));
            let gone = node_event_step::<A, P, S, C>(
                found.state,
                NodeEventView::PeersExpired(discovered_peers(peers)),
            );
            let during = node_apply_effects(m, found.effects);
            let after = node_apply_effects(during, gone.effects);
            &&& forall|p: P| #[trigger] ids.contains(p) ==> during.explicit.contains(p)
                && during.routed.contains(p)
            &&& after == MembershipView {
                explicit: m.explicit - ids,
                routed: m.routed - ids,
                partial: m.partial,
            }
            &&& (forall|p: P| #[trigger] ids.contains(p) ==> !m.explicit.contains(p)
                && !m.routed.contains(p)) ==> after == m
        }),
{
    let ids = discovered_peers(peers).to_set();
    lemma_node_apply_discovered::<A, P, S, C>(m, peers);
    let during = node_apply_effects(m, node_discovered_effects::<A, P, S, C>(peers));
    lemma_node_apply_expired::<A, P, S, C>(during, discovered_peers(peers));
    let after = node_apply_effects(during, node_expired_effects::<A, P, S, C>(discovered_peers(peers)));
    assert(after =~= (MembershipView {
        explicit: m.explicit - ids,
        routed: m.routed - ids,
        partial: m.partial,
    }));
    if forall|p: P| #[trigger] ids.contains(p) ==> !m.explicit.contains(p) && !m.routed.contains(p) {
        assert(after =~= m);
    }
}

} // verus!
