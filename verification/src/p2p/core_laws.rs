use vstd::prelude::*;
use vstd::utf8::*;

use crate::p2p::command::CommandView;
use crate::p2p::core_state::{
    command_action, command_state, discovered_effects, event_step, expired_effects, file_key,
    CoreErrorView, CoreView, EffectView, NetworkActionView, NetworkEventView,
};
use crate::p2p::event::EventView;
use crate::p2p::file_exchange::FileResponseView;
use crate::p2p::message::MessageView;

verus! {

broadcast use encode_utf8_valid_utf8, encode_utf8_decode_utf8;

/// A file received for a name is reported at most once: once a response for the name has
/// been handled, a second response for the same name has no effect and changes nothing.
pub proof fn law_file_response_reported_once<A, P, S, C>(
    state: CoreView<S>,
    first_id: u64,
    first: FileResponseView,
    second_id: u64,
    second: FileResponseView,
)
    requires
        first.file_name == second.file_name,
    ensures
        ({
            let after = event_step::<A, P, S, C>(
                state,
                NetworkEventView::FileReceived { request_id: first_id, response: first },
            ).state;
            let again = event_step::<A, P, S, C>(
                after,
                NetworkEventView::FileReceived { request_id: second_id, response: second },
            );
            again.effects.len() == 0 && again.error is None && again.state == after
        }),
{
}

/// A response is reported exactly when a request for its file name is pending, and then
/// as the file it carries.
pub proof fn law_file_response_reported_iff_requested<A, P, S, C>(
    state: CoreView<S>,
    request_id: u64,
    response: FileResponseView,
)
    ensures
        ({
            let step = event_step::<A, P, S, C>(
                state,
                NetworkEventView::FileReceived { request_id, response },
            );
            &&& step.error is None
            &&& state.pending.request_file.contains_key(response.file_name) ==> step.effects
                == seq![
                EffectView::<A, P, S, C>::Emit(
                    EventView::Msg(
                        MessageView::File { file_name: response.file_name, file: response.file },
                    ),
                ),
            ]
            &&& !state.pending.request_file.contains_key(response.file_name) ==> step.effects.len()
                == 0
        }),
{
}

/// After a file request for a name is recorded, a response for that name is reported.
pub proof fn law_recorded_request_is_answered<A, P, S, C>(
    state: CoreView<S>,
    file_name: Seq<char>,
    request_id: u64,
    response_id: u64,
    file: Seq<u8>,
)
    ensures
        ({
            let recorded = CoreView {
                pending: state.pending.record_file_request(file_name, request_id),
                ..state
            };
            let step = event_step::<A, P, S, C>(
                recorded,
                NetworkEventView::FileReceived {
                    request_id: response_id,
                    response: FileResponseView { file_name, file },
                },
            );
            step.effects == seq![
                EffectView::<A, P, S, C>::Emit(
                    EventView::Msg(MessageView::File { file_name, file }),
                ),
            ]
        }),
{
}

/// The first answer to a provider lookup is acted on, any later one is skipped: a second
/// answer to the same lookup has no effect, no error, and changes nothing.
pub proof fn law_providers_handled_once<A, P, S, C>(
    state: CoreView<S>,
    query: u64,
    key: Seq<u8>,
    providers: Seq<P>,
    key2: Seq<u8>,
    providers2: Seq<P>,
)
    ensures
        ({
            let after = event_step::<A, P, S, C>(
                state,
                NetworkEventView::ProvidersFound { query, key, providers },
            ).state;
            let again = event_step::<A, P, S, C>(
                after,
                NetworkEventView::ProvidersFound { query, key: key2, providers: providers2 },
            );
            again.effects.len() == 0 && again.error is None && again.state == after
        }),
{
}

/// The handle of a provider announcement is signalled at most once.
pub proof fn law_providing_signalled_once<A, P, S, C>(state: CoreView<S>, query: u64)
    ensures
        ({
            let first = event_step::<A, P, S, C>(
                state,
                NetworkEventView::StartProvidingProgressed { query },
            );
            let again = event_step::<A, P, S, C>(
                first.state,
                NetworkEventView::StartProvidingProgressed { query },
            );
            &&& state.pending.start_providing.contains_key(query) ==> first.effects == seq![
                EffectView::<A, P, S, C>::SignalProvided(state.pending.start_providing[query]),
            ]
            &&& again.effects.len() == 0
            &&& again.state == first.state
        }),
{
}

/// The handle recorded with a provider announcement is the one signalled when the
/// announcement starts.
pub proof fn law_recorded_announcement_signalled<A, P, S, C>(state: CoreView<S>, query: u64, sender: S)
    ensures
        ({
            let recorded = CoreView {
                pending: state.pending.record_start_providing(query, sender),
                ..state
            };
            let event = NetworkEventView::StartProvidingProgressed { query };
            event_step::<A, P, S, C>(recorded, event).effects == seq![
                EffectView::<A, P, S, C>::SignalProvided(sender),
            ]
        }),
{
}

/// A file stored by providing it is what a later request for its name is answered with.
pub proof fn law_provided_file_is_served<A, P, S, C>(
    state: CoreView<S>,
    file_name: Seq<char>,
    file: Seq<u8>,
    sender: S,
    channel: C,
)
    ensures
        ({
            let stored = command_state::<A, P, S, C>(
                state,
                CommandView::StartFileProviding { file_name, file, sender },
            );
            let step = event_step::<A, P, S, C>(
                stored,
                NetworkEventView::FileRequested { request: file_name, channel },
            );
            &&& step.error is None
            &&& step.effects == seq![
                EffectView::<A, P, S, C>::Enqueue(
                    CommandView::ResponseFile { file_name, file, channel },
                ),
            ]
        }),
{
}

/// A failed outgoing connection is reported to the user interface once, with its text,
/// and changes nothing else: no other effect, no error, the same state.
pub proof fn law_connection_error_reported<A, P, S, C>(state: CoreView<S>, error: Seq<char>)
    ensures
        ({
            let step = event_step::<A, P, S, C>(
                state,
                NetworkEventView::OutgoingConnectionError { error },
            );
            &&& step.effects == seq![EffectView::<A, P, S, C>::Emit(EventView::Error(error))]
            &&& step.error is None
            &&& step.state == state
        }),
{
}

/// Answering a file request sends the very file given, under its name, on the request's
/// channel; end to end, a requester of a provided file is sent the bytes that were provided.
pub proof fn law_requester_gets_provided_file<A, P, S, C>(
    state: CoreView<S>,
    file_name: Seq<char>,
    file: Seq<u8>,
    sender: S,
    channel: C,
)
    ensures
        command_action::<A, P, S, C>(CommandView::ResponseFile { file_name, file, channel })
            == (NetworkActionView::<A, P, S, C>::SendResponse {
            channel,
            response: FileResponseView { file_name, file },
        }),
        ({
            let stored = command_state::<A, P, S, C>(
                state,
                CommandView::StartFileProviding { file_name, file, sender },
            );
            let step = event_step::<A, P, S, C>(
                stored,
                NetworkEventView::FileRequested { request: file_name, channel },
            );
            &&& step.effects.len() == 1
            &&& step.effects[0] is Enqueue
            &&& command_action::<A, P, S, C>(step.effects[0]->Enqueue_0) == (NetworkActionView::<
                A,
                P,
                S,
                C,
            >::SendResponse { channel, response: FileResponseView { file_name, file } })
        }),
{
    law_provided_file_is_served::<A, P, S, C>(state, file_name, file, sender, channel);
}

/// A request for a file the node does not store is refused, naming the file.
pub proof fn law_unknown_file_refused<A, P, S, C>(
    state: CoreView<S>,
    file_name: Seq<char>,
    channel: C,
)
    requires
        !state.file_store.contains_key(file_name),
    ensures
        ({
            let event = NetworkEventView::FileRequested { request: file_name, channel };
            event_step::<A, P, S, C>(state, event).error == Some(CoreErrorView::FileNotFound(file_name))
        }),
{
}

/// A file announced under a name is looked up, and then requested, under that same name:
/// the key of the lookup that an advertisement triggers is the key the file is provided
/// under, and once providers are found for that key exactly one of them, the first, is
/// asked for the file by its name.
pub proof fn law_advertised_file_requested_by_name<A, P, S, C>(
    state: CoreView<S>,
    source: P,
    file_name: Seq<char>,
    file: Seq<u8>,
    sender: S,
    query: u64,
    providers: Seq<P>,
)
    requires
        state.pending.get_providers.contains(query),
        providers.len() > 0,
    ensures
        ({
            let ad = NetworkEventView::Message { source, message: Some(MessageView::FileAd(file_name)) };
            event_step::<A, P, S, C>(state, ad).effects == seq![
                EffectView::<A, P, S, C>::Enqueue(CommandView::GetFileProviders { file_name }),
            ]
        }),
        ({
            let provide = CommandView::StartFileProviding { file_name, file, sender };
            let lookup = CommandView::GetFileProviders { file_name };
            command_action::<A, P, S, C>(lookup) == (NetworkActionView::<A, P, S, C>::GetProviders {
                key: command_action::<A, P, S, C>(provide)->StartProviding_key,
            })
        }),
        ({
            let step = event_step::<A, P, S, C>(
                state,
                NetworkEventView::ProvidersFound { query, key: file_key(file_name), providers },
            );
            &&& step.error is None
            &&& step.effects == seq![
                EffectView::<A, P, S, C>::FinishQuery(query),
                EffectView::<A, P, S, C>::Enqueue(
                    CommandView::RequestFile { file_name, peer: providers[0] },
                ),
            ]
        }),
{
}

/// Handling network events never changes the stored files.
pub proof fn law_events_keep_file_store<A, P, S, C>(
    state: CoreView<S>,
    event: NetworkEventView<A, P, C>,
)
    ensures
        event_step::<A, P, S, C>(state, event).state.file_store == state.file_store,
{
}

/// Every file name with pending requests has at least one: recording and handling
/// keep this true.
pub proof fn law_pending_requests_nonempty<A, P, S, C>(
    state: CoreView<S>,
    event: NetworkEventView<A, P, C>,
    file_name: Seq<char>,
    request_id: u64,
)
    requires
        state.pending.requests_nonempty(),
    ensures
        event_step::<A, P, S, C>(state, event).state.pending.requests_nonempty(),
        state.pending.record_file_request(file_name, request_id).requests_nonempty(),
{
    let r = state.pending.record_file_request(file_name, request_id);
    assert forall|n: Seq<char>| #[trigger] r.request_file.contains_key(n) implies !r.request_file[
        n
    ].is_empty() by {
        if n == file_name {
            assert(r.request_file[n].contains(request_id));
        }
    }
}

/// Which peers the network layer counts where the node's effects place them: the explicit
/// gossip peers, the peers with an entry in the routing table, and the flooding partial
/// view.
#[verifier::ext_equal]
#[verifier::reject_recursive_types(P)]
pub struct MembershipView<P> {
    pub explicit: Set<P>,
    pub routed: Set<P>,
    pub partial: Set<P>,
}

/// The membership after one effect: additions and removals of a peer, as the effect names
/// them; every other effect leaves it as it is.
pub open spec fn apply_effect<A, P, S, C>(m: MembershipView<P>, e: EffectView<A, P, S, C>) -> MembershipView<P> {
    match e {
        EffectView::AddExplicitPeer(p) => MembershipView { explicit: m.explicit.insert(p), ..m },
        EffectView::RemoveExplicitPeer(p) => MembershipView { explicit: m.explicit.remove(p), ..m },
        EffectView::AddAddress { peer, .. } => MembershipView { routed: m.routed.insert(peer), ..m },
        EffectView::RemovePeer(p) => MembershipView { routed: m.routed.remove(p), ..m },
        EffectView::AddToPartialView(p) => MembershipView { partial: m.partial.insert(p), ..m },
        EffectView::RemoveFromPartialView(p) => MembershipView { partial: m.partial.remove(p), ..m },
        _ => m,
    }
}

/// The membership after a sequence of effects, carried out in order.
pub open spec fn apply_effects<A, P, S, C>(m: MembershipView<P>, es: Seq<EffectView<A, P, S, C>>) -> MembershipView<P>
    decreases es.len(),
{
    if es.len() == 0 {
        m
    } else {
        apply_effect(apply_effects(m, es.drop_last()), es.last())
    }
}

/// The peers of a list of discovered peers and their addresses.
pub open spec fn discovered_peers<P, A>(peers: Seq<(P, A)>) -> Seq<P> {
    peers.map_values(|x: (P, A)| x.0)
}

proof fn lemma_apply_concat<A, P, S, C>(
    m: MembershipView<P>,
    s1: Seq<EffectView<A, P, S, C>>,
    s2: Seq<EffectView<A, P, S, C>>,
)
    ensures
        apply_effects(m, s1 + s2) == apply_effects(apply_effects(m, s1), s2),
    decreases s2.len(),
{
    if s2.len() > 0 {
        assert((s1 + s2).drop_last() =~= s1 + s2.drop_last());
        lemma_apply_concat(m, s1, s2.drop_last());
    } else {
        assert(s1 + s2 =~= s1);
    }
}

proof fn lemma_apply_discovered<A, P, S, C>(m: MembershipView<P>, peers: Seq<(P, A)>)
    ensures
        ({
            let ids = discovered_peers(peers).to_set();
            apply_effects(m, discovered_effects::<A, P, S, C>(peers)) == MembershipView {
                explicit: m.explicit + ids,
                routed: m.routed + ids,
                partial: m.partial + ids,
            }
        }),
    decreases peers.len(),
{
    let ids = discovered_peers(peers).to_set();
    if peers.len() == 0 {
        assert(ids =~= Set::<P>::empty());
        assert(m.explicit + ids =~= m.explicit);
        assert(m.routed + ids =~= m.routed);
        assert(m.partial + ids =~= m.partial);
    } else {
        let (p, a) = peers.last();
        let rest = peers.drop_last();
        lemma_apply_discovered::<A, P, S, C>(m, rest);
        let tail = seq![
            EffectView::<A, P, S, C>::AddExplicitPeer(p),
            EffectView::AddAddress { peer: p, address: a },
            EffectView::AddToPartialView(p),
        ];
        lemma_apply_concat(m, discovered_effects::<A, P, S, C>(rest), tail);
        let rest_ids = discovered_peers(rest).to_set();
        assert(discovered_peers(rest) =~= discovered_peers(peers).drop_last());
        assert forall|q: P| #[trigger] ids.contains(q) == rest_ids.insert(p).contains(q) by {
            if ids.contains(q) {
                let i = choose|i: int|
                    0 <= i < discovered_peers(peers).len() && discovered_peers(peers)[i] == q;
                if i < rest.len() {
                    assert(discovered_peers(rest)[i] == q);
                }
            }
            if rest_ids.contains(q) {
                let i = choose|i: int|
                    0 <= i < discovered_peers(rest).len() && discovered_peers(rest)[i] == q;
                assert(discovered_peers(peers)[i] == q);
            }
            if q == p {
                assert(discovered_peers(peers)[peers.len() - 1] == p);
            }
        }
        assert(ids =~= rest_ids.insert(p));
        let x0 = apply_effects(m, discovered_effects::<A, P, S, C>(rest));
        assert(discovered_effects::<A, P, S, C>(peers) == discovered_effects::<A, P, S, C>(rest)
            + tail);
        assert(tail.drop_last().drop_last().drop_last() =~= Seq::<EffectView<A, P, S, C>>::empty());
        assert(tail.drop_last().drop_last() =~= seq![EffectView::<A, P, S, C>::AddExplicitPeer(p)]);
        assert(tail.drop_last() =~= seq![
            EffectView::<A, P, S, C>::AddExplicitPeer(p),
            EffectView::AddAddress { peer: p, address: a },
        ]);
        let t1 = tail.drop_last().drop_last();
        assert(apply_effects(x0, t1.drop_last()) == x0);
        assert(t1.last() == EffectView::<A, P, S, C>::AddExplicitPeer(p));
        let x1 = apply_effects(x0, t1);
        assert(x1 == apply_effect(x0, EffectView::<A, P, S, C>::AddExplicitPeer(p)));
        let x2 = apply_effects(x0, tail.drop_last());
        assert(x2 == apply_effect(x1, EffectView::<A, P, S, C>::AddAddress { peer: p, address: a }));
        assert(apply_effects(x0, tail) == apply_effect(x2, EffectView::<A, P, S, C>::AddToPartialView(p)));
        assert((m.explicit + rest_ids).insert(p) =~= m.explicit + ids);
        assert((m.routed + rest_ids).insert(p) =~= m.routed + ids);
        assert((m.partial + rest_ids).insert(p) =~= m.partial + ids);
    }
}

proof fn lemma_apply_expired<A, P, S, C>(m: MembershipView<P>, peers: Seq<P>)
    ensures
        ({
            let ids = peers.to_set();
            apply_effects(m, expired_effects::<A, P, S, C>(peers)) == MembershipView {
                explicit: m.explicit - ids,
                routed: m.routed - ids,
                partial: m.partial - ids,
            }
        }),
    decreases peers.len(),
{
    let ids = peers.to_set();
    if peers.len() == 0 {
        assert(ids =~= Set::<P>::empty());
        assert(m.explicit - ids =~= m.explicit);
        assert(m.routed - ids =~= m.routed);
        assert(m.partial - ids =~= m.partial);
    } else {
        let p = peers.last();
        let rest = peers.drop_last();
        lemma_apply_expired::<A, P, S, C>(m, rest);
        let tail = seq![
            EffectView::<A, P, S, C>::RemoveExplicitPeer(p),
            EffectView::RemovePeer(p),
            EffectView::RemoveFromPartialView(p),
        ];
        lemma_apply_concat(m, expired_effects::<A, P, S, C>(rest), tail);
        let rest_ids = rest.to_set();
        assert forall|q: P| #[trigger] ids.contains(q) == rest_ids.insert(p).contains(q) by {
            if ids.contains(q) {
                let i = choose|i: int| 0 <= i < peers.len() && peers[i] == q;
                if i < rest.len() {
                    assert(rest[i] == q);
                }
            }
            if rest_ids.contains(q) {
                let i = choose|i: int| 0 <= i < rest.len() && rest[i] == q;
                assert(peers[i] == q);
            }
            if q == p {
                assert(peers[peers.len() - 1] == p);
            }
        }
        assert(ids =~= rest_ids.insert(p));
        let x0 = apply_effects(m, expired_effects::<A, P, S, C>(rest));
        assert(expired_effects::<A, P, S, C>(peers) == expired_effects::<A, P, S, C>(rest) + tail);
        assert(tail.drop_last().drop_last().drop_last() =~= Seq::<EffectView<A, P, S, C>>::empty());
        assert(tail.drop_last().drop_last() =~= seq![EffectView::<A, P, S, C>::RemoveExplicitPeer(p)]);
        assert(tail.drop_last() =~= seq![
            EffectView::<A, P, S, C>::RemoveExplicitPeer(p),
            EffectView::RemovePeer(p),
        ]);
        let t1 = tail.drop_last().drop_last();
        assert(apply_effects(x0, t1.drop_last()) == x0);
        assert(t1.last() == EffectView::<A, P, S, C>::RemoveExplicitPeer(p));
        let x1 = apply_effects(x0, t1);
        assert(x1 == apply_effect(x0, EffectView::<A, P, S, C>::RemoveExplicitPeer(p)));
        let x2 = apply_effects(x0, tail.drop_last());
        assert(x2 == apply_effect(x1, EffectView::<A, P, S, C>::RemovePeer(p)));
        assert(apply_effects(x0, tail) == apply_effect(x2, EffectView::<A, P, S, C>::RemoveFromPartialView(p)));
        assert((m.explicit - rest_ids).remove(p) =~= m.explicit - ids);
        assert((m.routed - rest_ids).remove(p) =~= m.routed - ids);
        assert((m.partial - rest_ids).remove(p) =~= m.partial - ids);
    }
}

/// Peers found on the local network join the explicit gossip peers, the routing table and
/// the flooding partial view; when the same peers expire they leave all three, and every
/// other peer stays where it was. So a peer that was in none of them before its discovery
/// is in none of them after its expiry.
pub proof fn law_expiry_undoes_discovery<A, P, S, C>(
    state: CoreView<S>,
    m: MembershipView<P>,
    peers: Seq<(P, A)>,
)
    ensures
        ({
            let ids = discovered_peers(peers).to_set();
            let found = event_step::<A, P, S, C>(state, NetworkEventView::PeersDiscovered(peers));
            let gone = event_step::<A, P, S, C>(
                found.state,
                NetworkEventView::PeersExpired(discovered_peers(peers)),
            );
            let during = apply_effects(m, found.effects);
            let after = apply_effects(during, gone.effects);
            &&& forall|p: P| #[trigger] ids.contains(p) ==> during.explicit.contains(p)
                && during.routed.contains(p) && during.partial.contains(p)
            &&& after == MembershipView {
                explicit: m.explicit - ids,
                routed: m.routed - ids,
                partial: m.partial - ids,
            }
            &&& (forall|p: P| #[trigger] ids.contains(p) ==> !m.explicit.contains(p)
                && !m.routed.contains(p) && !m.partial.contains(p)) ==> after == m
        }),
{
    let ids = discovered_peers(peers).to_set();
    lemma_apply_discovered::<A, P, S, C>(m, peers);
    let during = apply_effects(m, discovered_effects::<A, P, S, C>(peers));
    lemma_apply_expired::<A, P, S, C>(during, discovered_peers(peers));
    let after = apply_effects(during, expired_effects::<A, P, S, C>(discovered_peers(peers)));
    assert(after =~= (MembershipView {
        explicit: m.explicit - ids,
        routed: m.routed - ids,
        partial: m.partial - ids,
    }));
    if forall|p: P| #[trigger] ids.contains(p) ==> !m.explicit.contains(p) && !m.routed.contains(p)
        && !m.partial.contains(p) {
        assert(after =~= m);
    }
}

/// A connection made is reported with its peer, whose address joins the routing table and
/// who joins the flooding partial view; a connection closed is reported with its peer, who
/// leaves both again. Neither changes the state or stops the node.
pub proof fn law_connections_reported<A, P, S, C>(
    state: CoreView<S>,
    m: MembershipView<P>,
    peer: P,
    address: A,
)
    ensures
        ({
            let opened = event_step::<A, P, S, C>(
                state,
                NetworkEventView::ConnectionEstablished { peer, address },
            );
            let closed = event_step::<A, P, S, C>(state, NetworkEventView::ConnectionClosed { peer });
            let during = apply_effects(m, opened.effects);
            let after = apply_effects(during, closed.effects);
            &&& opened.effects.last() == EffectView::<A, P, S, C>::Emit(EventView::Connected(peer))
            &&& closed.effects.last() == EffectView::<A, P, S, C>::Emit(EventView::Disconnected(peer))
            &&& opened.state == state && opened.error is None
            &&& closed.state == state && closed.error is None
            &&& during == MembershipView { routed: m.routed.insert(peer), partial: m.partial.insert(peer), ..m }
            &&& after == MembershipView { routed: m.routed.remove(peer), partial: m.partial.remove(peer), ..m }
        }),
{
    let opened = event_step::<A, P, S, C>(state, NetworkEventView::ConnectionEstablished { peer, address });
    let closed = event_step::<A, P, S, C>(state, NetworkEventView::ConnectionClosed { peer });
    reveal_with_fuel(apply_effects, 4);
    assert(opened.effects.drop_last().drop_last().drop_last() =~= Seq::<EffectView<A, P, S, C>>::empty());
    assert(opened.effects.drop_last().drop_last() =~= seq![EffectView::<A, P, S, C>::AddAddress { peer, address }]);
    assert(opened.effects.drop_last() =~= seq![
        EffectView::<A, P, S, C>::AddAddress { peer, address },
        EffectView::AddToPartialView(peer),
    ]);
    let during = apply_effects(m, opened.effects);
    assert(closed.effects.drop_last().drop_last().drop_last() =~= Seq::<EffectView<A, P, S, C>>::empty());
    assert(closed.effects.drop_last().drop_last() =~= seq![EffectView::<A, P, S, C>::RemovePeer(peer)]);
    assert(closed.effects.drop_last() =~= seq![
        EffectView::<A, P, S, C>::RemovePeer(peer),
        EffectView::RemoveFromPartialView(peer),
    ]);
    assert(during.routed.insert(peer).remove(peer) =~= m.routed.remove(peer));
    assert(during.partial.insert(peer).remove(peer) =~= m.partial.remove(peer));
    assert(m.routed.insert(peer).remove(peer) =~= m.routed.remove(peer));
    assert(m.partial.insert(peer).remove(peer) =~= m.partial.remove(peer));
}

} // verus!
