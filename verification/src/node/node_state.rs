use vstd::prelude::*;
use vstd::utf8::*;

use crate::node::command::{Command, CommandView};
use crate::node::message::{Message, MessageView};
use crate::p2p::file_exchange::{FileRequest, FileResponse, FileResponseView};
use crate::p2p::pending::{PendingQueries, PendingView};
use crate::p2p::text::{bytes_to_string, string_bytes};

verus! {

/// What the network and the file system must do to carry out a chat node's [`Command`].
///
/// `StoreAndProvide` writes the file where the node keeps the files it provides, then
/// starts a provider announcement under `key`; its number is handed back with
/// [`Node::record_start_providing`]. `GetProviders` and `SendRequest` are handed back with
/// [`Node::record_get_providers`] and [`Node::record_file_request`].
pub enum NodeAction<P, S, C> {
    Publish(Message),
    StoreAndProvide { file_name: String, file: Vec<u8>, key: Vec<u8>, sender: S },
    GetProviders { key: Vec<u8> },
    SendRequest { peer: P, request: FileRequest },
    SendResponse { channel: C, response: FileResponse },
}

/// A [`NodeAction`] as mathematical values.
pub enum NodeActionView<P, S, C> {
    Publish(MessageView),
    StoreAndProvide { file_name: Seq<char>, file: Seq<u8>, key: Seq<u8>, sender: S },
    GetProviders { key: Seq<u8> },
    SendRequest { peer: P, request: Seq<char> },
    SendResponse { channel: C, response: FileResponseView },
}

impl<P, S, C> View for NodeAction<P, S, C> {
    type V = NodeActionView<P, S, C>;

    open spec fn view(&self) -> NodeActionView<P, S, C> {
        match self {
            NodeAction::Publish(m) => NodeActionView::Publish(m@),
            NodeAction::StoreAndProvide { file_name, file, key, sender } =>
                NodeActionView::StoreAndProvide {
                    file_name: file_name@,
                    file: file@,
                    key: key@,
                    sender: *sender,
                },
            NodeAction::GetProviders { key } => NodeActionView::GetProviders { key: key@ },
            NodeAction::SendRequest { peer, request } => NodeActionView::SendRequest {
                peer: *peer,
                request: request@,
            },
            NodeAction::SendResponse { channel, response } => NodeActionView::SendResponse {
                channel: *channel,
                response: response@,
            },
        }
    }
}

/// What the network reports to a chat node. A published message arrives already decoded:
/// `None` where its bytes were not a [`Message`].
pub enum NodeEvent<A, P, C> {
    NewListenAddr(A),
    PeersDiscovered(Vec<(P, A)>),
    PeersExpired(Vec<P>),
    Message { source: P, message: Option<Message> },
    StartProvidingProgressed { query: u64 },
    ProvidersFound { query: u64, key: Vec<u8>, providers: Vec<P> },
    FileRequested { request: FileRequest, channel: C },
    FileReceived { request_id: u64, response: FileResponse },
    Other,
}

/// A [`NodeEvent`] as mathematical values.
pub enum NodeEventView<A, P, C> {
    NewListenAddr(A),
    PeersDiscovered(Seq<(P, A)>),
    PeersExpired(Seq<P>),
    Message { source: P, message: Option<MessageView> },
    StartProvidingProgressed { query: u64 },
    ProvidersFound { query: u64, key: Seq<u8>, providers: Seq<P> },
    FileRequested { request: Seq<char>, channel: C },
    FileReceived { request_id: u64, response: FileResponseView },
    Other,
}

impl<A, P, C> View for NodeEvent<A, P, C> {
    type V = NodeEventView<A, P, C>;

    open spec fn view(&self) -> NodeEventView<A, P, C> {
        match self {
            NodeEvent::NewListenAddr(a) => NodeEventView::NewListenAddr(*a),
            NodeEvent::PeersDiscovered(list) => NodeEventView::PeersDiscovered(list@),
            NodeEvent::PeersExpired(list) => NodeEventView::PeersExpired(list@),
            NodeEvent::Message { source, message } => NodeEventView::Message {
                source: *source,
                message: match message {
                    Some(m) => Some(m@),
                    None => None,
                },
            },
            NodeEvent::StartProvidingProgressed { query } =>
                NodeEventView::StartProvidingProgressed { query: *query },
            NodeEvent::ProvidersFound { query, key, providers } => NodeEventView::ProvidersFound {
                query: *query,
                key: key@,
                providers: providers@,
            },
            NodeEvent::FileRequested { request, channel } => NodeEventView::FileRequested {
                request: request@,
                channel: *channel,
            },
            NodeEvent::FileReceived { request_id, response } => NodeEventView::FileReceived {
                request_id: *request_id,
                response: response@,
            },
            NodeEvent::Other => NodeEventView::Other,
        }
    }
}

/// Something a chat node does in answer to a [`NodeEvent`].
pub enum NodeEffect<A, P, S, C> {
    /// Add the peer to the gossip explicit peers.
    AddExplicitPeer(P),
    /// Add the address to the routing table.
    AddAddress { peer: P, address: A },
    /// Remove the peer from the gossip explicit peers.
    RemoveExplicitPeer(P),
    /// Remove the peer from the routing table.
    RemovePeer(P),
    /// Stop the routing-table query with this number.
    FinishQuery(u64),
    /// Hand the message to the user interface.
    Deliver(Message),
    /// Queue a command for the node itself.
    Enqueue(Command<P, S, C>),
    /// Tell whoever asked that providing the file has started.
    SignalProvided(S),
    /// Read the stored file of that name and queue it as the answer on the channel.
    ServeStoredFile { file_name: String, channel: C },
}

/// A [`NodeEffect`] as mathematical values.
pub enum NodeEffectView<A, P, S, C> {
    AddExplicitPeer(P),
    AddAddress { peer: P, address: A },
    RemoveExplicitPeer(P),
    RemovePeer(P),
    FinishQuery(u64),
    Deliver(MessageView),
    Enqueue(CommandView<P, S, C>),
    SignalProvided(S),
    ServeStoredFile { file_name: Seq<char>, channel: C },
}

impl<A, P, S, C> View for NodeEffect<A, P, S, C> {
    type V = NodeEffectView<A, P, S, C>;

    open spec fn view(&self) -> NodeEffectView<A, P, S, C> {
        match self {
            NodeEffect::AddExplicitPeer(p) => NodeEffectView::AddExplicitPeer(*p),
            NodeEffect::AddAddress { peer, address } => NodeEffectView::AddAddress {
                peer: *peer,
                address: *address,
            },
            NodeEffect::RemoveExplicitPeer(p) => NodeEffectView::RemoveExplicitPeer(*p),
            NodeEffect::RemovePeer(p) => NodeEffectView::RemovePeer(*p),
            NodeEffect::FinishQuery(q) => NodeEffectView::FinishQuery(*q),
            NodeEffect::Deliver(m) => NodeEffectView::Deliver(m@),
            NodeEffect::Enqueue(c) => NodeEffectView::Enqueue(c@),
            NodeEffect::SignalProvided(s) => NodeEffectView::SignalProvided(*s),
            NodeEffect::ServeStoredFile { file_name, channel } => NodeEffectView::ServeStoredFile {
                file_name: file_name@,
                channel: *channel,
            },
        }
    }
}

/// The effects of a sequence, as mathematical values.
pub open spec fn node_effects_view<A, P, S, C>(effects: Seq<NodeEffect<A, P, S, C>>) -> Seq<
    NodeEffectView<A, P, S, C>,
> {
    effects.map_values(|e: NodeEffect<A, P, S, C>| e@)
}

/// Why a chat node stops handling events.
#[derive(Debug, Clone, Copy, PartialEq, Eq)]
pub enum NodeError {
    /// A published message was not a [`Message`].
    MalformedMessage,
    /// The key of a provider lookup was not a UTF-8 file name.
    InvalidFileName,
}

/// The decision state of a chat node: what it awaits from the network.
pub struct Node<S> {
    pending: PendingQueries<S>,
}

impl<S> View for Node<S> {
    type V = PendingView<S>;

    closed spec fn view(&self) -> PendingView<S> {
        self.pending@
    }
}

/// The outcome of one event: the pending queries after, the effects, and the error on
/// which handling stops, if any.
pub struct NodeStepView<A, P, S, C> {
    pub state: PendingView<S>,
    pub effects: Seq<NodeEffectView<A, P, S, C>>,
    pub error: Option<NodeError>,
}

/// The action that carries out `command`; the key of a file is the bytes of its name.
pub open spec fn node_command_action<P, S, C>(command: CommandView<P, S, C>) -> NodeActionView<
    P,
    S,
    C,
> {
    match command {
        CommandView::SendMessage(m) => NodeActionView::Publish(m),
        CommandView::StartFileProviding { file_name, file, sender } =>
            NodeActionView::StoreAndProvide {
                file_name,
                file,
                key: encode_utf8(file_name),
                sender,
            },
        CommandView::GetFileProviders { file_name } => NodeActionView::GetProviders {
            key: encode_utf8(file_name),
        },
        CommandView::RequestFile { file_name, peer } => NodeActionView::SendRequest {
            peer,
            request: file_name,
        },
        CommandView::ResponseFile { file_name, file, channel } => NodeActionView::SendResponse {
            channel,
            response: FileResponseView { file_name, file },
        },
    }
}

/// The effects of peers found on the local network: each becomes an explicit gossip peer
/// and gets its address in the routing table.
pub open spec fn node_discovered_effects<A, P, S, C>(peers: Seq<(P, A)>) -> Seq<
    NodeEffectView<A, P, S, C>,
>
    decreases peers.len(),
{
    if peers.len() == 0 {
        seq![]
    } else {
        let (p, a) = peers.last();
        node_discovered_effects(peers.drop_last()) + seq![
            NodeEffectView::AddExplicitPeer(p),
            NodeEffectView::AddAddress { peer: p, address: a },
        ]
    }
}

/// The effects of peers no longer seen on the local network.
pub open spec fn node_expired_effects<A, P, S, C>(peers: Seq<P>) -> Seq<
    NodeEffectView<A, P, S, C>,
>
    decreases peers.len(),
{
    if peers.len() == 0 {
        seq![]
    } else {
        let p = peers.last();
        node_expired_effects(peers.drop_last()) + seq![
            NodeEffectView::RemoveExplicitPeer(p),
            NodeEffectView::RemovePeer(p),
        ]
    }
}

/// A step with no effect and no error.
pub open spec fn node_quiet<A, P, S, C>(state: PendingView<S>) -> NodeStepView<A, P, S, C> {
    NodeStepView { state, effects: seq![], error: None }
}

/// How a chat node answers one network event.
pub open spec fn node_event_step<A, P, S, C>(
    state: PendingView<S>,
    event: NodeEventView<A, P, C>,
) -> NodeStepView<A, P, S, C> {
    match event {
        NodeEventView::PeersDiscovered(peers) => NodeStepView {
            state,
            effects: node_discovered_effects(peers),
            error: None,
        },
        NodeEventView::PeersExpired(peers) => NodeStepView {
            state,
            effects: node_expired_effects(peers),
            error: None,
        },
        NodeEventView::Message { source, message } => match message {
            None => NodeStepView { state, effects: seq![], error: Some(NodeError::MalformedMessage) },
            Some(MessageView::Text(text)) => NodeStepView {
                state,
                effects: seq![NodeEffectView::Deliver(MessageView::Text(text))],
                error: None,
            },
            Some(MessageView::FileAd(file_name)) => NodeStepView {
                state,
                effects: seq![NodeEffectView::Enqueue(CommandView::GetFileProviders { file_name })],
                error: None,
            },
            Some(MessageView::File { .. }) => node_quiet(state),
        },
        NodeEventView::StartProvidingProgressed { query } => {
            if state.start_providing.contains_key(query) {
                NodeStepView {
                    state: state.take_start_providing(query),
                    effects: seq![NodeEffectView::SignalProvided(state.start_providing[query])],
                    error: None,
                }
            } else {
                node_quiet(state)
            }
        },
        NodeEventView::ProvidersFound { query, key, providers } => {
            if !state.get_providers.contains(query) {
                node_quiet(state)
            } else if !valid_utf8(key) {
                NodeStepView {
                    state: state.take_get_providers(query),
                    effects: seq![NodeEffectView::FinishQuery(query)],
                    error: Some(NodeError::InvalidFileName),
                }
            } else {
                NodeStepView {
                    state: state.take_get_providers(query),
                    effects: seq![
                        NodeEffectView::FinishQuery(query),
                        NodeEffectView::Enqueue(
                            CommandView::RequestFile { file_name: decode_utf8(key), peer: providers[0] },
                        ),
                    ],
                    error: None,
                }
            }
        },
        NodeEventView::FileRequested { request, channel } => NodeStepView {
            state,
            effects: seq![NodeEffectView::ServeStoredFile { file_name: request, channel }],
            error: None,
        },
        NodeEventView::FileReceived { request_id, response } => {
            if state.request_file.contains_key(response.file_name) {
                NodeStepView {
                    state: state.take_file_request(response.file_name),
                    effects: seq![
                        NodeEffectView::Deliver(
                            MessageView::File { file_name: response.file_name, file: response.file },
                        ),
                    ],
                    error: None,
                }
            } else {
                node_quiet(state)
            }
        },
        NodeEventView::NewListenAddr(_) => node_quiet(state),
        NodeEventView::Other => node_quiet(state),
    }
}

/// An event on which the node would stop without an answer: providers found for a
/// pending lookup with a valid file name, but no provider at all.
pub open spec fn node_event_admissible<A, P, S, C>(
    state: PendingView<S>,
    event: NodeEventView<A, P, C>,
) -> bool {
    match event {
        NodeEventView::ProvidersFound { query, key, providers } => state.get_providers.contains(
            query,
        ) && valid_utf8(key) ==> providers.len() > 0,
        _ => true,
    }
}

impl<S> Node<S> {
    /// The internal invariant of the state.
    pub closed spec fn wf(&self) -> bool {
        self.pending.wf()
    }

    /// A node that awaits nothing.
    pub fn new() -> (node: Self)
        ensures
            node.wf(),
            node@ == PendingView::<S>::empty(),
    {
        Node { pending: PendingQueries::new() }
    }

    /// Carries out a command: tells what the network and the file store must do. The
    /// state does not change.
    pub fn handle_command<P, C>(&self, command: Command<P, S, C>) -> (action: NodeAction<P, S, C>)
        ensures
            action@ == node_command_action(command@),
    {
        match command {
            Command::SendMessage(msg) => NodeAction::Publish(msg),
            Command::StartFileProviding { file_name, file, sender } => {
                let key = string_bytes(&file_name);
                NodeAction::StoreAndProvide { file_name, file, key, sender }
            },
            Command::GetFileProviders { file_name } => {
                let key = string_bytes(&file_name);
                NodeAction::GetProviders { key }
            },
            Command::RequestFile { file_name, peer } => NodeAction::SendRequest {
                peer,
                request: FileRequest(file_name),
            },
            Command::ResponseFile { file_name, file, channel } => NodeAction::SendResponse {
                channel,
                response: FileResponse { file_name, file },
            },
        }
    }

    /// Whether the lookup `query` is awaiting its first answer.
    pub fn awaits_providers(&self, query: u64) -> (b: bool)
        requires
            self.wf(),
        ensures
            b == self@.get_providers.contains(query),
    {
        self.pending.awaits_providers(query)
    }

    /// Records the number of a provider announcement, with the handle to signal when it starts.
    pub fn record_start_providing(&mut self, query: u64, sender: S)
        requires
            old(self).wf(),
        ensures
            final(self).wf(),
            final(self)@ == old(self)@.record_start_providing(query, sender),
    {
        self.pending.record_start_providing(query, sender);
    }

    /// Records the number of a provider lookup.
    pub fn record_get_providers(&mut self, query: u64)
        requires
            old(self).wf(),
        ensures
            final(self).wf(),
            final(self)@ == old(self)@.record_get_providers(query),
    {
        self.pending.record_get_providers(query);
    }

    /// Records the number of a file request sent for `file_name`.
    pub fn record_file_request(&mut self, file_name: String, request: u64)
        requires
            old(self).wf(),
        ensures
            final(self).wf(),
            final(self)@ == old(self)@.record_file_request(file_name@, request),
    {
        self.pending.record_file_request(file_name, request);
    }

    /// Answers one network event: the effects to carry out in order, then the error on
    /// which the node stops, if any.
    pub fn handle_event<A, P: Copy, C>(&mut self, event: NodeEvent<A, P, C>) -> (r: (
        Vec<NodeEffect<A, P, S, C>>,
        Option<NodeError>,
    ))
        requires
            old(self).wf(),
            node_event_admissible(old(self)@, event@),
        ensures
            final(self).wf(),
            final(self)@ == node_event_step(old(self)@, event@).state,
            node_effects_view(r.0@) == node_event_step(old(self)@, event@).effects,
            r.1 == node_event_step(old(self)@, event@).error,
    {
        let ghost ev = event@;
        let mut effects: Vec<NodeEffect<A, P, S, C>> = Vec::new();
        match event {
            NodeEvent::PeersDiscovered(peers) => {
                let effects = node_discovered(peers);
                (effects, None)
            },
            NodeEvent::PeersExpired(peers) => {
                let effects = node_expired(peers);
                (effects, None)
            },
            NodeEvent::Message { source, message } => match message {
                None => {
                    assert(node_effects_view(effects@) =~= node_event_step(old(self)@, ev).effects);
                    (effects, Some(NodeError::MalformedMessage))
                },
                Some(Message::FileAd(file_name)) => {
                    effects.push(NodeEffect::Enqueue(Command::GetFileProviders { file_name }));
                    assert(node_effects_view(effects@) =~= node_event_step(old(self)@, ev).effects);
                    (effects, None)
                },
                Some(Message::File { .. }) => {
                    assert(node_effects_view(effects@) =~= node_event_step(old(self)@, ev).effects);
                    (effects, None)
                },
                Some(msg) => {
                    effects.push(NodeEffect::Deliver(msg));
                    assert(node_effects_view(effects@) =~= node_event_step(old(self)@, ev).effects);
                    (effects, None)
                },
            },
            NodeEvent::StartProvidingProgressed { query } => {
                match self.pending.take_start_providing(query) {
                    Some(sender) => effects.push(NodeEffect::SignalProvided(sender)),
                    None => {},
                }
                assert(self@ =~= node_event_step(old(self)@, ev).state);
                assert(node_effects_view(effects@) =~= node_event_step(old(self)@, ev).effects);
                (effects, None)
            },
            NodeEvent::ProvidersFound { query, key, providers } => {
                if !self.pending.take_get_providers(query) {
                    assert(self@ =~= node_event_step(old(self)@, ev).state);
                    assert(node_effects_view(effects@) =~= node_event_step(old(self)@, ev).effects);
                    return (effects, None);
                }
                effects.push(NodeEffect::FinishQuery(query));
                match bytes_to_string(key) {
                    None => {
                        assert(node_effects_view(effects@) =~= node_event_step(old(self)@, ev).effects);
                        (effects, Some(NodeError::InvalidFileName))
                    },
                    Some(file_name) => {
                        let peer = providers[0];
                        effects.push(NodeEffect::Enqueue(Command::RequestFile { file_name, peer }));
                        assert(node_effects_view(effects@) =~= node_event_step(old(self)@, ev).effects);
                        (effects, None)
                    },
                }
            },
            NodeEvent::FileRequested { request, channel } => {
                let FileRequest(file_name) = request;
                effects.push(NodeEffect::ServeStoredFile { file_name, channel });
                assert(node_effects_view(effects@) =~= node_event_step(old(self)@, ev).effects);
                (effects, None)
            },
            NodeEvent::FileReceived { request_id, response } => {
                let FileResponse { file_name, file } = response;
                if self.pending.take_file_request(&file_name) {
                    effects.push(NodeEffect::Deliver(Message::File { file_name, file }));
                }
                assert(self@ =~= node_event_step(old(self)@, ev).state);
                assert(node_effects_view(effects@) =~= node_event_step(old(self)@, ev).effects);
                (effects, None)
            },
            NodeEvent::NewListenAddr(_) => {
                assert(node_effects_view(effects@) =~= node_event_step(old(self)@, ev).effects);
                (effects, None)
            },
            NodeEvent::Other => {
                assert(node_effects_view(effects@) =~= node_event_step(old(self)@, ev).effects);
                (effects, None)
            },
        }
    }
}

/// The effects of discovering `peers`, in order.
fn node_discovered<A, P: Copy, S, C>(peers: Vec<(P, A)>) -> (effects: Vec<NodeEffect<A, P, S, C>>)
    ensures
        node_effects_view(effects@) == node_discovered_effects::<A, P, S, C>(peers@),
{
    let ghost all = peers@;
    let mut effects: Vec<NodeEffect<A, P, S, C>> = Vec::new();
    let mut rest = peers;
    let ghost mut i: int = 0;
    assert(all.take(0) =~= Seq::<(P, A)>::empty());
    assert(node_effects_view(effects@) =~= node_discovered_effects::<A, P, S, C>(all.take(0)));
    assert(rest@ =~= all.skip(0));
    while rest.len() > 0
        invariant
            0 <= i <= all.len(),
            rest@ == all.skip(i),
            node_effects_view(effects@) == node_discovered_effects::<A, P, S, C>(all.take(i)),
        decreases rest@.len(),
    {
        let (peer, address) = rest.remove(0);
        let ghost old_effects = effects@;
        let ghost item = all[i];
        assert(item == (peer, address));
        effects.push(NodeEffect::AddExplicitPeer(peer));
        effects.push(NodeEffect::AddAddress { peer, address });
        proof {
            assert(all.take(i + 1).drop_last() =~= all.take(i));
            assert(all.take(i + 1).last() == item);
            assert(node_effects_view(effects@) =~= node_effects_view(old_effects) + seq![
                NodeEffectView::AddExplicitPeer(item.0),
                NodeEffectView::AddAddress { peer: item.0, address: item.1 },
            ]);
            i = i + 1;
            assert(rest@ =~= all.skip(i));
        }
    }
    assert(all.take(i) =~= all);
    effects
}

/// The effects of losing sight of `peers`, in order.
fn node_expired<A, P: Copy, S, C>(peers: Vec<P>) -> (effects: Vec<NodeEffect<A, P, S, C>>)
    ensures
        node_effects_view(effects@) == node_expired_effects::<A, P, S, C>(peers@),
{
    let mut effects: Vec<NodeEffect<A, P, S, C>> = Vec::new();
    let mut i: usize = 0;
    assert(peers@.take(0) =~= Seq::<P>::empty());
    assert(node_effects_view(effects@) =~= node_expired_effects::<A, P, S, C>(peers@.take(0)));
    while i < peers.len()
        invariant
            i <= peers@.len(),
            node_effects_view(effects@) == node_expired_effects::<A, P, S, C>(peers@.take(i as int)),
        decreases peers@.len() - i,
    {
        let peer = peers[i];
        let ghost old_effects = effects@;
        effects.push(NodeEffect::RemoveExplicitPeer(peer));
        effects.push(NodeEffect::RemovePeer(peer));
        proof {
            assert(peers@.take(i + 1).drop_last() =~= peers@.take(i as int));
            assert(node_effects_view(effects@) =~= node_effects_view(old_effects) + seq![
                NodeEffectView::RemoveExplicitPeer(peer),
                NodeEffectView::RemovePeer(peer),
            ]);
        }
        i = i + 1;
    }
    assert(peers@.take(peers@.len() as int) =~= peers@);
    effects
}


} // verus!
