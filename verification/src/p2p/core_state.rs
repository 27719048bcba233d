use vstd::prelude::*;
use vstd::utf8::*;

use crate::p2p::command::{Command, CommandView};
use crate::p2p::event::{Event, EventView};
use crate::p2p::file_exchange::{FileRequest, FileResponse, FileResponseView};
use crate::p2p::message::{Message, MessageView};
use crate::p2p::name_table::NameTable;
use crate::p2p::pending::{PendingQueries, PendingView};
use crate::p2p::text::{bytes_to_string, string_bytes};

verus! {

/// The flooding topic on which nodes chat.
pub const FLOODSUB_TOPIC: &'static str = "jiri-chat-floodsub";

/// The gossip topic on which nodes chat.
pub const GOSSIPSUB_TOPIC: &'static str = "jiri-chat";

/// What the network layer must do to carry out a [`Command`].
///
/// `StartProviding` and `GetProviders` start a query whose number is then handed back
/// with [`Core::record_start_providing`] or [`Core::record_get_providers`];
/// `SendRequest` yields a request number, handed back with [`Core::record_file_request`].
pub enum NetworkAction<A, P, S, C> {
    Dial(A),
    Publish(Message),
    StartProviding { key: Vec<u8>, sender: S },
    GetProviders { key: Vec<u8> },
    SendRequest { peer: P, request: FileRequest },
    SendResponse { channel: C, response: FileResponse },
}

/// A [`NetworkAction`] as mathematical values.
pub enum NetworkActionView<A, P, S, C> {
    Dial(A),
    Publish(MessageView),
    StartProviding { key: Seq<u8>, sender: S },
    GetProviders { key: Seq<u8> },
    SendRequest { peer: P, request: Seq<char> },
    SendResponse { channel: C, response: FileResponseView },
}

impl<A, P, S, C> View for NetworkAction<A, P, S, C> {
    type V = NetworkActionView<A, P, S, C>;

    open spec fn view(&self) -> NetworkActionView<A, P, S, C> {
        match self {
            NetworkAction::Dial(a) => NetworkActionView::Dial(*a),
            NetworkAction::Publish(m) => NetworkActionView::Publish(m@),
            NetworkAction::StartProviding { key, sender } => NetworkActionView::StartProviding {
                key: key@,
                sender: *sender,
            },
            NetworkAction::GetProviders { key } => NetworkActionView::GetProviders { key: key@ },
            NetworkAction::SendRequest { peer, request } => NetworkActionView::SendRequest {
                peer: *peer,
                request: request@,
            },
            NetworkAction::SendResponse { channel, response } => NetworkActionView::SendResponse {
                channel: *channel,
                response: response@,
            },
        }
    }
}

/// What the network layer reports to a node.
///
/// Queries and requests are identified by the numbers recorded when they were issued.
/// A published message arrives already decoded: `None` where its bytes were not a
/// [`Message`].
pub enum NetworkEvent<A, P, C> {
    NewListenAddr(A),
    ConnectionEstablished { peer: P, address: A },
    ConnectionClosed { peer: P },
    OutgoingConnectionError { error: String },
    PeersDiscovered(Vec<(P, A)>),
    PeersExpired(Vec<P>),
    Message { source: P, message: Option<Message> },
    StartProvidingProgressed { query: u64 },
    ProvidersFound { query: u64, key: Vec<u8>, providers: Vec<P> },
    FileRequested { request: FileRequest, channel: C },
    FileReceived { request_id: u64, response: FileResponse },
    Unrecognized,
}

/// A [`NetworkEvent`] as mathematical values.
pub enum NetworkEventView<A, P, C> {
    NewListenAddr(A),
    ConnectionEstablished { peer: P, address: A },
    ConnectionClosed { peer: P },
    OutgoingConnectionError { error: Seq<char> },
    PeersDiscovered(Seq<(P, A)>),
    PeersExpired(Seq<P>),
    Message { source: P, message: Option<MessageView> },
    StartProvidingProgressed { query: u64 },
    ProvidersFound { query: u64, key: Seq<u8>, providers: Seq<P> },
    FileRequested { request: Seq<char>, channel: C },
    FileReceived { request_id: u64, response: FileResponseView },
    Unrecognized,
}

impl<A, P, C> View for NetworkEvent<A, P, C> {
    type V = NetworkEventView<A, P, C>;

    open spec fn view(&self) -> NetworkEventView<A, P, C> {
        match self {
            NetworkEvent::NewListenAddr(a) => NetworkEventView::NewListenAddr(*a),
            NetworkEvent::ConnectionEstablished { peer, address } =>
                NetworkEventView::ConnectionEstablished { peer: *peer, address: *address },
            NetworkEvent::ConnectionClosed { peer } => NetworkEventView::ConnectionClosed {
                peer: *peer,
            },
            NetworkEvent::OutgoingConnectionError { error } =>
                NetworkEventView::OutgoingConnectionError { error: error@ },
            NetworkEvent::PeersDiscovered(list) => NetworkEventView::PeersDiscovered(list@),
            NetworkEvent::PeersExpired(list) => NetworkEventView::PeersExpired(list@),
            NetworkEvent::Message { source, message } => NetworkEventView::Message {
                source: *source,
                message: match message {
                    Some(m) => Some(m@),
                    None => None,
                },
            },
            NetworkEvent::StartProvidingProgressed { query } =>
                NetworkEventView::StartProvidingProgressed { query: *query },
            NetworkEvent::ProvidersFound { query, key, providers } =>
                NetworkEventView::ProvidersFound {
                    query: *query,
                    key: key@,
                    providers: providers@,
                },
            NetworkEvent::FileRequested { request, channel } => NetworkEventView::FileRequested {
                request: request@,
                channel: *channel,
            },
            NetworkEvent::FileReceived { request_id, response } => NetworkEventView::FileReceived {
                request_id: *request_id,
                response: response@,
            },
            NetworkEvent::Unrecognized => NetworkEventView::Unrecognized,
        }
    }
}

/// Something the node does in answer to a [`NetworkEvent`].
pub enum Effect<A, P, S, C> {
    /// Add the address to the routing table.
    AddAddress { peer: P, address: A },
    /// Remove the peer from the routing table.
    RemovePeer(P),
    /// Stop the routing-table query with this number.
    FinishQuery(u64),
    /// Add the peer to the flooding partial view.
    AddToPartialView(P),
    /// Remove the peer from the flooding partial view.
    RemoveFromPartialView(P),
    /// Add the peer to the gossip explicit peers.
    AddExplicitPeer(P),
    /// Remove the peer from the gossip explicit peers.
    RemoveExplicitPeer(P),
    /// Report to the user interface.
    Emit(Event<P>),
    /// Queue a command for the node itself.
    Enqueue(Command<A, P, S, C>),
    /// Tell whoever asked that providing the file has started.
    SignalProvided(S),
}

/// An [`Effect`] as mathematical values.
pub enum EffectView<A, P, S, C> {
    AddAddress { peer: P, address: A },
    RemovePeer(P),
    FinishQuery(u64),
    AddToPartialView(P),
    RemoveFromPartialView(P),
    AddExplicitPeer(P),
    RemoveExplicitPeer(P),
    Emit(EventView<P>),
    Enqueue(CommandView<A, P, S, C>),
    SignalProvided(S),
}

impl<A, P, S, C> View for Effect<A, P, S, C> {
    type V = EffectView<A, P, S, C>;

    open spec fn view(&self) -> EffectView<A, P, S, C> {
        match self {
            Effect::AddAddress { peer, address } => EffectView::AddAddress {
                peer: *peer,
                address: *address,
            },
            Effect::RemovePeer(p) => EffectView::RemovePeer(*p),
            Effect::FinishQuery(q) => EffectView::FinishQuery(*q),
            Effect::AddToPartialView(p) => EffectView::AddToPartialView(*p),
            Effect::RemoveFromPartialView(p) => EffectView::RemoveFromPartialView(*p),
            Effect::AddExplicitPeer(p) => EffectView::AddExplicitPeer(*p),
            Effect::RemoveExplicitPeer(p) => EffectView::RemoveExplicitPeer(*p),
            Effect::Emit(e) => EffectView::Emit(e@),
            Effect::Enqueue(c) => EffectView::Enqueue(c@),
            Effect::SignalProvided(s) => EffectView::SignalProvided(*s),
        }
    }
}

/// The effects of a sequence, as mathematical values.
pub open spec fn effects_view<A, P, S, C>(effects: Seq<Effect<A, P, S, C>>) -> Seq<
    EffectView<A, P, S, C>,
> {
    effects.map_values(|e: Effect<A, P, S, C>| e@)
}

/// Why a node stops handling events.
#[derive(Debug)]
pub enum CoreError {
    /// A published message was not a [`Message`].
    MalformedMessage,
    /// The key of a provider lookup was not a UTF-8 file name.
    InvalidFileName,
    /// A peer asked for a file that this node does not store.
    FileNotFound(String),
}

/// A [`CoreError`] as mathematical values.
pub enum CoreErrorView {
    MalformedMessage,
    InvalidFileName,
    FileNotFound(Seq<char>),
}

impl View for CoreError {
    type V = CoreErrorView;

    open spec fn view(&self) -> CoreErrorView {
        match self {
            CoreError::MalformedMessage => CoreErrorView::MalformedMessage,
            CoreError::InvalidFileName => CoreErrorView::InvalidFileName,
            CoreError::FileNotFound(n) => CoreErrorView::FileNotFound(n@),
        }
    }
}

/// The decision state of a node: the files it provides and what it awaits from the network.
pub struct Core<S> {
    file_store: NameTable<Vec<u8>>,
    pending: PendingQueries<S>,
}

/// What a [`Core`] holds, as mathematical values.
#[verifier::ext_equal]
pub struct CoreView<S> {
    /// The files this node provides, by name.
    pub file_store: Map<Seq<char>, Seq<u8>>,
    /// The queries and requests it awaits answers to.
    pub pending: PendingView<S>,
}

impl<S> View for Core<S> {
    type V = CoreView<S>;

    closed spec fn view(&self) -> CoreView<S> {
        CoreView {
            file_store: self.file_store@.map_values(|f: Vec<u8>| f@),
            pending: self.pending@,
        }
    }
}

/// The outcome of handling one event: the state after, the effects, and the error on
/// which handling stops, if any.
pub struct StepView<A, P, S, C> {
    pub state: CoreView<S>,
    pub effects: Seq<EffectView<A, P, S, C>>,
    pub error: Option<CoreErrorView>,
}

/// The routing-table key under which a file is provided: the bytes of its name.
pub open spec fn file_key(file_name: Seq<char>) -> Seq<u8> {
    encode_utf8(file_name)
}

/// The action that carries out `command`.
pub open spec fn command_action<A, P, S, C>(command: CommandView<A, P, S, C>) -> NetworkActionView<
    A,
    P,
    S,
    C,
> {
    match command {
        CommandView::Dial(a) => NetworkActionView::Dial(a),
        CommandView::SendMessage(m) => NetworkActionView::Publish(m),
        CommandView::StartFileProviding { file_name, file, sender } =>
            NetworkActionView::StartProviding { key: file_key(file_name), sender },
        CommandView::GetFileProviders { file_name } => NetworkActionView::GetProviders {
            key: file_key(file_name),
        },
        CommandView::RequestFile { file_name, peer } => NetworkActionView::SendRequest {
            peer,
            request: file_name,
        },
        CommandView::ResponseFile { file_name, file, channel } =>
            NetworkActionView::SendResponse {
                channel,
                response: FileResponseView { file_name, file },
            },
    }
}

/// The state after handling `command`: only providing a file changes it, by storing the file.
pub open spec fn command_state<A, P, S, C>(
    state: CoreView<S>,
    command: CommandView<A, P, S, C>,
) -> CoreView<S> {
    match command {
        CommandView::StartFileProviding { file_name, file, sender } => CoreView {
            file_store: state.file_store.insert(file_name, file),
            ..state
        },
        _ => state,
    }
}

/// The effects of peers found on the local network: each becomes an explicit gossip peer,
/// gets its address in the routing table, and joins the flooding partial view.
pub open spec fn discovered_effects<A, P, S, C>(peers: Seq<(P, A)>) -> Seq<EffectView<A, P, S, C>>
    decreases peers.len(),
{
    if peers.len() == 0 {
        seq![]
    } else {
        let (p, a) = peers.last();
        discovered_effects(peers.drop_last()) + seq![
            EffectView::AddExplicitPeer(p),
            EffectView::AddAddress { peer: p, address: a },
            EffectView::AddToPartialView(p),
        ]
    }
}

/// The effects of peers no longer seen on the local network: the reverse of discovery.
pub open spec fn expired_effects<A, P, S, C>(peers: Seq<P>) -> Seq<EffectView<A, P, S, C>>
    decreases peers.len(),
{
    if peers.len() == 0 {
        seq![]
    } else {
        let p = peers.last();
        expired_effects(peers.drop_last()) + seq![
            EffectView::RemoveExplicitPeer(p),
            EffectView::RemovePeer(p),
            EffectView::RemoveFromPartialView(p),
        ]
    }
}

/// A step with no effect and no error.
pub open spec fn quiet<A, P, S, C>(state: CoreView<S>) -> StepView<A, P, S, C> {
    StepView { state, effects: seq![], error: None }
}

/// How a node answers one network event.
pub open spec fn event_step<A, P, S, C>(
    state: CoreView<S>,
    event: NetworkEventView<A, P, C>,
) -> StepView<A, P, S, C> {
    match event {
        NetworkEventView::ConnectionEstablished { peer, address } => StepView {
            state,
            effects: seq![
                EffectView::AddAddress { peer, address },
                EffectView::AddToPartialView(peer),
                EffectView::Emit(EventView::Connected(peer)),
            ],
            error: None,
        },
        NetworkEventView::ConnectionClosed { peer } => StepView {
            state,
            effects: seq![
                EffectView::RemovePeer(peer),
                EffectView::RemoveFromPartialView(peer),
                EffectView::Emit(EventView::Disconnected(peer)),
            ],
            error: None,
        },
        NetworkEventView::OutgoingConnectionError { error } => StepView {
            state,
            effects: seq![EffectView::Emit(EventView::Error(error))],
            error: None,
        },
        NetworkEventView::PeersDiscovered(peers) => StepView {
            state,
            effects: discovered_effects(peers),
            error: None,
        },
        NetworkEventView::PeersExpired(peers) => StepView {
            state,
            effects: expired_effects(peers),
            error: None,
        },
        NetworkEventView::Message { source, message } => match message {
            None => StepView { state, effects: seq![], error: Some(CoreErrorView::MalformedMessage) },
            Some(MessageView::Text { source_peer_id, text }) => StepView {
                state,
                effects: seq![
                    EffectView::Emit(
                        EventView::Msg(MessageView::Text { source_peer_id, text }),
                    ),
                ],
                error: None,
            },
            Some(MessageView::FileAd(file_name)) => StepView {
                state,
                effects: seq![EffectView::Enqueue(CommandView::GetFileProviders { file_name })],
                error: None,
            },
            Some(MessageView::File { .. }) => quiet(state),
        },
        NetworkEventView::StartProvidingProgressed { query } => {
            if state.pending.start_providing.contains_key(query) {
                StepView {
                    state: CoreView {
                        pending: state.pending.take_start_providing(query),
                        ..state
                    },
                    effects: seq![
                        EffectView::SignalProvided(state.pending.start_providing[query]),
                    ],
                    error: None,
                }
            } else {
                quiet(state)
            }
        },
        NetworkEventView::ProvidersFound { query, key, providers } => {
            if !state.pending.get_providers.contains(query) {
                quiet(state)
            } else {
                let after = CoreView { pending: state.pending.take_get_providers(query), ..state };
                if !valid_utf8(key) {
                    StepView {
                        state: after,
                        effects: seq![EffectView::FinishQuery(query)],
                        error: Some(CoreErrorView::InvalidFileName),
                    }
                } else {
                    StepView {
                        state: after,
                        effects: seq![
                            EffectView::FinishQuery(query),
                            EffectView::Enqueue(
                                CommandView::RequestFile { file_name: decode_utf8(key), peer: providers[0] },
                            ),
                        ],
                        error: None,
                    }
                }
            }
        },
        NetworkEventView::FileRequested { request, channel } => {
            if state.file_store.contains_key(request) {
                StepView {
                    state,
                    effects: seq![
                        EffectView::Enqueue(
                            CommandView::ResponseFile {
                                file_name: request,
                                file: state.file_store[request],
                                channel,
                            },
                        ),
                    ],
                    error: None,
                }
            } else {
                StepView {
                    state,
                    effects: seq![],
                    error: Some(CoreErrorView::FileNotFound(request)),
                }
            }
        },
        NetworkEventView::FileReceived { request_id, response } => {
            if state.pending.request_file.contains_key(response.file_name) {
                StepView {
                    state: CoreView {
                        pending: state.pending.take_file_request(response.file_name),
                        ..state
                    },
                    effects: seq![
                        EffectView::Emit(
                            EventView::Msg(
                                MessageView::File {
                                    file_name: response.file_name,
                                    file: response.file,
                                },
                            ),
                        ),
                    ],
                    error: None,
                }
            } else {
                quiet(state)
            }
        },
        NetworkEventView::NewListenAddr(_) => quiet(state),
        NetworkEventView::Unrecognized => quiet(state),
    }
}

/// An event on which the node would stop without an answer: providers found for a
/// pending lookup with a valid file name, but no provider at all.
pub open spec fn event_admissible<A, P, S, C>(
    state: CoreView<S>,
    event: NetworkEventView<A, P, C>,
) -> bool {
    match event {
        NetworkEventView::ProvidersFound { query, key, providers } => state.pending.get_providers.contains(
            query,
        ) && valid_utf8(key) ==> providers.len() > 0,
        _ => true,
    }
}

impl<S> Core<S> {
    /// The internal invariant of the state.
    pub closed spec fn wf(&self) -> bool {
        &&& self.file_store.wf()
        &&& self.pending.wf()
    }

    /// A node that provides no file and awaits nothing.
    pub fn new() -> (core: Self)
        ensures
            core.wf(),
            core@.file_store == Map::<Seq<char>, Seq<u8>>::empty(),
            core@.pending == PendingView::<S>::empty(),
    {
        let core = Core { file_store: NameTable::new(), pending: PendingQueries::new() };
        assert(core@.file_store =~= Map::<Seq<char>, Seq<u8>>::empty());
        core
    }

    /// Carries out a command: tells what the network must do, and stores the file of a
    /// file to provide.
    pub fn handle_command<A, P, C>(&mut self, command: Command<A, P, S, C>) -> (action:
        NetworkAction<A, P, S, C>)
        requires
            old(self).wf(),
        ensures
            final(self).wf(),
            action@ == command_action(command@),
            final(self)@ == command_state(old(self)@, command@),
    {
        match command {
            Command::Dial(address) => NetworkAction::Dial(address),
            Command::SendMessage(msg) => NetworkAction::Publish(msg),
            Command::StartFileProviding { file_name, file, sender } => {
                let key = string_bytes(&file_name);
                self.file_store.insert(file_name, file);
                assert(self@.file_store =~= old(self)@.file_store.insert(file_name@, file@));
                NetworkAction::StartProviding { key, sender }
            },
            Command::GetFileProviders { file_name } => {
                let key = string_bytes(&file_name);
                NetworkAction::GetProviders { key }
            },
            Command::RequestFile { file_name, peer } => NetworkAction::SendRequest {
                peer,
                request: FileRequest(file_name),
            },
            Command::ResponseFile { file_name, file, channel } => NetworkAction::SendResponse {
                channel,
                response: FileResponse { file_name, file },
            },
        }
    }

    /// Whether the lookup `query` is awaiting its first answer.
    pub fn awaits_providers(&self, query: u64) -> (b: bool)
        requires
            self.wf(),
        ensures
            b == self@.pending.get_providers.contains(query),
    {
        self.pending.awaits_providers(query)
    }

    /// Records the number the network gave to the provider announcement started for a
    /// [`NetworkAction::StartProviding`], with the handle to signal when it starts.
    pub fn record_start_providing(&mut self, query: u64, sender: S)
        requires
            old(self).wf(),
        ensures
            final(self).wf(),
            final(self)@ == (CoreView {
                pending: old(self)@.pending.record_start_providing(query, sender),
                ..old(self)@
            }),
    {
        self.pending.record_start_providing(query, sender);
    }

    /// Records the number the network gave to the lookup started for a
    /// [`NetworkAction::GetProviders`].
    pub fn record_get_providers(&mut self, query: u64)
        requires
            old(self).wf(),
        ensures
            final(self).wf(),
            final(self)@ == (CoreView {
                pending: old(self)@.pending.record_get_providers(query),
                ..old(self)@
            }),
    {
        self.pending.record_get_providers(query);
    }

    /// Records the number the network gave to the file request sent for
    /// `file_name` by a [`NetworkAction::SendRequest`].
    pub fn record_file_request(&mut self, file_name: String, request: u64)
        requires
            old(self).wf(),
        ensures
            final(self).wf(),
            final(self)@ == (CoreView {
                pending: old(self)@.pending.record_file_request(file_name@, request),
                ..old(self)@
            }),
    {
        self.pending.record_file_request(file_name, request);
    }

    /// Answers one network event: the effects to carry out in order, then the error on
    /// which the node stops, if any.
    pub fn handle_event<A, P: Copy, C>(&mut self, event: NetworkEvent<A, P, C>) -> (r: (
        Vec<Effect<A, P, S, C>>,
        Option<CoreError>,
    ))
        requires
            old(self).wf(),
            event_admissible(old(self)@, event@),
        ensures
            final(self).wf(),
            final(self)@ == event_step(old(self)@, event@).state,
            effects_view(r.0@) == event_step(old(self)@, event@).effects,
            match r.1 {
                Some(e) => event_step(old(self)@, event@).error == Some(e@),
                None => event_step(old(self)@, event@).error is None,
            },
    {
        let ghost ev = event@;
        let mut effects: Vec<Effect<A, P, S, C>> = Vec::new();
        match event {
            NetworkEvent::ConnectionEstablished { peer, address } => {
                effects.push(Effect::AddAddress { peer, address });
                effects.push(Effect::AddToPartialView(peer));
                effects.push(Effect::Emit(Event::Connected(peer)));
                assert(effects_view(effects@) =~= event_step(old(self)@, ev).effects);
                (effects, None)
            },
            NetworkEvent::ConnectionClosed { peer } => {
                effects.push(Effect::RemovePeer(peer));
                effects.push(Effect::RemoveFromPartialView(peer));
                effects.push(Effect::Emit(Event::Disconnected(peer)));
                assert(effects_view(effects@) =~= event_step(old(self)@, ev).effects);
                (effects, None)
            },
            NetworkEvent::OutgoingConnectionError { error } => {
                effects.push(Effect::Emit(Event::Error(error)));
                assert(effects_view(effects@) =~= event_step(old(self)@, ev).effects);
                (effects, None)
            },
            NetworkEvent::PeersDiscovered(peers) => {
                let effects = discovered(peers);
                (effects, None)
            },
            NetworkEvent::PeersExpired(peers) => {
                let effects = expired(peers);
                (effects, None)
            },
            NetworkEvent::Message { source, message } => match message {
                None => {
                    assert(effects_view(effects@) =~= event_step(old(self)@, ev).effects);
                    (effects, Some(CoreError::MalformedMessage))
                },
                Some(Message::FileAd(file_name)) => {
                    effects.push(Effect::Enqueue(Command::GetFileProviders { file_name }));
                    assert(effects_view(effects@) =~= event_step(old(self)@, ev).effects);
                    (effects, None)
                },
                Some(Message::File { .. }) => {
                    assert(effects_view(effects@) =~= event_step(old(self)@, ev).effects);
                    (effects, None)
                },
                Some(msg) => {
                    effects.push(Effect::Emit(Event::Msg(msg)));
                    assert(effects_view(effects@) =~= event_step(old(self)@, ev).effects);
                    (effects, None)
                },
            },
            NetworkEvent::StartProvidingProgressed { query } => {
                match self.pending.take_start_providing(query) {
                    Some(sender) => effects.push(Effect::SignalProvided(sender)),
                    None => {},
                }
                assert(self@ =~= event_step(old(self)@, ev).state);
                assert(effects_view(effects@) =~= event_step(old(self)@, ev).effects);
                (effects, None)
            },
            NetworkEvent::ProvidersFound { query, key, providers } => {
                if !self.pending.take_get_providers(query) {
                    assert(self@ =~= event_step(old(self)@, ev).state);
                    assert(effects_view(effects@) =~= event_step(old(self)@, ev).effects);
                    return (effects, None);
                }
                assert(self@ =~= event_step(old(self)@, ev).state);
                effects.push(Effect::FinishQuery(query));
                match bytes_to_string(key) {
                    None => {
                        assert(effects_view(effects@) =~= event_step(old(self)@, ev).effects);
                        (effects, Some(CoreError::InvalidFileName))
                    },
                    Some(file_name) => {
                        let peer = providers[0];
                        effects.push(Effect::Enqueue(Command::RequestFile { file_name, peer }));
                        assert(effects_view(effects@) =~= event_step(old(self)@, ev).effects);
                        (effects, None)
                    },
                }
            },
            NetworkEvent::FileRequested { request, channel } => {
                let FileRequest(file_name) = request;
                match self.file_store.get(&file_name) {
                    None => {
                        assert(effects_view(effects@) =~= event_step(old(self)@, ev).effects);
                        (effects, Some(CoreError::FileNotFound(file_name)))
                    },
                    Some(file) => {
                        let file = file.clone();
                        assert(file@ =~= self@.file_store[file_name@]);
                        effects.push(
                            Effect::Enqueue(Command::ResponseFile { file_name, file, channel }),
                        );
                        assert(effects_view(effects@) =~= event_step(old(self)@, ev).effects);
                        (effects, None)
                    },
                }
            },
            NetworkEvent::FileReceived { request_id, response } => {
                let FileResponse { file_name, file } = response;
                if self.pending.take_file_request(&file_name) {
                    effects.push(Effect::Emit(Event::Msg(Message::File { file_name, file })));
                }
                assert(self@ =~= event_step(old(self)@, ev).state);
                assert(effects_view(effects@) =~= event_step(old(self)@, ev).effects);
                (effects, None)
            },
            NetworkEvent::NewListenAddr(_) => {
                assert(effects_view(effects@) =~= event_step(old(self)@, ev).effects);
                (effects, None)
            },
            NetworkEvent::Unrecognized => {
                assert(effects_view(effects@) =~= event_step(old(self)@, ev).effects);
                (effects, None)
            },
        }
    }
}

/// The effects of discovering `peers`, in order.
fn discovered<A, P: Copy, S, C>(peers: Vec<(P, A)>) -> (effects: Vec<Effect<A, P, S, C>>)
    ensures
        effects_view(effects@) == discovered_effects::<A, P, S, C>(peers@),
{
    let ghost all = peers@;
    let mut effects: Vec<Effect<A, P, S, C>> = Vec::new();
    let mut rest = peers;
    let ghost mut i: int = 0;
    assert(all.take(0) =~= Seq::<(P, A)>::empty());
    assert(effects_view(effects@) =~= discovered_effects::<A, P, S, C>(all.take(0)));
    assert(rest@ =~= all.skip(0));
    while rest.len() > 0
        invariant
            0 <= i <= all.len(),
            rest@ == all.skip(i),
            effects_view(effects@) == discovered_effects::<A, P, S, C>(all.take(i)),
        decreases rest@.len(),
    {
        let (peer, address) = rest.remove(0);
        let ghost old_effects = effects@;
        let ghost item = all[i];
        assert(item == (peer, address));
        effects.push(Effect::AddExplicitPeer(peer));
        effects.push(Effect::AddAddress { peer, address });
        effects.push(Effect::AddToPartialView(peer));
        proof {
            assert(all.take(i + 1).drop_last() =~= all.take(i));
            assert(all.take(i + 1).last() == item);
            assert(effects_view(effects@) =~= effects_view(old_effects) + seq![
                EffectView::AddExplicitPeer(item.0),
                EffectView::AddAddress { peer: item.0, address: item.1 },
                EffectView::AddToPartialView(item.0),
            ]);
            i = i + 1;
            assert(rest@ =~= all.skip(i));
        }
    }
    assert(all.take(i) =~= all);
    effects
}

/// The effects of losing sight of `peers`, in order.
fn expired<A, P: Copy, S, C>(peers: Vec<P>) -> (effects: Vec<Effect<A, P, S, C>>)
    ensures
        effects_view(effects@) == expired_effects::<A, P, S, C>(peers@),
{
    let mut effects: Vec<Effect<A, P, S, C>> = Vec::new();
    let mut i: usize = 0;
    assert(peers@.take(0) =~= Seq::<P>::empty());
    assert(effects_view(effects@) =~= expired_effects::<A, P, S, C>(peers@.take(0)));
    while i < peers.len()
        invariant
            i <= peers@.len(),
            effects_view(effects@) == expired_effects::<A, P, S, C>(peers@.take(i as int)),
        decreases peers@.len() - i,
    {
        let peer = peers[i];
        let ghost old_effects = effects@;
        effects.push(Effect::RemoveExplicitPeer(peer));
        effects.push(Effect::RemovePeer(peer));
        effects.push(Effect::RemoveFromPartialView(peer));
        proof {
            assert(peers@.take(i + 1).drop_last() =~= peers@.take(i as int));
            assert(effects_view(effects@) =~= effects_view(old_effects) + seq![
                EffectView::RemoveExplicitPeer(peer),
                EffectView::RemovePeer(peer),
                EffectView::RemoveFromPartialView(peer),
            ]);
        }
        i = i + 1;
    }
    assert(peers@.take(peers@.len() as int) =~= peers@);
    effects
}


} // verus!
