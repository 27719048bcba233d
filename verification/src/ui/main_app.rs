use vstd::prelude::*;

use crate::p2p::address::{multiaddr_of, parse_multiaddr};
use crate::p2p::event::{Event, EventView};
use crate::p2p::message::{Message, MessageView};
use crate::ui::color::Color;
use crate::ui::text_format::{align_right, prefixed, right_aligned};

verus! {

/// The width in which messages sent from here are right-aligned in the log.
pub const SENT_WIDTH: usize = 20;

/// The state of the browser chat window of a node: the log of lines shown, whether the
/// node is connected, and the text being typed.
pub struct MainApp {
    messages: Vec<(Color, String)>,
    connected: bool,
    text: String,
}

/// What a [`MainApp`] holds, as mathematical values.
#[verifier::ext_equal]
pub struct MainAppView {
    pub messages: Seq<(Color, Seq<char>)>,
    pub connected: bool,
    pub text: Seq<char>,
}

/// The lines of a log, as mathematical values.
pub open spec fn log_view(lines: Seq<(Color, String)>) -> Seq<(Color, Seq<char>)> {
    lines.map_values(|l: (Color, String)| (l.0, l.1@))
}

impl View for MainApp {
    type V = MainAppView;

    closed spec fn view(&self) -> MainAppView {
        MainAppView {
            messages: log_view(self.messages@),
            connected: self.connected,
            text: self.text@,
        }
    }
}

/// What pressing enter does: chat when connected, otherwise dial the typed address.
pub enum Submission {
    /// Send this text as a chat message.
    Chat(String),
    /// Dial this address.
    Dial(multiaddr::Multiaddr),
    /// The typed text was not an address; the log says so.
    Nothing,
}

/// The state after an event reaches the window.
pub open spec fn main_app_event(state: MainAppView, event: EventView<String>) -> MainAppView {
    match event {
        EventView::Msg(MessageView::Text { source_peer_id, text }) => MainAppView {
            messages: state.messages.push((Color::Green, text)),
            ..state
        },
        EventView::Msg(_) => state,
        EventView::Connected(peer) => MainAppView {
            messages: state.messages.push((Color::Yellow, "Connected to "@ + peer@)),
            connected: true,
            text: seq![],
        },
        EventView::Disconnected(peer) => MainAppView {
            messages: state.messages.push((Color::Yellow, "Disconnected to "@ + peer@)),
            connected: true,
            ..state
        },
        EventView::Error(e) => MainAppView {
            messages: state.messages.push((Color::Red, "Error: "@ + e)),
            connected: false,
            ..state
        },
    }
}

/// The state after chatting the typed text: it is logged right-aligned and cleared.
pub open spec fn main_app_chat(state: MainAppView) -> MainAppView {
    MainAppView {
        messages: state.messages.push((Color::LightBlue, right_aligned(state.text, SENT_WIDTH as nat))),
        text: seq![],
        ..state
    }
}

/// The state after dialling the typed text: unchanged where it is an address, otherwise
/// with a line saying it is not.
pub open spec fn main_app_dial(state: MainAppView) -> MainAppView {
    if multiaddr_of(state.text) is Some {
        state
    } else {
        MainAppView {
            messages: state.messages.push((Color::Red, "Invalid multiaddr "@ + state.text)),
            ..state
        }
    }
}

impl MainApp {
    /// A window with an empty log, not connected, offering the local websocket address.
    pub fn new() -> (app: Self)
        ensures
            app@.messages == Seq::<(Color, Seq<char>)>::empty(),
            !app@.connected,
            app@.text == "/ip4/127.0.0.1/tcp/8081/ws"@,
    {
        let app = MainApp {
            messages: Vec::new(),
            connected: false,
            text: String::from_str("/ip4/127.0.0.1/tcp/8081/ws"),
        };
        assert(app@.messages =~= Seq::<(Color, Seq<char>)>::empty());
        app
    }

    /// The lines of the log, oldest first.
    pub fn messages(&self) -> (m: &Vec<(Color, String)>)
        ensures
            log_view(m@) == self@.messages,
    {
        &self.messages
    }

    /// Whether the node is connected.
    pub fn connected(&self) -> (c: bool)
        ensures
            c == self@.connected,
    {
        self.connected
    }

    /// The text being typed.
    pub fn text(&self) -> (t: &String)
        ensures
            t@ == self@.text,
    {
        &self.text
    }

    /// Replaces the text being typed.
    pub fn set_text(&mut self, text: String)
        ensures
            final(self)@ == (MainAppView { text: text@, ..old(self)@ }),
    {
        self.text = text;
    }

    /// Shows an event of the node: messages go to the log, connections and errors are
    /// logged and change whether the window counts as connected.
    pub fn handle_event(&mut self, event: Event<String>)
        ensures
            final(self)@ == main_app_event(old(self)@, event@),
    {
        let ghost before = self@;
        let ghost ev = event@;
        match event {
            Event::Msg(Message::Text { source_peer_id, text }) => {
                self.messages.push((Color::Green, text));
            },
            Event::Msg(_) => {},
            Event::Connected(peer) => {
                self.connected = true;
                self.text = String::new();
                self.messages.push((Color::Yellow, prefixed("Connected to ", peer.as_str())));
            },
            Event::Disconnected(peer) => {
                self.connected = true;
                self.messages.push((Color::Yellow, prefixed("Disconnected to ", peer.as_str())));
            },
            Event::Error(e) => {
                self.connected = false;
                self.messages.push((Color::Red, prefixed("Error: ", e.as_str())));
            },
        }
        assert(self@.messages =~= main_app_event(before, ev).messages);
    }

    /// Sends the typed text as a chat message: logs it right-aligned, clears it, and
    /// returns it to be sent.
    pub fn send_chat(&mut self) -> (sent: String)
        ensures
            sent@ == old(self)@.text,
            final(self)@ == main_app_chat(old(self)@),
    {
        let ghost before = self@;
        let line = align_right(self.text.as_str(), SENT_WIDTH);
        self.messages.push((Color::LightBlue, line));
        let sent = self.text.clone();
        self.text = String::new();
        assert(self@.messages =~= main_app_chat(before).messages);
        sent
    }

    /// Dials the typed text: returns the address parsed from it where it is one, and
    /// otherwise logs that it is not.
    pub fn send_dial(&mut self) -> (address: Option<multiaddr::Multiaddr>)
        ensures
            address == multiaddr_of(old(self)@.text),
            final(self)@ == main_app_dial(old(self)@),
    {
        let ghost before = self@;
        let address = parse_multiaddr(self.text.as_str());
        if address.is_none() {
            let line = prefixed("Invalid multiaddr ", self.text.as_str());
            self.messages.push((Color::Red, line));
        }
        assert(self@.messages =~= main_app_dial(before).messages);
        address
    }

    /// What pressing enter does: chat when connected, otherwise dial.
    pub fn submit(&mut self) -> (s: Submission)
        ensures
            old(self)@.connected ==> (s matches Submission::Chat(t) && t@ == old(self)@.text
                && final(self)@ == main_app_chat(old(self)@)),
            !old(self)@.connected ==> final(self)@ == main_app_dial(old(self)@) && (s is Dial
                <==> multiaddr_of(old(self)@.text) is Some) && !(s is Chat),
            s matches Submission::Dial(a) ==> Some(a) == multiaddr_of(old(self)@.text),
    {
        if self.connected {
            Submission::Chat(self.send_chat())
        } else {
            match self.send_dial() {
                Some(address) => Submission::Dial(address),
                None => Submission::Nothing,
            }
        }
    }
}

} // verus!
