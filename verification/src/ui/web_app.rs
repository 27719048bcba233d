use vstd::prelude::*;

use crate::ui::color::Color;
use crate::ui::main_app::log_view;
use crate::wasm::event::Event;

verus! {

/// The state of the in-browser chat window: the address to connect to, whether it is
/// connected, the message being typed and the log of lines shown.
pub struct JiriWebApp {
    label: String,
    remote_multiaddr: String,
    connected: bool,
    message: String,
    messages: Vec<(Color, String)>,
}

/// What a [`JiriWebApp`] holds, as mathematical values.
#[verifier::ext_equal]
pub struct JiriWebAppView {
    pub label: Seq<char>,
    pub remote_multiaddr: Seq<char>,
    pub connected: bool,
    pub message: Seq<char>,
    pub messages: Seq<(Color, Seq<char>)>,
}

impl View for JiriWebApp {
    type V = JiriWebAppView;

    closed spec fn view(&self) -> JiriWebAppView {
        JiriWebAppView {
            label: self.label@,
            remote_multiaddr: self.remote_multiaddr@,
            connected: self.connected,
            message: self.message@,
            messages: log_view(self.messages@),
        }
    }
}

/// The state after an event reaches the window.
pub open spec fn web_app_event(state: JiriWebAppView, event: Event) -> JiriWebAppView {
    match event {
        Event::Message(m) => JiriWebAppView {
            messages: state.messages.push((Color::Green, m@)),
            ..state
        },
        Event::Connected(_) => JiriWebAppView { connected: true, ..state },
    }
}

impl JiriWebApp {
    /// A window with no address typed, not connected, and an empty log.
    pub fn new() -> (app: Self)
        ensures
            app@.label == "Hello World!"@,
            app@.remote_multiaddr == Seq::<char>::empty(),
            !app@.connected,
            app@.message == Seq::<char>::empty(),
            app@.messages == Seq::<(Color, Seq<char>)>::empty(),
    {
        let app = JiriWebApp {
            label: String::from_str("Hello World!"),
            remote_multiaddr: String::new(),
            connected: false,
            message: String::new(),
            messages: Vec::new(),
        };
        assert(app@.messages =~= Seq::<(Color, Seq<char>)>::empty());
        app
    }

    /// The lines of the log, oldest first.
    pub fn messages(&self) -> (m: &Vec<(Color, String)>)
        ensures
            log_view(m@) == self@.messages,
    {
        &self.messages
    }

    /// Whether the window is connected.
    pub fn connected(&self) -> (c: bool)
        ensures
            c == self@.connected,
    {
        self.connected
    }

    /// The address to connect to.
    pub fn remote_multiaddr(&self) -> (a: &String)
        ensures
            a@ == self@.remote_multiaddr,
    {
        &self.remote_multiaddr
    }

    /// Replaces the address to connect to.
    pub fn set_remote_multiaddr(&mut self, address: String)
        ensures
            final(self)@ == (JiriWebAppView { remote_multiaddr: address@, ..old(self)@ }),
    {
        self.remote_multiaddr = address;
    }

    /// The message being typed.
    pub fn message(&self) -> (m: &String)
        ensures
            m@ == self@.message,
    {
        &self.message
    }

    /// Replaces the message being typed.
    pub fn set_message(&mut self, message: String)
        ensures
            final(self)@ == (JiriWebAppView { message: message@, ..old(self)@ }),
    {
        self.message = message;
    }

    /// Shows an event of the node: a message goes to the log, a connection marks the
    /// window connected.
    pub fn handle_event(&mut self, event: Event)
        ensures
            final(self)@ == web_app_event(old(self)@, event),
    {
        let ghost before = self@;
        let ghost ev = event;
        match event {
            Event::Message(m) => {
                self.messages.push((Color::Green, m));
            },
            Event::Connected(_) => {
                self.connected = true;
            },
        }
        assert(self@.messages =~= web_app_event(before, ev).messages);
    }

    /// Sends the typed message: logs it and returns it to be sent. The typed text stays.
    pub fn send_message(&mut self) -> (sent: String)
        ensures
            sent@ == old(self)@.message,
            final(self)@ == (JiriWebAppView {
                messages: old(self)@.messages.push((Color::LightBlue, old(self)@.message)),
                ..old(self)@
            }),
    {
        let ghost before = self@;
        let sent = self.message.clone();
        self.messages.push((Color::LightBlue, self.message.clone()));
        assert(self@.messages =~= before.messages.push((Color::LightBlue, before.message)));
        sent
    }
}

} // verus!
