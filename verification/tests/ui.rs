use jiri::p2p::event::Event;
use jiri::p2p::message::Message;
use jiri::ui::color::Color;
use jiri::ui::main_app::{MainApp, Submission};
use jiri::ui::text_format::align_right;
use jiri::ui::web_app::JiriWebApp;
use jiri::wasm::event::Event as WasmEvent;

#[test]
fn right_alignment_pads_to_twenty() {
    assert_eq!(align_right("hi", 20), format!("{: >20}", "hi"));
    assert_eq!(align_right("hi", 20).len(), 20);
    let long = "x".repeat(25);
    assert_eq!(align_right(&long, 20), long);
    assert_eq!(align_right("héé", 5), "  héé");
}

#[test]
fn new_window_offers_local_address() {
    let app = MainApp::new();
    assert_eq!(app.text(), "/ip4/127.0.0.1/tcp/8081/ws");
    assert!(!app.connected());
    assert!(app.messages().is_empty());
}

#[test]
fn events_are_logged() {
    let mut app = MainApp::new();
    app.handle_event(Event::Connected("peer1".to_string()));
    assert!(app.connected());
    assert_eq!(app.text(), "");
    app.handle_event(Event::Msg(Message::Text { source_peer_id: "p".to_string(), text: "hey".to_string() }));
    app.handle_event(Event::Disconnected("peer1".to_string()));
    assert!(app.connected());
    app.handle_event(Event::Error("boom".to_string()));
    assert!(!app.connected());
    let lines = app.messages();
    assert_eq!(lines[0], (Color::Yellow, "Connected to peer1".to_string()));
    assert_eq!(lines[1], (Color::Green, "hey".to_string()));
    assert_eq!(lines[2], (Color::Yellow, "Disconnected to peer1".to_string()));
    assert_eq!(lines[3], (Color::Red, "Error: boom".to_string()));
}

#[test]
fn chat_is_logged_and_cleared() {
    let mut app = MainApp::new();
    app.handle_event(Event::Connected("p".to_string()));
    app.set_text("hello".to_string());
    match app.submit() {
        Submission::Chat(t) => assert_eq!(t, "hello"),
        _ => panic!("expected a chat"),
    }
    assert_eq!(app.text(), "");
    assert_eq!(app.messages()[1], (Color::LightBlue, format!("{: >20}", "hello")));
}

#[test]
fn invalid_address_is_reported() {
    let mut app = MainApp::new();
    app.set_text("not an address".to_string());
    assert!(matches!(app.submit(), Submission::Nothing));
    assert_eq!(app.messages()[0], (Color::Red, "Invalid multiaddr not an address".to_string()));
}

#[test]
fn valid_address_is_dialled() {
    let mut app = MainApp::new();
    match app.submit() {
        Submission::Dial(addr) => assert_eq!(addr.to_string(), "/ip4/127.0.0.1/tcp/8081/ws"),
        _ => panic!("expected a dial"),
    }
    assert!(app.messages().is_empty());
}

#[test]
fn web_app_logs_and_connects() {
    let mut app = JiriWebApp::new();
    app.set_message("out".to_string());
    assert_eq!(app.send_message(), "out");
    assert_eq!(app.message(), "out");
    app.handle_event(WasmEvent::Message("in".to_string()));
    app.handle_event(WasmEvent::Connected("/ip4/1.1.1.1".to_string()));
    assert!(app.connected());
    assert_eq!(app.messages()[0], (Color::LightBlue, "out".to_string()));
    assert_eq!(app.messages()[1], (Color::Green, "in".to_string()));
}
