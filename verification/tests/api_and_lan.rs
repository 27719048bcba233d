use jiri::p2p::listen::{listen_address, tcp_address};
use jiri::api::handler::{api_message, file_offer_commands, file_offer_next, ws_frame, FileOfferStage, WsFrame};
use jiri::p2p::command::Command;
use jiri::p2p::event::Event;
use jiri::p2p::message::Message;
use jiri::wasm::lan::{handle_lan_event, speaks_kademlia, LanEffect, LanEvent};

#[test]
fn posted_body_becomes_anonymous_text() {
    match api_message(b"hi there") {
        Message::Text { source_peer_id, text } => {
            assert_eq!(source_peer_id, "ANONYMOUS FROM API");
            assert_eq!(text, "hi there");
        }
        _ => panic!("expected text"),
    }
    match api_message(&[b'a', 0xff]) {
        Message::Text { text, .. } => assert_eq!(text, "a\u{fffd}"),
        _ => panic!("expected text"),
    }
}

#[test]
fn subscribers_get_texts_and_files() {
    let text: Event<u8> = Event::Msg(Message::Text { source_peer_id: "p".to_string(), text: "t".to_string() });
    assert_eq!(ws_frame(text), Some(WsFrame::Text("t".to_string())));
    let file: Event<u8> = Event::Msg(Message::File { file_name: "n".to_string(), file: vec![3] });
    assert_eq!(ws_frame(file), Some(WsFrame::Binary(vec![3])));
    assert_eq!(ws_frame(Event::<u8>::Msg(Message::FileAd("n".to_string()))), None);
    assert_eq!(ws_frame(Event::<u8>::Connected(1)), None);
}

#[test]
fn offering_a_file_provides_then_advertises() {
    let (first, second) = file_offer_commands::<String, u8, u8, u8>("z".to_string(), vec![1], 2);
    assert!(matches!(first, Command::StartFileProviding { file_name, sender: 2, .. } if file_name == "z"));
    assert!(matches!(second, Command::SendMessage(Message::FileAd(n)) if n == "z"));
}

#[test]
fn identified_kademlia_peer_addresses_are_added_twice() {
    let ev: LanEvent<String, u8> = LanEvent::IdentifyReceived {
        peer: 1,
        listen_addrs: vec!["a".to_string(), "b".to_string()],
        protocols: vec!["/ipfs/id/1.0.0".to_string(), "/jiri/lan/kad/1.0.0".to_string()],
        observed_addr: "o".to_string(),
    };
    let effects = handle_lan_event(ev);
    assert_eq!(effects.len(), 5);
    assert!(matches!(&effects[0], LanEffect::AddExternalAddress(o) if o == "o"));
    assert!(matches!(effects[1], LanEffect::AddListenAddress { peer: 1, index: 0 }));
    assert!(matches!(effects[2], LanEffect::AddListenAddress { peer: 1, index: 0 }));
    assert!(matches!(effects[3], LanEffect::AddListenAddress { peer: 1, index: 1 }));
    assert!(matches!(effects[4], LanEffect::AddListenAddress { peer: 1, index: 1 }));
}

#[test]
fn other_peers_only_give_an_external_address() {
    assert!(!speaks_kademlia(&vec!["/other".to_string()]));
    let ev: LanEvent<String, u8> = LanEvent::IdentifyReceived {
        peer: 1,
        listen_addrs: vec!["a".to_string()],
        protocols: vec![],
        observed_addr: "o".to_string(),
    };
    assert_eq!(handle_lan_event(ev).len(), 1);
    assert!(matches!(handle_lan_event::<String, u8>(LanEvent::ConnectionClosed(4))[..], [LanEffect::RemovePeer(4)]));
    assert!(handle_lan_event::<String, u8>(LanEvent::IdentifyFailed(4)).is_empty());
}

#[test]
fn listen_addresses_are_written_in_decimal() {
    assert_eq!(tcp_address([127, 0, 0, 1], 8080), "/ip4/127.0.0.1/tcp/8080");
    assert_eq!(tcp_address([255, 10, 0, 99], 0), "/ip4/255.10.0.99/tcp/0");
    let ws = listen_address([0, 0, 0, 0], 65535, true).unwrap();
    assert_eq!(ws.to_string(), "/ip4/0.0.0.0/tcp/65535/ws");
}

#[test]
fn file_offer_goes_through_its_stages() {
    let mut stage = FileOfferStage::SendProvide;
    stage = file_offer_next(stage, true);
    assert_eq!(stage, FileOfferStage::AwaitProvided);
    stage = file_offer_next(stage, true);
    assert_eq!(stage, FileOfferStage::SendAdvertisement);
    stage = file_offer_next(stage, true);
    assert_eq!(stage, FileOfferStage::Done(200));
    assert_eq!(file_offer_next(stage, false), FileOfferStage::Done(200));
}

#[test]
fn file_offer_failure_answers_internal_error() {
    assert_eq!(file_offer_next(FileOfferStage::SendProvide, false), FileOfferStage::Done(500));
    assert_eq!(file_offer_next(FileOfferStage::AwaitProvided, false), FileOfferStage::Done(500));
    assert_eq!(file_offer_next(FileOfferStage::SendAdvertisement, false), FileOfferStage::Done(500));
}
