use jiri::p2p::command::Command;
use jiri::p2p::core_state::{Core, CoreError, Effect, NetworkAction, NetworkEvent};
use jiri::p2p::event::Event;
use jiri::p2p::file_exchange::{FileRequest, FileResponse};
use jiri::p2p::message::Message;
use std::collections::HashSet;

type Cmd = Command<String, u32, u8, u16>;
type Ev = NetworkEvent<String, u32, u16>;

#[test]
fn provided_file_is_served() {
    let mut core: Core<u8> = Core::new();
    let cmd: Cmd = Command::StartFileProviding {
        file_name: "a.txt".to_string(),
        file: b"hello".to_vec(),
        sender: 7,
    };
    match core.handle_command(cmd) {
        NetworkAction::StartProviding { key, sender } => {
            assert_eq!(key, b"a.txt".to_vec());
            assert_eq!(sender, 7);
        }
        _ => panic!("expected a provider announcement"),
    }
    let ev: Ev = NetworkEvent::FileRequested { request: FileRequest("a.txt".to_string()), channel: 3 };
    let (effects, error) = core.handle_event(ev);
    assert!(error.is_none());
    assert_eq!(effects.len(), 1);
    match &effects[0] {
        Effect::Enqueue(Command::ResponseFile { file_name, file, channel }) => {
            assert_eq!(file_name, "a.txt");
            assert_eq!(file, &b"hello".to_vec());
            assert_eq!(*channel, 3);
        }
        _ => panic!("expected a file response"),
    }
}

#[test]
fn unknown_file_is_refused() {
    let mut core: Core<u8> = Core::new();
    let ev: Ev = NetworkEvent::FileRequested { request: FileRequest("nope".to_string()), channel: 1 };
    let (effects, error) = core.handle_event(ev);
    assert!(effects.is_empty());
    assert!(matches!(error, Some(CoreError::FileNotFound(n)) if n == "nope"));
}

#[test]
fn response_is_reported_once() {
    let mut core: Core<u8> = Core::new();
    core.record_file_request("f".to_string(), 11);
    core.record_file_request("f".to_string(), 12);
    let response = || FileResponse { file_name: "f".to_string(), file: vec![1, 2] };
    let (effects, error) = core.handle_event::<String, u32, u16>(NetworkEvent::FileReceived {
        request_id: 11,
        response: response(),
    });
    assert!(error.is_none());
    assert!(matches!(
        &effects[..],
        [Effect::Emit(Event::Msg(Message::File { file_name, file }))] if file_name == "f" && file == &vec![1, 2]
    ));
    let (effects, error) = core.handle_event::<String, u32, u16>(NetworkEvent::FileReceived {
        request_id: 12,
        response: response(),
    });
    assert!(error.is_none());
    assert!(effects.is_empty());
}

#[test]
fn unrequested_response_is_dropped() {
    let mut core: Core<u8> = Core::new();
    let (effects, error) = core.handle_event::<String, u32, u16>(NetworkEvent::FileReceived {
        request_id: 1,
        response: FileResponse { file_name: "g".to_string(), file: vec![9] },
    });
    assert!(effects.is_empty() && error.is_none());
}

#[test]
fn providers_are_asked_once() {
    let mut core: Core<u8> = Core::new();
    core.record_get_providers(5);
    let ev: Ev = NetworkEvent::ProvidersFound { query: 5, key: b"doc".to_vec(), providers: vec![1, 2] };
    let (effects, error) = core.handle_event(ev);
    assert!(error.is_none());
    // One request only, to the first provider.
    assert_eq!(effects.len(), 2);
    assert!(matches!(effects[0], Effect::FinishQuery(5)));
    assert!(matches!(&effects[1], Effect::Enqueue(Command::RequestFile { file_name, peer: 1 }) if file_name == "doc"));
    let again: Ev = NetworkEvent::ProvidersFound { query: 5, key: b"doc".to_vec(), providers: vec![3] };
    let (effects, error) = core.handle_event(again);
    assert!(effects.is_empty() && error.is_none());
}

#[test]
fn invalid_key_stops_after_finishing_the_query() {
    let mut core: Core<u8> = Core::new();
    core.record_get_providers(8);
    let ev: Ev = NetworkEvent::ProvidersFound { query: 8, key: vec![0xff], providers: vec![1] };
    let (effects, error) = core.handle_event(ev);
    assert!(matches!(effects[..], [Effect::FinishQuery(8)]));
    assert!(matches!(error, Some(CoreError::InvalidFileName)));
}

#[test]
fn providing_is_signalled_once() {
    let mut core: Core<u8> = Core::new();
    core.record_start_providing(4, 42);
    let (effects, _) = core.handle_event::<String, u32, u16>(NetworkEvent::StartProvidingProgressed { query: 4 });
    assert!(matches!(effects[..], [Effect::SignalProvided(42)]));
    let (effects, _) = core.handle_event::<String, u32, u16>(NetworkEvent::StartProvidingProgressed { query: 4 });
    assert!(effects.is_empty());
}

#[test]
fn messages_are_routed() {
    let mut core: Core<u8> = Core::new();
    let ad: Ev = NetworkEvent::Message { source: 1, message: Some(Message::FileAd("x".to_string())) };
    let (effects, _) = core.handle_event(ad);
    assert!(matches!(&effects[..], [Effect::Enqueue(Command::GetFileProviders { file_name })] if file_name == "x"));
    let text: Ev = NetworkEvent::Message {
        source: 1,
        message: Some(Message::Text { source_peer_id: "p".to_string(), text: "hi".to_string() }),
    };
    let (effects, _) = core.handle_event(text);
    assert!(matches!(&effects[..], [Effect::Emit(Event::Msg(Message::Text { text, .. }))] if text == "hi"));
    let bad: Ev = NetworkEvent::Message { source: 1, message: None };
    let (effects, error) = core.handle_event(bad);
    assert!(effects.is_empty());
    assert!(matches!(error, Some(CoreError::MalformedMessage)));
}

#[test]
fn connections_are_tracked() {
    let mut core: Core<u8> = Core::new();
    let ev: Ev = NetworkEvent::ConnectionEstablished { peer: 9, address: "/ip4/1.2.3.4".to_string() };
    let (effects, _) = core.handle_event(ev);
    assert_eq!(effects.len(), 3);
    assert!(matches!(&effects[0], Effect::AddAddress { peer: 9, address } if address == "/ip4/1.2.3.4"));
    assert!(matches!(effects[1], Effect::AddToPartialView(9)));
    assert!(matches!(effects[2], Effect::Emit(Event::Connected(9))));
    let (effects, _) = core.handle_event::<String, u32, u16>(NetworkEvent::ConnectionClosed { peer: 9 });
    assert!(matches!(effects[..], [Effect::RemovePeer(9), Effect::RemoveFromPartialView(9), Effect::Emit(Event::Disconnected(9))]));
}

#[test]
fn discovered_peers_join_everything() {
    let mut core: Core<u8> = Core::new();
    let ev: Ev = NetworkEvent::PeersDiscovered(vec![(1, "a".to_string()), (2, "b".to_string())]);
    let (effects, _) = core.handle_event(ev);
    assert_eq!(effects.len(), 6);
    assert!(matches!(effects[0], Effect::AddExplicitPeer(1)));
    assert!(matches!(&effects[1], Effect::AddAddress { peer: 1, address } if address == "a"));
    assert!(matches!(effects[2], Effect::AddToPartialView(1)));
    assert!(matches!(effects[3], Effect::AddExplicitPeer(2)));
    let (effects, _) = core.handle_event::<String, u32, u16>(NetworkEvent::PeersExpired(vec![2]));
    assert!(matches!(effects[..], [Effect::RemoveExplicitPeer(2), Effect::RemovePeer(2), Effect::RemoveFromPartialView(2)]));
}

/// Carries out the membership effects on the explicit peers, the routing table and the
/// partial view.
fn apply(sets: &mut [HashSet<u32>; 3], effects: Vec<Effect<String, u32, u8, u16>>) {
    for e in effects {
        match e {
            Effect::AddExplicitPeer(p) => {
                sets[0].insert(p);
            }
            Effect::RemoveExplicitPeer(p) => {
                sets[0].remove(&p);
            }
            Effect::AddAddress { peer, .. } => {
                sets[1].insert(peer);
            }
            Effect::RemovePeer(p) => {
                sets[1].remove(&p);
            }
            Effect::AddToPartialView(p) => {
                sets[2].insert(p);
            }
            Effect::RemoveFromPartialView(p) => {
                sets[2].remove(&p);
            }
            _ => {}
        }
    }
}

#[test]
fn expiry_undoes_discovery() {
    let start: HashSet<u32> = [3].into_iter().collect();
    let mut sets = [start.clone(), start.clone(), start.clone()];
    let mut core: Core<u8> = Core::new();
    let found: Ev = NetworkEvent::PeersDiscovered(vec![(1, "a".to_string()), (2, "b".to_string())]);
    let (effects, _) = core.handle_event(found);
    apply(&mut sets, effects);
    for s in &sets {
        assert!(s.contains(&1) && s.contains(&2) && s.contains(&3));
    }
    let (effects, _) = core.handle_event::<String, u32, u16>(NetworkEvent::PeersExpired(vec![1, 2]));
    apply(&mut sets, effects);
    for s in &sets {
        assert_eq!(s, &start);
    }
}
