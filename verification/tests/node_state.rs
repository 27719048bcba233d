use jiri::node::command::Command;
use jiri::node::message::Message;
use jiri::node::node_state::{Node, NodeAction, NodeEffect, NodeError, NodeEvent};
use jiri::p2p::file_exchange::{FileRequest, FileResponse};

type Ev = NodeEvent<String, u32, u16>;

#[test]
fn providing_stores_then_announces() {
    let node: Node<u8> = Node::new();
    let cmd: Command<u32, u8, u16> = Command::StartFileProviding {
        file_name: "b".to_string(),
        file: vec![1],
        sender: 3,
    };
    match node.handle_command(cmd) {
        NodeAction::StoreAndProvide { file_name, file, key, sender } => {
            assert_eq!(file_name, "b");
            assert_eq!(file, vec![1]);
            assert_eq!(key, b"b".to_vec());
            assert_eq!(sender, 3);
        }
        _ => panic!("expected storing and providing"),
    }
}

#[test]
fn file_request_is_served_from_storage() {
    let mut node: Node<u8> = Node::new();
    let ev: Ev = NodeEvent::FileRequested { request: FileRequest("c".to_string()), channel: 4 };
    let (effects, error) = node.handle_event(ev);
    assert!(error.is_none());
    assert!(matches!(&effects[..], [NodeEffect::ServeStoredFile { file_name, channel: 4 }] if file_name == "c"));
}

#[test]
fn node_delivers_a_file_once() {
    let mut node: Node<u8> = Node::new();
    node.record_file_request("d".to_string(), 1);
    let resp = || FileResponse { file_name: "d".to_string(), file: vec![5] };
    let (effects, _) = node.handle_event::<String, u32, u16>(NodeEvent::FileReceived { request_id: 1, response: resp() });
    assert!(matches!(&effects[..], [NodeEffect::Deliver(Message::File { file_name, .. })] if file_name == "d"));
    let (effects, _) = node.handle_event::<String, u32, u16>(NodeEvent::FileReceived { request_id: 1, response: resp() });
    assert!(effects.is_empty());
}

#[test]
fn node_routes_messages() {
    let mut node: Node<u8> = Node::new();
    let (effects, _) = node.handle_event::<String, u32, u16>(NodeEvent::Message { source: 1, message: Some(Message::Text("yo".to_string())) });
    assert!(matches!(&effects[..], [NodeEffect::Deliver(Message::Text(t))] if t == "yo"));
    let (effects, error) = node.handle_event::<String, u32, u16>(NodeEvent::Message { source: 1, message: None });
    assert!(effects.is_empty());
    assert_eq!(error, Some(NodeError::MalformedMessage));
}

#[test]
fn node_discovery_adds_gossip_and_routing() {
    let mut node: Node<u8> = Node::new();
    let ev: Ev = NodeEvent::PeersDiscovered(vec![(6, "addr".to_string())]);
    let (effects, _) = node.handle_event(ev);
    assert!(matches!(&effects[..], [NodeEffect::AddExplicitPeer(6), NodeEffect::AddAddress { peer: 6, .. }]));
}

#[test]
fn node_asks_one_provider_for_a_found_file() {
    let mut node: Node<u8> = Node::new();
    node.record_get_providers(2);
    let ev: Ev = NodeEvent::ProvidersFound { query: 2, key: b"e".to_vec(), providers: vec![7, 8, 9] };
    let (effects, error) = node.handle_event(ev);
    assert!(error.is_none());
    assert!(matches!(
        &effects[..],
        [NodeEffect::FinishQuery(2), NodeEffect::Enqueue(Command::RequestFile { file_name, peer: 7 })] if file_name == "e"
    ));
}
