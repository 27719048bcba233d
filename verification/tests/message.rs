use jiri::p2p::message::Message;

#[test]
fn test_file() {
    let msg = Message::File {
        file_name: "file1".to_owned(),
        file: "file body".as_bytes().to_vec(),
    };

    assert!(matches!(msg, Message::File { .. }));
}
