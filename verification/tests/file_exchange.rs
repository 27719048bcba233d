use jiri::p2p::file_exchange::{
    FileExchangeCodec, FileExchangeProtocol, FileRequest, FileResponse, FrameError,
};

#[test]
fn protocol_name_is_the_file_exchange_protocol() {
    assert_eq!(FileExchangeProtocol().protocol_name(), b"/jiri-file-exchange/1".to_vec());
}

#[test]
fn request_round_trips() {
    let mut codec = FileExchangeCodec();
    let protocol = FileExchangeProtocol();
    let bytes = codec.write_request(&protocol, FileRequest("notes.txt".to_string())).unwrap();
    assert_eq!(bytes[0], 9);
    assert_eq!(&bytes[1..], b"notes.txt");
    let back = codec.read_request(&protocol, &bytes).unwrap().unwrap();
    assert_eq!(back, FileRequest("notes.txt".to_string()));
}

#[test]
fn long_name_gets_two_length_bytes() {
    let mut codec = FileExchangeCodec();
    let protocol = FileExchangeProtocol();
    let name = "a".repeat(200);
    let bytes = codec.write_request(&protocol, FileRequest(name.clone())).unwrap();
    assert_eq!(&bytes[..2], &[0xc8, 0x01]);
    assert_eq!(bytes.len(), 202);
    let back = codec.read_request(&protocol, &bytes).unwrap().unwrap();
    assert_eq!(back.0, name);
}

#[test]
fn response_round_trips() {
    let mut codec = FileExchangeCodec();
    let protocol = FileExchangeProtocol();
    let response = FileResponse { file_name: "f.bin".to_string(), file: vec![0, 1, 2, 255] };
    let bytes = codec.write_response(&protocol, response.clone()).unwrap();
    assert_eq!(bytes, vec![5, b'f', b'.', b'b', b'i', b'n', 4, 0, 1, 2, 255]);
    let back = codec.read_response(&protocol, &bytes).unwrap().unwrap();
    assert_eq!(back, response);
}

#[test]
fn empty_input_is_unexpected_eof() {
    let mut codec = FileExchangeCodec();
    let protocol = FileExchangeProtocol();
    assert_eq!(codec.read_request(&protocol, &[]), Some(Err(FrameError::UnexpectedEof)));
    assert_eq!(codec.read_response(&protocol, &[]), Some(Err(FrameError::UnexpectedEof)));
}

#[test]
fn empty_name_is_unexpected_eof() {
    let mut codec = FileExchangeCodec();
    let protocol = FileExchangeProtocol();
    let bytes = codec.write_request(&protocol, FileRequest(String::new())).unwrap();
    assert_eq!(bytes, vec![0]);
    assert_eq!(codec.read_request(&protocol, &bytes), Some(Err(FrameError::UnexpectedEof)));
}

#[test]
fn empty_file_is_unexpected_eof() {
    let mut codec = FileExchangeCodec();
    let protocol = FileExchangeProtocol();
    let response = FileResponse { file_name: "x".to_string(), file: vec![] };
    let bytes = codec.write_response(&protocol, response).unwrap();
    assert_eq!(codec.read_response(&protocol, &bytes), Some(Err(FrameError::UnexpectedEof)));
}

#[test]
fn truncated_frame_is_unexpected_eof() {
    let mut codec = FileExchangeCodec();
    let protocol = FileExchangeProtocol();
    assert_eq!(codec.read_request(&protocol, &[5, b'a', b'b']), Some(Err(FrameError::UnexpectedEof)));
}

#[test]
fn oversized_name_is_invalid_data() {
    let mut codec = FileExchangeCodec();
    let protocol = FileExchangeProtocol();
    // 1_000_001 as a variable-length integer, with no data after it.
    let bytes = [0xc1, 0x84, 0x3d];
    assert_eq!(codec.read_request(&protocol, &bytes), Some(Err(FrameError::InvalidData)));
}

#[test]
fn name_that_is_not_utf8_gives_up() {
    let mut codec = FileExchangeCodec();
    let protocol = FileExchangeProtocol();
    assert!(codec.read_request(&protocol, &[2, 0xff, 0xfe]).is_none());
    assert!(codec.read_response(&protocol, &[2, 0xff, 0xfe, 1, 7]).is_none());
}

#[test]
fn length_prefix_that_overruns_the_reader_gives_up() {
    let mut codec = FileExchangeCodec();
    let protocol = FileExchangeProtocol();
    // A two-byte length whose last byte is zero, then enough bytes to fill the reader.
    let mut request = vec![0x80, 0x00];
    request.extend_from_slice(&[1; 8]);
    assert!(codec.read_request(&protocol, &request).is_none());
    let mut response = vec![1, b'a', 0x80, 0x00];
    response.extend_from_slice(&[1; 8]);
    assert!(codec.read_response(&protocol, &response).is_none());
}

#[test]
fn short_non_minimal_length_is_unexpected_eof() {
    let mut codec = FileExchangeCodec();
    let protocol = FileExchangeProtocol();
    assert_eq!(codec.read_request(&protocol, &[0x80, 0x00, 1]), Some(Err(FrameError::UnexpectedEof)));
}

#[test]
fn oversized_file_is_invalid_data() {
    let mut codec = FileExchangeCodec();
    let protocol = FileExchangeProtocol();
    // A one-byte name, then 536_870_913 as a variable-length integer.
    let bytes = [1, b'a', 0x81, 0x80, 0x80, 0x80, 0x02];
    assert_eq!(codec.read_response(&protocol, &bytes), Some(Err(FrameError::InvalidData)));
    // The same length in front of a name.
    assert_eq!(codec.read_response(&protocol, &bytes[2..]), Some(Err(FrameError::InvalidData)));
}

#[test]
fn name_of_the_largest_size_round_trips() {
    let mut codec = FileExchangeCodec();
    let protocol = FileExchangeProtocol();
    let name = "n".repeat(1_000_000);
    let bytes = codec.write_request(&protocol, FileRequest(name.clone())).unwrap();
    assert_eq!(codec.read_request(&protocol, &bytes), Some(Ok(FileRequest(name))));
}

#[test]
fn input_ending_inside_a_frame_is_unexpected_eof() {
    let mut codec = FileExchangeCodec();
    let protocol = FileExchangeProtocol();
    // Inside the length: a byte that says more follow, then the end.
    assert_eq!(codec.read_request(&protocol, &[0x80]), Some(Err(FrameError::UnexpectedEof)));
    assert_eq!(codec.read_response(&protocol, &[0x80, 0x80]), Some(Err(FrameError::UnexpectedEof)));
    // Inside the file's data.
    assert_eq!(codec.read_response(&protocol, &[1, b'a', 3, 1, 2]), Some(Err(FrameError::UnexpectedEof)));
    // Inside the file's length.
    assert_eq!(codec.read_response(&protocol, &[1, b'a', 0x90]), Some(Err(FrameError::UnexpectedEof)));
}

#[test]
fn name_without_a_file_is_unexpected_eof() {
    let mut codec = FileExchangeCodec();
    let protocol = FileExchangeProtocol();
    assert_eq!(codec.read_response(&protocol, &[1, b'a']), Some(Err(FrameError::UnexpectedEof)));
    assert_eq!(codec.read_response(&protocol, &[1, b'a', 0]), Some(Err(FrameError::UnexpectedEof)));
}
