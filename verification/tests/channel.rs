use encrypted_chat::encstream::decode_message;
use encrypted_chat::ChannelError;
use encrypted_chat::ChannelState;
use encrypted_chat::Crypto;
use encrypted_chat::CryptoError;
use encrypted_chat::EncryptedStream;
use encrypted_chat::PrimeDiffieHellman;
use encrypted_chat::Received;

fn connected_pair() -> (EncryptedStream, EncryptedStream) {
    let mut server = EncryptedStream::new();
    let mut client = EncryptedStream::new();
    let server_key = server.dh_handshake().unwrap();
    let client_key = client.dh_handshake().unwrap();
    assert!(server.establish(&client_key));
    assert!(client.establish(&server_key));
    (server, client)
}

#[test]
fn a_new_channel_is_unestablished() {
    let stream = EncryptedStream::new();
    assert_eq!(stream.current_state(), ChannelState::Unestablished);
}

#[test]
fn the_handshake_goes_through_its_states() {
    let mut stream = EncryptedStream::new();
    let public = stream.dh_handshake();
    assert!(public.is_some());
    assert_eq!(stream.current_state(), ChannelState::Handshaking);
    assert!(stream.establish(&[0u8; 16]));
    assert_eq!(stream.current_state(), ChannelState::Ready);
    stream.close();
    assert_eq!(stream.current_state(), ChannelState::Closed);
}

#[test]
fn the_public_key_is_a_power_of_the_generator() {
    let dh = PrimeDiffieHellman::new();
    let mut powers = Vec::new();
    for private in 1..=995u128 {
        powers.push(dh.gen_pub_key(private));
    }
    for _ in 0..20 {
        let mut stream = EncryptedStream::new();
        let wire = stream.dh_handshake().unwrap();
        assert!(powers.contains(&dh.deserialize(&wire)));
    }
}

#[test]
fn a_second_handshake_is_refused() {
    let mut stream = EncryptedStream::new();
    assert!(stream.dh_handshake().is_some());
    assert_eq!(stream.dh_handshake(), None);
    assert_eq!(stream.current_state(), ChannelState::Handshaking);
    assert!(stream.establish(&[1u8; 16]));
    assert_eq!(stream.dh_handshake(), None);
    assert_eq!(stream.current_state(), ChannelState::Ready);
}

#[test]
fn establish_needs_a_handshake_in_progress() {
    let mut stream = EncryptedStream::new();
    assert!(!stream.establish(&[1u8; 16]));
    assert_eq!(stream.current_state(), ChannelState::Unestablished);
    stream.dh_handshake();
    assert!(stream.establish(&[1u8; 16]));
    assert!(!stream.establish(&[1u8; 16]));
    assert_eq!(stream.current_state(), ChannelState::Ready);
}

#[test]
fn only_a_ready_channel_sends_and_receives() {
    let mut stream = EncryptedStream::new();
    assert_eq!(stream.send("hi"), Err(ChannelError::NotReady));
    assert_eq!(stream.recv(&[1, 2, 3]), Err(ChannelError::NotReady));
    stream.dh_handshake();
    assert_eq!(stream.send("hi"), Err(ChannelError::NotReady));
    assert_eq!(stream.recv(&[]), Err(ChannelError::NotReady));
    stream.establish(&[0u8; 16]);
    assert!(stream.send("hi").is_ok());
    stream.close();
    assert_eq!(stream.send("hi"), Err(ChannelError::NotReady));
    assert_eq!(stream.receive(&[1, 2, 3]), Err(ChannelError::NotReady));
}

#[test]
fn close_is_idempotent() {
    let (mut server, _client) = connected_pair();
    server.close();
    assert_eq!(server.current_state(), ChannelState::Closed);
    server.close();
    assert_eq!(server.current_state(), ChannelState::Closed);
    assert!(!server.establish(&[0u8; 16]));
    assert_eq!(server.dh_handshake(), None);
}

#[test]
fn both_ends_hold_the_same_key() {
    for _ in 0..20 {
        let (server, client) = connected_pair();
        let frame = server.send("Enter username: ").unwrap();
        assert_eq!(client.recv(&frame), Ok(Received::Text("Enter username: ".to_string())));
        let answer = client.send("alice").unwrap();
        assert_eq!(server.recv(&answer), Ok(Received::Text("alice".to_string())));
    }
}

#[test]
fn text_arrives_as_it_was_sent() {
    let (server, client) = connected_pair();
    for text in ["", "hi", " padded \n", "Username taken!\nEnter username: ", "za\u{17c}\u{f3}\u{142}\u{107}", "\u{3000}"] {
        let frame = server.send(text).unwrap();
        assert_eq!(frame.len() % 16, 0);
        assert_eq!(client.recv(&frame), Ok(Received::Text(text.to_string())));
        assert_eq!(client.receive(&frame), Ok(Received::Text(text.to_string())));
    }
}

#[test]
fn text_arrives_through_a_full_receive_buffer() {
    let (server, client) = connected_pair();
    let frame = server.send("hello").unwrap();
    let mut buffer = vec![0u8; encrypted_chat::encstream::RECEIVE_BUFFER_LEN];
    buffer[..frame.len()].copy_from_slice(&frame);
    assert_eq!(client.recv(&buffer), Ok(Received::Text("hello".to_string())));
}

#[test]
fn an_empty_read_is_the_end_of_the_stream() {
    let (server, _client) = connected_pair();
    assert_eq!(server.recv(&[]), Ok(Received::EndOfStream));
}

#[test]
fn what_cannot_be_decrypted_is_dropped() {
    let (server, _client) = connected_pair();
    assert_eq!(server.recv(&[1, 2, 3]), Ok(Received::Dropped));
    assert_eq!(server.recv(&[0u8; 64]), Ok(Received::Dropped));
}

#[test]
fn what_is_not_utf8_is_dropped() {
    let mut stream = EncryptedStream::new();
    stream.dh_handshake();
    stream.establish(&[0u8; 16]);
    let mut crypto = PrimeDiffieHellman::new();
    let zero_secret = crypto.pad_be(0);
    crypto.init_key(&zero_secret);
    let valid = crypto.encrypt("ok".as_bytes()).unwrap();
    assert_eq!(stream.recv(&valid), Ok(Received::Text("ok".to_string())));
    let invalid = crypto.encrypt(&[0xff, 0xfe]).unwrap();
    assert_eq!(stream.recv(&invalid), Ok(Received::Dropped));
    let cut_short = crypto.encrypt(&[0xc5]).unwrap();
    assert_eq!(stream.recv(&cut_short), Ok(Received::Dropped));
}

#[test]
fn a_garbage_peer_key_gives_a_channel_that_works_with_nobody() {
    let mut server = EncryptedStream::new();
    let mut client = EncryptedStream::new();
    server.dh_handshake();
    let client_key = client.dh_handshake().unwrap();
    assert!(server.establish(&client_key));
    assert!(client.establish(&[0xab; 16]));
    assert_eq!(client.current_state(), ChannelState::Ready);
    assert!(client.send("hi").is_ok());
}

#[test]
fn decode_message_tells_text_from_the_rest() {
    assert_eq!(decode_message(Ok(b"hi".to_vec())), Received::Text("hi".to_string()));
    assert_eq!(decode_message(Ok(vec![])), Received::Text(String::new()));
    assert_eq!(decode_message(Ok(vec![0x80])), Received::Dropped);
    assert_eq!(decode_message(Err(CryptoError::Cipher)), Received::Dropped);
    assert_eq!(decode_message(Err(CryptoError::Malformed)), Received::Dropped);
    assert_eq!(decode_message(Err(CryptoError::TooLong)), Received::Dropped);
}

#[test]
fn a_clone_reads_what_the_peer_wrote() {
    let (server, client) = connected_pair();
    let handle = server.try_clone();
    assert_eq!(handle.current_state(), ChannelState::Ready);
    let frame = client.send("hello").unwrap();
    assert_eq!(handle.recv(&frame), Ok(Received::Text("hello".to_string())));
    assert_eq!(handle.send("same"), server.send("same"));
}

#[test]
fn closing_a_clone_leaves_the_first_handle_open() {
    let (server, _client) = connected_pair();
    let mut handle = server.try_clone();
    handle.close();
    assert_eq!(handle.current_state(), ChannelState::Closed);
    assert_eq!(server.current_state(), ChannelState::Ready);
}

#[test]
fn a_closed_channel_has_forgotten_its_key() {
    let (mut server, client) = connected_pair();
    let frame = client.send("hello").unwrap();
    server.close();
    let mut reopened = EncryptedStream::new();
    reopened.dh_handshake();
    reopened.establish(&[0u8; 16]);
    assert_eq!(server.recv(&frame), Err(ChannelError::NotReady));
}
