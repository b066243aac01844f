use torrent_bootstrap::messages::{
    encode_frame, read_frame, HandShake, MessageTypes, PeerMessage, RawMessage,
};
use torrent_bootstrap::peer_stream::{
    check_handshake_reply, handshake_request, PeerConnectionData, PeerError, PeerStreamOpts,
};

#[test]
fn test() {}

#[test]
fn test_raw_message_from_bytes() {
    let input: Vec<u8> = vec![5, 1, 2, 3, 4, 5];
    let raw_message = RawMessage::from_bytes(&input[..]);
    assert_eq!(raw_message.message_id(), 5);
    let expected_payload: Vec<u8> = vec![1, 2, 3, 4, 5];
    assert_eq!(raw_message.payload(), expected_payload);
}

#[test]
fn test_raw_message_into_bytes() {
    let raw_message = RawMessage::Message {
        message_id: 5,
        payload: vec![1, 2, 3, 4, 5],
    };
    let expected_bytes: Vec<u8> = vec![5, 1, 2, 3, 4, 5];
    let bytes: Vec<u8> = raw_message.to_bytes();
    assert_eq!(bytes, expected_bytes);
}

#[test]
fn test_empty_raw_message_from_bytes() {
    let input: Vec<u8> = vec![];
    let raw_message = RawMessage::from_bytes(&input[..]);
    assert_eq!(raw_message.message_id(), 0);
    let expected_payload: Vec<u8> = vec![];
    assert_eq!(raw_message.payload(), expected_payload);
    assert_eq!(raw_message, RawMessage::KeepAlive);
}

#[test]
fn test_empty_raw_message_into_bytes() {
    let raw_message = RawMessage::Message {
        message_id: 0,
        payload: vec![],
    };
    let expected_bytes: Vec<u8> = vec![0];
    let bytes: Vec<u8> = raw_message.to_bytes();
    assert_eq!(bytes, expected_bytes);
}

#[test]
fn test_handshake_conversions() {
    let mut pstr = vec![0u8; 10];
    pstr.copy_from_slice("protocol88".as_bytes());
    let mut info_hash = vec![0u8; 20];
    info_hash.copy_from_slice("abcdefghijklmnopijuo".as_bytes());
    let mut peer_id = vec![0u8; 20];
    peer_id.copy_from_slice("abcdefghijklmnopijll".as_bytes());
    let handshake = HandShake {
        pstr,
        info_hash,
        peer_id,
    };

    let bytes: Vec<u8> = handshake.to_bytes();
    let new_handshake = HandShake::from_bytes(&bytes).unwrap();
    assert_eq!(handshake, new_handshake);
}

#[test]
fn test_peerstream_handshake() {
    let opts = PeerStreamOpts {
        protocol: "test_protocol".as_bytes().to_vec(),
        info_hash: vec![1u8; 20],
        peer_id: vec![2u8; 20],
    };
    let expected_response = HandShake {
        pstr: "test_protocol".as_bytes().to_vec(),
        info_hash: vec![1u8; 20],
        peer_id: vec![2u8; 20],
    };
    let read_data = expected_response.to_bytes();
    let request = handshake_request(opts);
    let response = check_handshake_reply(&request, &read_data).unwrap();
    assert_eq!(response.pstr, "test_protocol".as_bytes());
}

#[test]
fn test_peerstream_bad_info_hash() {
    let opts = PeerStreamOpts {
        protocol: "test_protocol".as_bytes().to_vec(),
        info_hash: vec![0u8; 20],
        peer_id: vec![2u8; 20],
    };
    let expected_response = HandShake {
        pstr: "test_protocol".as_bytes().to_vec(),
        info_hash: vec![1u8; 20],
        peer_id: vec![2u8; 20],
    };
    let read_data = expected_response.to_bytes();
    let request = handshake_request(opts);
    let response = check_handshake_reply(&request, &read_data);
    assert!(response.is_err());
    assert_eq!(
        response.err().unwrap().message(),
        "Peer info hash mismatch"
    );
}

#[test]
fn test_peerstream_bad_protocol() {
    let opts = PeerStreamOpts {
        protocol: "test_protocol".as_bytes().to_vec(),
        info_hash: vec![1u8; 20],
        peer_id: vec![0u8; 20],
    };
    let expected_response = HandShake {
        pstr: "test_protocok".as_bytes().to_vec(),
        info_hash: vec![1u8; 20],
        peer_id: vec![2u8; 20],
    };
    let read_data = expected_response.to_bytes();
    let request = handshake_request(opts);
    let response = check_handshake_reply(&request, &read_data);
    assert!(response.is_err());
    assert_eq!(
        response.err().unwrap().message(),
        "Peer protocol mismatch"
    );
}

#[test]
fn test_peerstream_read_message() {
    let read_data: Vec<u8> = vec![0, 0, 0, 4, 1, 2, 2, 4];
    let (response, used) = read_frame(&read_data).unwrap();
    assert_eq!(response.message_id(), 1);
    assert_eq!(response.payload(), vec![2, 2, 4]);
    assert_eq!(used, 8);
}

#[test]
fn test_peerstream_read_message_keep_alive() {
    let read_data: Vec<u8> = vec![0, 0, 0, 0];
    let (response, used) = read_frame(&read_data).unwrap();
    assert_eq!(response.message_id(), 0);
    assert_eq!(response.payload(), vec![]);
    assert_eq!(response, RawMessage::KeepAlive);
    assert_eq!(used, 4);
}

#[test]
fn choke_frame_is_a_message_not_a_keep_alive() {
    let read_data: Vec<u8> = vec![0, 0, 0, 1, 0];
    let (response, used) = read_frame(&read_data).unwrap();
    assert_eq!(
        response,
        RawMessage::Message {
            message_id: 0,
            payload: vec![],
        }
    );
    assert_eq!(used, 5);
}

#[test]
fn frame_encoding_matches_the_wire_layout() {
    assert_eq!(encode_frame(&RawMessage::KeepAlive), vec![0, 0, 0, 0]);
    let msg = RawMessage::Message {
        message_id: 1,
        payload: vec![2, 2, 4],
    };
    assert_eq!(encode_frame(&msg), vec![0, 0, 0, 4, 1, 2, 2, 4]);
}

#[test]
fn truncated_frame_is_bad_format() {
    assert!(read_frame(&[0, 0, 0, 5, 1, 2]).is_err());
    assert!(read_frame(&[0, 0]).is_err());
}

#[test]
fn message_type_zero_is_choke() {
    assert_eq!(MessageTypes::from_id(0), Some(MessageTypes::Choke));
    assert_eq!(MessageTypes::from_id(9), Some(MessageTypes::Port));
    assert_eq!(MessageTypes::from_id(10), None);
    assert_eq!(MessageTypes::Choke.id(), 0);
    assert_eq!(MessageTypes::Port.id(), 9);
}

#[test]
fn short_handshake_is_bad_format() {
    let bytes = vec![19u8; 30];
    assert!(HandShake::from_bytes(&bytes).is_err());
}

#[test]
fn peer_connection_data_round_trip() {
    let data = PeerConnectionData::new(vec![7u8; 20], vec![9u8; 20]);
    let bytes = data.to_bytes();
    assert_eq!(bytes.len(), 68);
    assert_eq!(bytes[0], 19);
    assert_eq!(&bytes[1..20], "BitTorrent protocol".as_bytes());
    let back = PeerConnectionData::from_bytes(&bytes).unwrap();
    assert_eq!(back, data);
}

#[test]
fn handshake_reply_that_does_not_decode_is_bad_protocol() {
    let opts = PeerStreamOpts {
        protocol: "test_protocol".as_bytes().to_vec(),
        info_hash: vec![1u8; 20],
        peer_id: vec![2u8; 20],
    };
    let request = handshake_request(opts);
    let response = check_handshake_reply(&request, &[255u8, 0u8]);
    assert_eq!(response.err(), Some(PeerError::BadProtocol));
}
