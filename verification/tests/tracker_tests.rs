use torrent_bootstrap::peers::PeerAddress;
use torrent_bootstrap::tracker::{
    bootstrap_descriptor, check_announce_datagram, check_connect_datagram, retry_delay_secs,
    AnnounceEvent, AnnounceRequest, AnnounceRequestDescriptor, AnnounceResponse, AnnounceVerdict,
    ConnectRequest, ConnectResponse, ConnectVerdict, TrackerError, TrackerSession,
};

fn sample_descriptor() -> AnnounceRequestDescriptor {
    AnnounceRequestDescriptor {
        connection_id: -99,
        peer_id: vec![2u8; 20],
        info_hash: vec![1u8; 20],
        downloaded: 10,
        left: 20,
        uploaded: 30,
        event: AnnounceEvent::Started,
    }
}

#[test]
fn connect_request_layout() {
    let request = ConnectRequest {
        protocol_id: 0x41727101980,
        action: 0,
        transaction_id: 0xDEADBEEF,
    };
    let bytes = request.to_bytes();
    assert_eq!(bytes.len(), 16);
    assert_eq!(&bytes[0..8], &[0, 0, 4, 23, 39, 16, 25, 128]);
    assert_eq!(&bytes[8..12], &[0, 0, 0, 0]);
    assert_eq!(&bytes[12..16], &[0xDE, 0xAD, 0xBE, 0xEF]);
}

#[test]
fn connect_request_round_trip() {
    let request = ConnectRequest::new();
    assert_eq!(request.protocol_id, 0x41727101980);
    assert_eq!(request.action, 0);
    let bytes = request.to_bytes();
    let back = ConnectRequest::from_bytes(&bytes).unwrap();
    assert_eq!(back, request);
}

#[test]
fn fresh_connect_requests_use_distinct_transaction_ids() {
    let a = ConnectRequest::new();
    let b = ConnectRequest::new();
    assert_ne!(a.transaction_id, b.transaction_id);
}

#[test]
fn connect_response_round_trip() {
    let response = ConnectResponse {
        action: 0,
        transaction_id: 77,
        connection_id: -12345678901234,
    };
    let bytes = response.to_bytes();
    assert_eq!(bytes.len(), 16);
    let back = ConnectResponse::from_bytes(&bytes).unwrap();
    assert_eq!(back, response);
}

#[test]
fn announce_request_round_trip() {
    let request = AnnounceRequest::new(sample_descriptor());
    assert_eq!(request.action, 1);
    assert_eq!(request.ip_address, 0);
    assert_eq!(request.num_want, -1);
    assert_eq!(request.port, 6881);
    let bytes = request.to_bytes();
    assert_eq!(bytes.len(), 98);
    let back = AnnounceRequest::from_bytes(&bytes).unwrap();
    assert_eq!(back, request);
}

#[test]
fn announce_request_bytes_round_trip() {
    // An arbitrary 98-byte datagram whose event field holds a known code.
    let mut bytes = vec![0u8; 98];
    for (i, b) in bytes.iter_mut().enumerate() {
        *b = (i as u8).wrapping_mul(37).wrapping_add(11);
    }
    bytes[80] = 0;
    bytes[81] = 0;
    bytes[82] = 0;
    bytes[83] = 2;
    let request = AnnounceRequest::from_bytes(&bytes).unwrap();
    assert_eq!(request.event, AnnounceEvent::Started);
    assert_eq!(request.to_bytes(), bytes);
}

#[test]
fn announce_request_with_unknown_event_code_is_rejected() {
    let mut bytes = vec![0u8; 98];
    bytes[83] = 4;
    assert!(AnnounceRequest::from_bytes(&bytes).is_err());
    assert!(AnnounceRequest::from_bytes(&bytes[..50]).is_err());
}

#[test]
fn announce_response_round_trip_counts_peers() {
    let peers = vec![
        PeerAddress {
            ip0: 10,
            ip1: 0,
            ip2: 0,
            ip3: 1,
            port: 6881,
        },
        PeerAddress {
            ip0: 192,
            ip1: 168,
            ip2: 1,
            ip3: 2,
            port: 51413,
        },
    ];
    let response = AnnounceResponse {
        action: 1,
        transaction_id: 5,
        interval: 1800,
        leechers: 3,
        seeders: 9,
        peers,
    };
    let bytes = response.to_bytes();
    assert_eq!(bytes.len(), 20 + 6 * 2);
    let back = AnnounceResponse::from_bytes(&bytes).unwrap();
    assert_eq!(back, response);
    assert_eq!(back.peers.len(), 2);
}

#[test]
fn announce_response_with_ragged_tail_is_rejected() {
    let bytes = vec![0u8; 23];
    assert!(AnnounceResponse::from_bytes(&bytes).is_err());
    let bytes = vec![0u8; 19];
    assert!(AnnounceResponse::from_bytes(&bytes).is_err());
    let bytes = vec![0u8; 26];
    assert!(AnnounceResponse::from_bytes(&bytes).is_ok());
}

#[test]
fn connect_wrong_transaction_id_is_dropped_then_accepted() {
    let expected: u32 = 4242;
    let stale = ConnectResponse {
        action: 0,
        transaction_id: 7,
        connection_id: 1,
    };
    let fresh = ConnectResponse {
        action: 0,
        transaction_id: expected,
        connection_id: 0x1122334455667788,
    };
    let first = check_connect_datagram(&stale.to_bytes(), true, expected);
    assert_eq!(first, ConnectVerdict::Ignored);
    let second = check_connect_datagram(&fresh.to_bytes(), true, expected);
    assert_eq!(
        second,
        ConnectVerdict::Accepted {
            connection_id: 0x1122334455667788,
        }
    );
}

#[test]
fn connect_checks_source_size_and_action() {
    let expected: u32 = 1;
    let good = ConnectResponse {
        action: 0,
        transaction_id: expected,
        connection_id: 5,
    };
    let foreign = check_connect_datagram(&good.to_bytes(), false, expected);
    assert_eq!(foreign, ConnectVerdict::Ignored);
    let short = check_connect_datagram(&[0u8; 10], true, expected);
    assert_eq!(
        short,
        ConnectVerdict::Rejected {
            error: TrackerError::BadResponse,
        }
    );
    let error_action = ConnectResponse {
        action: 3,
        transaction_id: expected,
        connection_id: 5,
    };
    let rejected = check_connect_datagram(&error_action.to_bytes(), true, expected);
    assert_eq!(
        rejected,
        ConnectVerdict::Rejected {
            error: TrackerError::BadResponse,
        }
    );
}

#[test]
fn announce_datagram_checks() {
    let expected: u32 = 9;
    let response = AnnounceResponse {
        action: 1,
        transaction_id: expected,
        interval: 60,
        leechers: 0,
        seeders: 1,
        peers: vec![PeerAddress {
            ip0: 1,
            ip1: 2,
            ip2: 3,
            ip3: 4,
            port: 80,
        }],
    };
    let bytes = response.to_bytes();
    match check_announce_datagram(&bytes, true, expected) {
        AnnounceVerdict::Accepted(resp) => {
            assert_eq!(resp, response);
        }
        other => panic!("expected an accepted response, got {:?}", other),
    }
    assert_eq!(
        check_announce_datagram(&bytes, false, expected),
        AnnounceVerdict::Ignored
    );
    assert_eq!(
        check_announce_datagram(&bytes, true, expected + 1),
        AnnounceVerdict::Ignored
    );
    let mut wrong_action = bytes.clone();
    wrong_action[3] = 3;
    assert_eq!(
        check_announce_datagram(&wrong_action, true, expected),
        AnnounceVerdict::Rejected(TrackerError::BadResponse)
    );
    assert_eq!(
        check_announce_datagram(&bytes[..10], true, expected),
        AnnounceVerdict::Rejected(TrackerError::BadResponse)
    );
}

#[test]
fn session_expiry_window() {
    let session = TrackerSession::new(42, 100);
    assert!(!session.is_expired(100));
    assert!(!session.is_expired(159));
    assert!(session.is_expired(160));
    assert!(!session.is_expired(50));
}

#[test]
fn retry_delays_follow_the_doubling_schedule() {
    assert_eq!(retry_delay_secs(0), 15);
    assert_eq!(retry_delay_secs(1), 30);
    assert_eq!(retry_delay_secs(3), 120);
    assert_eq!(retry_delay_secs(8), 3840);
    assert_eq!(retry_delay_secs(20), 3840);
}

#[test]
fn bootstrap_descriptor_announces_a_fresh_session() {
    let descriptor = bootstrap_descriptor(7, vec![2u8; 20], vec![1u8; 20]);
    assert_eq!(descriptor.connection_id, 7);
    assert_eq!(descriptor.downloaded, 0);
    assert_eq!(descriptor.left, 0);
    assert_eq!(descriptor.uploaded, 0);
    assert_eq!(descriptor.event, AnnounceEvent::NoEvent);
    let request = AnnounceRequest::new(descriptor);
    assert_eq!(request.connection_id, 7);
    assert_eq!(request.action, 1);
}
