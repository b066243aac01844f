use torrent_bootstrap::peers::{aggregate_peers, dedup_peers, generate_peer_id, PeerAddress};

fn peer(ip3: u8, port: u16) -> PeerAddress {
    PeerAddress {
        ip0: 10,
        ip1: 0,
        ip2: 0,
        ip3,
        port,
    }
}

#[test]
fn peer_address_round_trip() {
    let bytes: Vec<u8> = vec![70, 81, 126, 161, 9, 68];
    let address = PeerAddress::from_bytes(&bytes);
    assert_eq!(address.ip0, 70);
    assert_eq!(address.ip1, 81);
    assert_eq!(address.ip2, 126);
    assert_eq!(address.ip3, 161);
    assert_eq!(address.port, 9 * 256 + 68);
    assert_eq!(address.to_bytes(), bytes);
}

#[test]
fn peer_address_host_port_form() {
    let address = PeerAddress {
        ip0: 70,
        ip1: 81,
        ip2: 126,
        ip3: 161,
        port: 2372,
    };
    assert_eq!(address.to_host_port(), "70.81.126.161:2372");
    let zero = PeerAddress {
        ip0: 0,
        ip1: 0,
        ip2: 0,
        ip3: 0,
        port: 0,
    };
    assert_eq!(zero.to_host_port(), "0.0.0.0:0");
}

#[test]
fn dedup_keeps_first_seen_order() {
    let peers = vec![peer(1, 1), peer(2, 2), peer(1, 1), peer(3, 3), peer(2, 2)];
    let unique = dedup_peers(&peers);
    assert_eq!(unique, vec![peer(1, 1), peer(2, 2), peer(3, 3)]);
}

#[test]
fn same_ip_with_different_port_is_a_different_peer() {
    let peers = vec![peer(1, 1), peer(1, 2), peer(1, 1)];
    let unique = dedup_peers(&peers);
    assert_eq!(unique, vec![peer(1, 1), peer(1, 2)]);
}

#[test]
fn aggregation_flattens_in_order_and_dedups_across_lists() {
    let lists = vec![
        vec![peer(1, 1), peer(2, 2)],
        vec![],
        vec![peer(2, 2), peer(3, 3)],
        vec![peer(1, 1)],
    ];
    let unique = aggregate_peers(&lists);
    assert_eq!(unique, vec![peer(1, 1), peer(2, 2), peer(3, 3)]);
}

#[test]
fn aggregation_of_silent_trackers_yields_an_empty_list() {
    // A tracker that timed out contributes nothing; an empty result is not
    // an error.
    let lists: Vec<Vec<PeerAddress>> = vec![vec![], vec![]];
    assert_eq!(aggregate_peers(&lists), vec![]);
}

#[test]
fn peer_id_carries_the_client_signature() {
    let id = generate_peer_id();
    assert_eq!(id.len(), 20);
    assert_eq!(&id[0..8], "-WM0001-".as_bytes());
}
