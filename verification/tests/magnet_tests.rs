use torrent_bootstrap::endpoint::{Tracker, TrackerProtocol};
use torrent_bootstrap::hex_codec::{hex_decode, hex_encode_upper};
use torrent_bootstrap::magnet::Magnet;

const LINK: &str = "magnet:?xt=urn:btih:62B9305B850F2219B960929EC4CBD2E826004D73&dn=Eminem+-+Curtain+Call+2+%28Explicit%29+%282022%29+Mp3+320kbps+%5BPMEDIA%5D+%E2%AD%90%EF%B8%8F&tr=udp%3A%2F%2Ftracker.opentrackr.org%3A1337%2Fannounce&tr=udp%3A%2F%2Fopen.stealth.si%3A80%2Fannounce&tr=udp%3A%2F%2Ftracker.openbittorrent.com%3A6969%2Fannounce&tr=udp%3A%2F%2Fopen.demonii.com%3A1337&tr=udp%3A%2F%2F9.rarbg.me%3A2980%2Fannounce&tr=udp%3A%2F%2Fexodus.desync.com%3A6969%2Fannounce&tr=udp%3A%2F%2Ftracker.moeking.me%3A6969%2Fannounce&tr=udp%3A%2F%2Ftracker.torrent.eu.org%3A451%2Fannounce&tr=udp%3A%2F%2Fexplodie.org%3A6969%2Fannounce&tr=udp%3A%2F%2Fretracker.lanta-net.ru%3A2710%2Fannounce&tr=udp%3A%2F%2Ftracker.tiny-vps.com%3A6969%2Fannounce&tr=http%3A%2F%2Ftracker.files.fm%3A6969%2Fannounce&tr=udp%3A%2F%2Ffe.dealclub.de%3A6969%2Fannounce&tr=udp%3A%2F%2Ftracker.leech.ie%3A1337%2Fannounce&tr=udp%3A%2F%2Ftracker.opentrackr.org%3A1337%2Fannounce&tr=http%3A%2F%2Ftracker.openbittorrent.com%3A80%2Fannounce&tr=udp%3A%2F%2Fopentracker.i2p.rocks%3A6969%2Fannounce&tr=udp%3A%2F%2Ftracker.internetwarriors.net%3A1337%2Fannounce&tr=udp%3A%2F%2Ftracker.leechers-paradise.org%3A6969%2Fannounce&tr=udp%3A%2F%2Fcoppersurfer.tk%3A6969%2Fannounce&tr=udp%3A%2F%2Ftracker.zer0day.to%3A1337%2Fannounce";

#[test]
fn test_parse_info_hash() {
    let magnet = Magnet::from_link(LINK).unwrap();
    let encoded = hex::encode(&magnet.info_hash.bytes).to_uppercase();
    assert_eq!(encoded, "62B9305B850F2219B960929EC4CBD2E826004D73");
}

#[test]
fn test_parse_display_name() {
    let magnet = Magnet::from_link(LINK).unwrap();
    let expected = "Eminem+-+Curtain+Call+2+(Explicit)+(2022)+Mp3+320kbps+[PMEDIA]+⭐\u{fe0f}";
    assert_eq!(magnet.display_name, expected.as_bytes().to_vec());
}

#[test]
fn test_parse_trackers() {
    let magnet = Magnet::from_link(LINK).unwrap();
    assert!(magnet.trackers.len() == 21);
    assert_eq!(
        magnet.trackers.first().unwrap().as_str(),
        "udp://tracker.opentrackr.org:1337/announce"
    );
}

#[test]
fn short_info_hash_fails_bad_format() {
    let link = "magnet:?xt=urn:btih:62B9305B850F2219B960929EC4CBD2E826004D7&dn=x";
    assert!(Magnet::from_link(link).is_err());
}

#[test]
fn missing_info_hash_fails_bad_format() {
    assert!(Magnet::from_link("magnet:?dn=name&tr=udp%3A%2F%2Fa.example%3A80").is_err());
    assert!(Magnet::from_link("magnet:").is_err());
}

#[test]
fn later_info_hash_wins_and_unknown_keys_are_ignored() {
    let link = "magnet:?xt=urn:btih:00000000000000000000000000000000000000FF&zz=1&noequals&xt=urn:btih:62B9305B850F2219B960929EC4CBD2E826004D73";
    let magnet = Magnet::from_link(link).unwrap();
    let encoded = hex_encode_upper(&magnet.info_hash.bytes);
    assert_eq!(
        encoded,
        "62B9305B850F2219B960929EC4CBD2E826004D73".as_bytes().to_vec()
    );
}

#[test]
fn unparseable_tracker_urls_are_dropped() {
    let link =
        "magnet:?xt=urn:btih:62B9305B850F2219B960929EC4CBD2E826004D73&tr=not+a+url&tr=udp%3A%2F%2Fgood.example%3A6969";
    let magnet = Magnet::from_link(link).unwrap();
    assert_eq!(magnet.trackers.len(), 1);
    assert_eq!(magnet.trackers[0].as_str(), "udp://good.example:6969");
}

#[test]
fn tracker_urls_are_normalized_by_parsing() {
    let link = "magnet:?xt=urn:btih:62B9305B850F2219B960929EC4CBD2E826004D73&tr=HTTP%3A%2F%2FTracker.Example.ORG%3A1337%2Fannounce";
    let magnet = Magnet::from_link(link).unwrap();
    assert_eq!(
        magnet.trackers[0].as_str(),
        "http://tracker.example.org:1337/announce"
    );
}

#[test]
fn info_hash_hex_round_trips_case_insensitively() {
    let link = "magnet:?xt=urn:btih:62b9305b850f2219b960929ec4cbd2e826004d73";
    let magnet = Magnet::from_link(link).unwrap();
    let upper = magnet.info_hash.to_hex_upper();
    assert_eq!(
        upper,
        "62B9305B850F2219B960929EC4CBD2E826004D73".as_bytes().to_vec()
    );
}

#[test]
fn hex_codec_exact_values() {
    assert_eq!(
        hex_decode("00ff10Ab".as_bytes()).unwrap(),
        vec![0x00, 0xFF, 0x10, 0xAB]
    );
    assert!(hex_decode("0f0".as_bytes()).is_err());
    assert!(hex_decode("zz".as_bytes()).is_err());
    assert_eq!(
        hex_encode_upper(&[0x00, 0xFF, 0x10, 0xAB]),
        "00FF10AB".as_bytes().to_vec()
    );
}

#[test]
fn tracker_endpoint_from_url() {
    let tracker = Tracker::from_magnet_link(b"udp://tracker.opentrackr.org:1337/announce").unwrap();
    assert_eq!(tracker.protocol, TrackerProtocol::UDP);
    assert_eq!(tracker.host.as_str(), "tracker.opentrackr.org");
    assert_eq!(tracker.port, 1337);
    assert_eq!(tracker.to_host_port(), "tracker.opentrackr.org:1337");
}

#[test]
fn tracker_endpoint_defaults_and_rejections() {
    let no_port = Tracker::from_magnet_link(b"udp://open.example/announce").unwrap();
    assert_eq!(no_port.port, 80);
    let http = Tracker::from_magnet_link(b"http://tracker.files.fm:6969/announce").unwrap();
    assert_eq!(http.protocol, TrackerProtocol::HTTP);
    assert!(Tracker::from_magnet_link(b"wss://tracker.example:7/announce").is_err());
    assert!(Tracker::from_magnet_link(b"not a url").is_err());
    assert!(Tracker::from_magnet_link(b"udp://Tracker.Example.ORG:1/x").is_ok());
}
