use macwincontrol::discovery::{beacon_payload, handle_datagram, upsert_peer, DiscoveredPeer};

#[test]
fn beacon_payload_format() {
    let b = beacon_payload("MacBook", "10.0.0.2", "mac");
    assert_eq!(b, "MACWINCTRL|MacBook|10.0.0.2|mac");
}

#[test]
fn self_echo_is_suppressed() {
    let mut peers: Vec<DiscoveredPeer> = Vec::new();
    let dial = handle_datagram(
        &mut peers,
        "MACWINCTRL|Me|10.0.0.5|mac",
        "10.0.0.5",
        false,
        100,
    );
    assert!(dial.is_none());
    assert!(peers.is_empty());
}

#[test]
fn peer_beacon_is_accepted_and_dialed() {
    let mut peers: Vec<DiscoveredPeer> = Vec::new();
    let dial = handle_datagram(
        &mut peers,
        "MACWINCTRL|WinBox|10.0.0.3|windows",
        "10.0.0.2",
        false,
        100,
    );
    assert_eq!(dial.as_deref(), Some("10.0.0.3"));
    assert_eq!(peers.len(), 1);
    assert_eq!(peers[0].name, "WinBox");
    assert_eq!(peers[0].ip, "10.0.0.3");
    assert_eq!(peers[0].computer_type, "windows");
    assert_eq!(peers[0].last_seen, 100);
}

#[test]
fn no_dial_when_write_endpoint_exists() {
    let mut peers: Vec<DiscoveredPeer> = Vec::new();
    let dial = handle_datagram(
        &mut peers,
        "MACWINCTRL|WinBox|10.0.0.3|windows",
        "10.0.0.2",
        true,
        100,
    );
    assert!(dial.is_none());
    assert_eq!(peers.len(), 1);
}

#[test]
fn repeated_beacon_refreshes_not_duplicates() {
    let mut peers: Vec<DiscoveredPeer> = Vec::new();
    handle_datagram(&mut peers, "MACWINCTRL|W|10.0.0.3|windows", "10.0.0.2", true, 100);
    handle_datagram(&mut peers, "MACWINCTRL|W|10.0.0.3|windows", "10.0.0.2", true, 250);
    assert_eq!(peers.len(), 1);
    assert_eq!(peers[0].last_seen, 250);
}

#[test]
fn malformed_datagrams_are_rejected() {
    let mut peers: Vec<DiscoveredPeer> = Vec::new();
    assert!(handle_datagram(&mut peers, "", "10.0.0.2", false, 1).is_none());
    assert!(handle_datagram(&mut peers, "hello world", "10.0.0.2", false, 1).is_none());
    assert!(handle_datagram(&mut peers, "MACWINCTRL|a|b", "10.0.0.2", false, 1).is_none());
    assert!(handle_datagram(&mut peers, "WRONGMAGIC|a|b|c", "10.0.0.2", false, 1).is_none());
    assert!(peers.is_empty());
}

#[test]
fn own_beacon_parses_back() {
    let mut peers: Vec<DiscoveredPeer> = Vec::new();
    let b = beacon_payload("MacBook", "10.0.0.2", "mac");
    let dial = handle_datagram(&mut peers, &b, "10.0.0.9", false, 7);
    assert_eq!(dial.as_deref(), Some("10.0.0.2"));
    assert_eq!(peers[0].name, "MacBook");
    assert_eq!(peers[0].computer_type, "mac");
}

#[test]
fn extra_fields_keep_first_four() {
    let mut peers: Vec<DiscoveredPeer> = Vec::new();
    handle_datagram(&mut peers, "MACWINCTRL|N|10.0.0.4|mac|extra", "10.0.0.2", true, 5);
    assert_eq!(peers.len(), 1);
    assert_eq!(peers[0].computer_type, "mac");
}

#[test]
fn upsert_updates_only_the_matching_peer() {
    let mut peers = vec![
        DiscoveredPeer {
            name: "A".to_string(),
            ip: "10.0.0.3".to_string(),
            computer_type: "mac".to_string(),
            last_seen: 1,
        },
        DiscoveredPeer {
            name: "B".to_string(),
            ip: "10.0.0.4".to_string(),
            computer_type: "windows".to_string(),
            last_seen: 2,
        },
    ];
    upsert_peer(
        &mut peers,
        &"Renamed".to_string(),
        &"10.0.0.4".to_string(),
        &"other".to_string(),
        99,
    );
    assert_eq!(peers.len(), 2);
    assert_eq!(peers[0].last_seen, 1);
    // the registry is keyed by ip: a refresh keeps name and kind
    assert_eq!(peers[1].name, "B");
    assert_eq!(peers[1].computer_type, "windows");
    assert_eq!(peers[1].last_seen, 99);
}
