use peer_signal::discovery::announced_port;
use peer_signal::discovery::beacon_payload;
use peer_signal::discovery::locate_step;
use peer_signal::discovery::service_address;
use peer_signal::DISCOVERY_PORT;
use peer_signal::SERVER_PORT;

#[test]
fn well_known_ports() {
    assert_eq!(DISCOVERY_PORT, 35500);
    assert_eq!(SERVER_PORT, 8080);
}

#[test]
fn beacon_payload_exact() {
    assert_eq!(
        beacon_payload(9000),
        "{\"kind\":\"server-announce\",\"server_port\":9000}"
    );
    assert_eq!(
        beacon_payload(8080),
        "{\"kind\":\"server-announce\",\"server_port\":8080}"
    );
    assert_eq!(beacon_payload(0), "{\"kind\":\"server-announce\",\"server_port\":0}");
    assert_eq!(
        beacon_payload(65535),
        "{\"kind\":\"server-announce\",\"server_port\":65535}"
    );
}

#[test]
fn beacon_payload_is_valid_json() {
    let text = beacon_payload(9000);
    let v: serde_json::Value = serde_json::from_str(&text).expect("well-formed JSON");
    assert_eq!(v.get("kind").and_then(|k| k.as_str()), Some("server-announce"));
    assert_eq!(v.get("server_port").and_then(|p| p.as_u64()), Some(9000));
}

#[test]
fn own_beacon_datagram_is_understood() {
    // what the beacon advertises, a locate on the same network resolves
    let datagram = beacon_payload(9000);
    assert_eq!(announced_port(datagram.as_bytes()), Some(9000));
    let addr = locate_step(datagram.as_bytes(), "192.168.1.7");
    assert_eq!(addr.as_deref(), Some("ws://192.168.1.7:9000"));
}

#[test]
fn foreign_announcements_resolve_too() {
    // another implementation may order fields differently
    let datagram = b" {\"server_port\": 8080, \"kind\": \"server-announce\"} ";
    assert_eq!(announced_port(datagram), Some(8080));
}

#[test]
fn non_announcements_are_ignored() {
    assert_eq!(announced_port(b"{\"kind\":\"chat\",\"server_port\":9000}"), None);
    assert_eq!(announced_port(b"{\"server_port\":9000}"), None);
    assert_eq!(announced_port(b"{\"kind\":\"server-announce\"}"), None);
    assert_eq!(announced_port(b"not json"), None);
    assert_eq!(announced_port(b""), None);
    // a port that does not fit a port number is not an announcement
    assert_eq!(
        announced_port(b"{\"kind\":\"server-announce\",\"server_port\":70000}"),
        None
    );
    // so is a negative or fractional one
    assert_eq!(
        announced_port(b"{\"kind\":\"server-announce\",\"server_port\":-1}"),
        None
    );
    assert_eq!(
        announced_port(b"{\"kind\":\"server-announce\",\"server_port\":1.5}"),
        None
    );
}

#[test]
fn ignored_datagrams_leave_the_search_running() {
    assert_eq!(locate_step(b"junk", "10.0.0.2"), None);
    assert_eq!(locate_step(b"{\"kind\":\"other\"}", "10.0.0.2"), None);
}

#[test]
fn service_address_format() {
    assert_eq!(service_address("127.0.0.1", 8080), "ws://127.0.0.1:8080");
    assert_eq!(service_address("10.0.0.9", 1), "ws://10.0.0.9:1");
}
