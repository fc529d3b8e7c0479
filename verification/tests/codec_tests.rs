use peer_signal::codec::decode_signal;
use peer_signal::codec::encode_signal;
use peer_signal::messages::InboundMessage;
use peer_signal::messages::OutboundMessage;

#[test]
fn decode_announce() {
    let m = decode_signal("{\"type\":\"announce\",\"data\":\"caps\"}");
    match m {
        InboundMessage::Announce { data } => assert_eq!(data.as_str(), "\"caps\""),
        _ => panic!("expected announce"),
    }
}

#[test]
fn decode_offer_with_object_payload() {
    let m = decode_signal("{\"type\":\"offer\",\"target\":\"t1\",\"data\":{\"sdp\":\"v\"}}");
    match m {
        InboundMessage::Offer { target, data } => {
            assert_eq!(target.as_str(), "t1");
            assert_eq!(data.as_str(), "{\"sdp\":\"v\"}");
        }
        _ => panic!("expected offer"),
    }
}

#[test]
fn decode_tolerates_whitespace_and_field_order() {
    let m = decode_signal("  { \"data\" : 5 ,\n \"target\" : \"x\", \"type\" : \"answer\" } ");
    match m {
        InboundMessage::Answer { target, data } => {
            assert_eq!(target.as_str(), "x");
            assert_eq!(data.as_str(), "5");
        }
        _ => panic!("expected answer"),
    }
}

#[test]
fn decode_get_peers() {
    assert!(matches!(
        decode_signal("{\"type\":\"get_peers\"}"),
        InboundMessage::GetPeers
    ));
}

#[test]
fn decode_rejects_into_ignored() {
    assert!(matches!(
        decode_signal("{\"type\":\"mystery\"}"),
        InboundMessage::Ignored
    ));
    assert!(matches!(decode_signal("{}"), InboundMessage::Ignored));
    assert!(matches!(decode_signal("[1,2]"), InboundMessage::Ignored));
    assert!(matches!(decode_signal("garbage"), InboundMessage::Ignored));
    // missing required fields
    assert!(matches!(
        decode_signal("{\"type\":\"offer\",\"data\":1}"),
        InboundMessage::Ignored
    ));
    assert!(matches!(
        decode_signal("{\"type\":\"offer\",\"target\":\"x\"}"),
        InboundMessage::Ignored
    ));
    assert!(matches!(
        decode_signal("{\"type\":\"announce\"}"),
        InboundMessage::Ignored
    ));
    // a non-string type tag is not a recognized kind
    assert!(matches!(
        decode_signal("{\"type\":7}"),
        InboundMessage::Ignored
    ));
}

#[test]
fn encode_peer_info_exact() {
    let m = OutboundMessage::PeerInfo {
        peer_id: "p1".to_string(),
        data: "{\"k\":1}".to_string(),
    };
    assert_eq!(
        encode_signal(&m),
        "{\"data\":{\"k\":1},\"peer_id\":\"p1\",\"type\":\"peer_info\"}"
    );
}

#[test]
fn encode_offer_and_answer_exact() {
    let o = OutboundMessage::Offer {
        from: "s".to_string(),
        data: "null".to_string(),
    };
    assert_eq!(encode_signal(&o), "{\"data\":null,\"from\":\"s\",\"type\":\"offer\"}");
    let a = OutboundMessage::Answer {
        from: "s".to_string(),
        data: "true".to_string(),
    };
    assert_eq!(encode_signal(&a), "{\"data\":true,\"from\":\"s\",\"type\":\"answer\"}");
}

#[test]
fn encode_peer_list_exact() {
    let empty = OutboundMessage::PeerList { peers: vec![] };
    assert_eq!(encode_signal(&empty), "{\"peers\":[],\"type\":\"peer_list\"}");
    let one = OutboundMessage::PeerList {
        peers: vec!["a".to_string()],
    };
    assert_eq!(encode_signal(&one), "{\"peers\":[\"a\"],\"type\":\"peer_list\"}");
    let three = OutboundMessage::PeerList {
        peers: vec!["a".to_string(), "b".to_string(), "c".to_string()],
    };
    assert_eq!(
        encode_signal(&three),
        "{\"peers\":[\"a\",\"b\",\"c\"],\"type\":\"peer_list\"}"
    );
}

#[test]
fn encode_connection_events_exact() {
    let c = OutboundMessage::PeerConnected {
        peer_id: "p".to_string(),
    };
    assert_eq!(encode_signal(&c), "{\"peer_id\":\"p\",\"type\":\"peer_connected\"}");
    let d = OutboundMessage::PeerDisconnected {
        peer_id: "p".to_string(),
    };
    assert_eq!(encode_signal(&d), "{\"peer_id\":\"p\",\"type\":\"peer_disconnected\"}");
}

#[test]
fn encoded_messages_are_valid_json() {
    let m = OutboundMessage::PeerInfo {
        peer_id: "11111111-2222-3333-4444-555555555555".to_string(),
        data: "{\"a\":[1,2]}".to_string(),
    };
    let text = encode_signal(&m);
    let v: serde_json::Value = serde_json::from_str(&text).expect("well-formed JSON");
    assert_eq!(v.get("type").and_then(|t| t.as_str()), Some("peer_info"));
    assert_eq!(
        v.get("peer_id").and_then(|t| t.as_str()),
        Some("11111111-2222-3333-4444-555555555555")
    );
    assert!(v.get("data").is_some());
}

#[test]
fn payload_survives_decode_then_encode() {
    let inbound = decode_signal("{\"type\":\"offer\",\"target\":\"t\",\"data\":{\"sdp\":\"v\",\"n\":3}}");
    let data = match inbound {
        InboundMessage::Offer { data, .. } => data,
        _ => panic!("expected offer"),
    };
    let out = OutboundMessage::Offer {
        from: "s".to_string(),
        data,
    };
    let text = encode_signal(&out);
    let v: serde_json::Value = serde_json::from_str(&text).expect("well-formed JSON");
    assert_eq!(
        v.get("data").and_then(|d| d.get("sdp")).and_then(|s| s.as_str()),
        Some("v")
    );
    assert_eq!(
        v.get("data").and_then(|d| d.get("n")).and_then(|n| n.as_u64()),
        Some(3)
    );
}
