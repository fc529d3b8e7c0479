//! The wire codec.
//!
//! Inbound signaling messages and discovery datagrams are arbitrary JSON, so
//! reading them goes through `serde_json` behind trusted field accessors;
//! what each accessor returns is given a name, and everything the relay does
//! with those fields is verified.  Outbound messages have a fixed shape, so
//! they are built, verifiably, character by character.

use vstd::prelude::*;
use vstd::string::StringExecFns;
use crate::messages::InboundMessage;
use crate::messages::InView;
use crate::messages::OutboundMessage;
use crate::messages::OutView;

verus! {

/// The string value at `key` in the JSON object `s`, if `s` parses as an
/// object whose `key` holds a string.
pub uninterp spec fn spec_string_field(s: Seq<char>, key: Seq<char>) -> Option<Seq<char>>;

/// The value at `key` in the JSON object `s`, re-serialized as JSON text, if
/// `s` parses as an object with that key.
pub uninterp spec fn spec_raw_field(s: Seq<char>, key: Seq<char>) -> Option<Seq<char>>;

/// The string value at `key` in the JSON object held in the bytes `b`.
pub uninterp spec fn spec_string_field_bytes(b: Seq<u8>, key: Seq<char>) -> Option<Seq<char>>;

/// The unsigned integer value at `key` in the JSON object held in the bytes
/// `b`.
pub uninterp spec fn spec_u64_field(b: Seq<u8>, key: Seq<char>) -> Option<u64>;

/// The mathematical value of an optional string.
pub open spec fn view_opt(o: Option<String>) -> Option<Seq<char>> {
    match o {
        Some(s) => Some(s@),
        None => None,
    }
}

/// Relies on `serde_json::from_str::<Value>`, `Value::get` and
/// `Value::as_str`: the string at `key` in the object `text`, a function of
/// the two arguments alone.
#[verifier::external_body]
fn json_string_field(text: &str, key: &str) -> (r: Option<String>)
    ensures
        view_opt(r) == spec_string_field(text@, key@),
{
    match serde_json::from_str::<serde_json::Value>(text) {
        Ok(v) => v.get(key).and_then(|f| f.as_str()).map(|s| s.to_owned()),
        Err(_) => None,
    }
}

/// Relies on `serde_json::from_str::<Value>`, `Value::get` and
/// `Value::to_string`: the value at `key` in the object `text`, re-serialized
/// as JSON text, a function of the two arguments alone.
#[verifier::external_body]
fn json_raw_field(text: &str, key: &str) -> (r: Option<String>)
    ensures
        view_opt(r) == spec_raw_field(text@, key@),
{
    match serde_json::from_str::<serde_json::Value>(text) {
        Ok(v) => v.get(key).map(|f| f.to_string()),
        Err(_) => None,
    }
}

/// Relies on `serde_json::from_slice::<Value>`, `Value::get` and
/// `Value::as_str`: the string at `key` in the object held in `data`.
#[verifier::external_body]
pub(crate) fn json_string_field_bytes(data: &[u8], key: &str) -> (r: Option<String>)
    ensures
        view_opt(r) == spec_string_field_bytes(data@, key@),
{
    match serde_json::from_slice::<serde_json::Value>(data) {
        Ok(v) => v.get(key).and_then(|f| f.as_str()).map(|s| s.to_owned()),
        Err(_) => None,
    }
}

/// Relies on `serde_json::from_slice::<Value>`, `Value::get` and
/// `Value::as_u64`: the unsigned integer at `key` in the object held in
/// `data`.
#[verifier::external_body]
pub(crate) fn json_u64_field(data: &[u8], key: &str) -> (r: Option<u64>)
    ensures
        r == spec_u64_field(data@, key@),
{
    match serde_json::from_slice::<serde_json::Value>(data) {
        Ok(v) => v.get(key).and_then(|f| f.as_u64()),
        Err(_) => None,
    }
}

/// How one inbound message text is classified: by its `type` field, with the
/// required fields of the recognized kinds; anything else is ignored.
pub open spec fn spec_decode_signal(s: Seq<char>) -> InView {
    let kind = spec_string_field(s, "type"@);
    let target = spec_string_field(s, "target"@);
    let data = spec_raw_field(s, "data"@);
    if kind == Some("announce"@) {
        match data {
            Some(d) => InView::Announce { data: d },
            None => InView::Ignored,
        }
    } else if kind == Some("offer"@) {
        match (target, data) {
            (Some(t), Some(d)) => InView::Offer { target: t, data: d },
            _ => InView::Ignored,
        }
    } else if kind == Some("answer"@) {
        match (target, data) {
            (Some(t), Some(d)) => InView::Answer { target: t, data: d },
            _ => InView::Ignored,
        }
    } else if kind == Some("get_peers"@) {
        InView::GetPeers
    } else {
        InView::Ignored
    }
}

/// Classifies one message text from a connected peer.  A text that does not
/// parse, carries an unrecognized `type`, or misses a required field becomes
/// [`InboundMessage::Ignored`]; the relay then drops it without an error.
pub fn decode_signal(text: &str) -> (m: InboundMessage)
    ensures
        m@ == spec_decode_signal(text@),
{
    let kind = json_string_field(text, "type");
    let target = json_string_field(text, "target");
    let data = json_raw_field(text, "data");
    match kind {
        Some(k) => {
            if k == "announce".to_owned() {
                match data {
                    Some(d) => InboundMessage::Announce { data: d },
                    None => InboundMessage::Ignored,
                }
            } else if k == "offer".to_owned() {
                match (target, data) {
                    (Some(t), Some(d)) => InboundMessage::Offer { target: t, data: d },
                    _ => InboundMessage::Ignored,
                }
            } else if k == "answer".to_owned() {
                match (target, data) {
                    (Some(t), Some(d)) => InboundMessage::Answer { target: t, data: d },
                    _ => InboundMessage::Ignored,
                }
            } else if k == "get_peers".to_owned() {
                InboundMessage::GetPeers
            } else {
                InboundMessage::Ignored
            }
        },
        None => InboundMessage::Ignored,
    }
}

/// The JSON text of a roster: the identities, each quoted, joined by commas.
pub open spec fn roster_items(ids: Seq<Seq<char>>) -> Seq<char>
    decreases ids.len(),
{
    if ids.len() == 0 {
        Seq::empty()
    } else if ids.len() == 1 {
        "\""@ + ids[0] + "\""@
    } else {
        roster_items(ids.drop_last()) + ",\""@ + ids.last() + "\""@
    }
}

/// The exact JSON text of one outbound message.  Keys are emitted in
/// alphabetical order; identity fields are embedded verbatim (identities are
/// relay-assigned UUIDs) and `data` payloads are embedded as the JSON text
/// they already are.
pub open spec fn spec_encode_signal(m: OutView) -> Seq<char> {
    match m {
        OutView::PeerInfo { peer_id, data } => "{\"data\":"@ + data + ",\"peer_id\":\""@ + peer_id
            + "\",\"type\":\"peer_info\"}"@,
        OutView::Offer { from, data } => "{\"data\":"@ + data + ",\"from\":\""@ + from
            + "\",\"type\":\"offer\"}"@,
        OutView::Answer { from, data } => "{\"data\":"@ + data + ",\"from\":\""@ + from
            + "\",\"type\":\"answer\"}"@,
        OutView::PeerList { peers } => "{\"peers\":["@ + roster_items(peers)
            + "],\"type\":\"peer_list\"}"@,
        OutView::PeerConnected { peer_id } => "{\"peer_id\":\""@ + peer_id
            + "\",\"type\":\"peer_connected\"}"@,
        OutView::PeerDisconnected { peer_id } => "{\"peer_id\":\""@ + peer_id
            + "\",\"type\":\"peer_disconnected\"}"@,
    }
}

/// Serializes one outbound message to its wire text.
pub fn encode_signal(m: &OutboundMessage) -> (r: String)
    ensures
        r@ == spec_encode_signal(m@),
{
    match m {
        OutboundMessage::PeerInfo { peer_id, data } => {
            let mut s = String::new();
            s.append("{\"data\":");
            s.append(data.as_str());
            s.append(",\"peer_id\":\"");
            s.append(peer_id.as_str());
            s.append("\",\"type\":\"peer_info\"}");
            proof {
                assert(s@ =~= spec_encode_signal(m@));
            }
            s
        },
        OutboundMessage::Offer { from, data } => {
            let mut s = String::new();
            s.append("{\"data\":");
            s.append(data.as_str());
            s.append(",\"from\":\"");
            s.append(from.as_str());
            s.append("\",\"type\":\"offer\"}");
            proof {
                assert(s@ =~= spec_encode_signal(m@));
            }
            s
        },
        OutboundMessage::Answer { from, data } => {
            let mut s = String::new();
            s.append("{\"data\":");
            s.append(data.as_str());
            s.append(",\"from\":\"");
            s.append(from.as_str());
            s.append("\",\"type\":\"answer\"}");
            proof {
                assert(s@ =~= spec_encode_signal(m@));
            }
            s
        },
        OutboundMessage::PeerList { peers } => {
            let ghost ids = peers@.map_values(|p: String| p@);
            let mut s = String::new();
            s.append("{\"peers\":[");
            let n = peers.len();
            let mut i: usize = 0;
            while i < n
                invariant
                    n == peers@.len(),
                    i <= n,
                    ids == peers@.map_values(|p: String| p@),
                    s@ == "{\"peers\":["@ + roster_items(ids.take(i as int)),
                decreases n - i,
            {
                if i == 0 {
                    s.append("\"");
                } else {
                    s.append(",\"");
                }
                s.append(peers[i].as_str());
                s.append("\"");
                proof {
                    assert(ids.take(i + 1).drop_last() =~= ids.take(i as int));
                    assert(ids.take(i + 1).last() == ids[i as int]);
                    assert(ids[i as int] == peers@[i as int]@);
                    if i == 0 {
                        assert(roster_items(ids.take(1)) == "\""@ + ids.take(1)[0] + "\""@);
                        assert(ids.take(1)[0] == ids[0]);
                    }
                    assert(s@ =~= "{\"peers\":["@ + roster_items(ids.take(i + 1)));
                }
                i = i + 1;
            }
            s.append("],\"type\":\"peer_list\"}");
            proof {
                assert(ids.take(n as int) =~= ids);
                assert(s@ =~= spec_encode_signal(m@));
            }
            s
        },
        OutboundMessage::PeerConnected { peer_id } => {
            let mut s = String::new();
            s.append("{\"peer_id\":\"");
            s.append(peer_id.as_str());
            s.append("\",\"type\":\"peer_connected\"}");
            proof {
                assert(s@ =~= spec_encode_signal(m@));
            }
            s
        },
        OutboundMessage::PeerDisconnected { peer_id } => {
            let mut s = String::new();
            s.append("{\"peer_id\":\"");
            s.append(peer_id.as_str());
            s.append("\",\"type\":\"peer_disconnected\"}");
            proof {
                assert(s@ =~= spec_encode_signal(m@));
            }
            s
        },
    }
}

} // verus!
