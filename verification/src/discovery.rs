//! The discovery beacon's datagram and the locate decision.
//!
//! The beacon side builds the exact announcement datagram that is broadcast
//! once a second on the discovery port.  The locate side classifies each
//! received datagram: a well-formed announcement resolves to the relay's
//! address, anything else is ignored and the search goes on.  The sockets and
//! the timeout live in the embedding application.

use vstd::prelude::*;
use vstd::string::StringExecFns;
use crate::codec::json_string_field_bytes;
use crate::codec::json_u64_field;
use crate::codec::spec_string_field_bytes;
use crate::codec::spec_u64_field;

verus! {

/// The character of one decimal digit.
pub open spec fn digit_char(d: nat) -> char {
    if d == 0 {
        '0'
    } else if d == 1 {
        '1'
    } else if d == 2 {
        '2'
    } else if d == 3 {
        '3'
    } else if d == 4 {
        '4'
    } else if d == 5 {
        '5'
    } else if d == 6 {
        '6'
    } else if d == 7 {
        '7'
    } else if d == 8 {
        '8'
    } else {
        '9'
    }
}

/// The decimal digits of `n`, most significant first, no leading zeros.
pub open spec fn dec_digits(n: nat) -> Seq<char>
    decreases n,
{
    if n < 10 {
        seq![digit_char(n)]
    } else {
        dec_digits(n / 10).push(digit_char(n % 10))
    }
}

fn digit_str(d: u16) -> (r: &'static str)
    requires
        d < 10,
    ensures
        r@ == seq![digit_char(d as nat)],
{
    proof {
        reveal_strlit("0");
        reveal_strlit("1");
        reveal_strlit("2");
        reveal_strlit("3");
        reveal_strlit("4");
        reveal_strlit("5");
        reveal_strlit("6");
        reveal_strlit("7");
        reveal_strlit("8");
        reveal_strlit("9");
        assert("0"@ =~= seq!['0']);
        assert("1"@ =~= seq!['1']);
        assert("2"@ =~= seq!['2']);
        assert("3"@ =~= seq!['3']);
        assert("4"@ =~= seq!['4']);
        assert("5"@ =~= seq!['5']);
        assert("6"@ =~= seq!['6']);
        assert("7"@ =~= seq!['7']);
        assert("8"@ =~= seq!['8']);
        assert("9"@ =~= seq!['9']);
    }
    if d == 0 {
        "0"
    } else if d == 1 {
        "1"
    } else if d == 2 {
        "2"
    } else if d == 3 {
        "3"
    } else if d == 4 {
        "4"
    } else if d == 5 {
        "5"
    } else if d == 6 {
        "6"
    } else if d == 7 {
        "7"
    } else if d == 8 {
        "8"
    } else {
        "9"
    }
}

/// Appends the decimal digits of `n`.
fn append_dec(s: &mut String, n: u16)
    ensures
        final(s)@ == old(s)@ + dec_digits(n as nat),
    decreases n,
{
    if n < 10 {
        s.append(digit_str(n));
        proof {
            assert(s@ =~= old(s)@ + dec_digits(n as nat));
        }
    } else {
        append_dec(s, n / 10);
        s.append(digit_str(n % 10));
        proof {
            assert((n / 10) as nat == n as nat / 10);
            assert((n % 10) as nat == n as nat % 10);
            assert(s@ =~= old(s)@ + dec_digits(n as nat));
        }
    }
}

/// The exact announcement datagram: the fixed kind tag and the advertised
/// service port, in decimal.
pub open spec fn spec_beacon(port: nat) -> Seq<char> {
    "{\"kind\":\"server-announce\",\"server_port\":"@ + dec_digits(port) + "}"@
}

/// Builds the datagram the beacon broadcasts while advertising
/// `service_port`.
pub fn beacon_payload(service_port: u16) -> (r: String)
    ensures
        r@ == spec_beacon(service_port as nat),
{
    let mut s = String::new();
    s.append("{\"kind\":\"server-announce\",\"server_port\":");
    append_dec(&mut s, service_port);
    s.append("}");
    proof {
        assert(s@ =~= spec_beacon(service_port as nat));
    }
    s
}

/// What one received datagram announces: the advertised port, when the
/// datagram is a JSON object whose `kind` is `server-announce` and whose
/// `server_port` is an integer that fits a port number; otherwise nothing.
pub open spec fn spec_announced_port(data: Seq<u8>) -> Option<u16> {
    let kind = spec_string_field_bytes(data, "kind"@);
    let port = spec_u64_field(data, "server_port"@);
    if kind == Some("server-announce"@) {
        match port {
            Some(p) => if p <= 0xFFFF {
                Some(p as u16)
            } else {
                None
            },
            None => None,
        }
    } else {
        None
    }
}

/// Classifies one received datagram.  A datagram that does not decode as an
/// announcement yields `None` and is ignored: the search continues.
pub fn announced_port(data: &[u8]) -> (r: Option<u16>)
    ensures
        r == spec_announced_port(data@),
{
    let kind = json_string_field_bytes(data, "kind");
    let port = json_u64_field(data, "server_port");
    match kind {
        Some(k) => {
            if k == "server-announce".to_owned() {
                match port {
                    Some(p) => if p <= 0xFFFF {
                        Some(p as u16)
                    } else {
                        None
                    },
                    None => None,
                }
            } else {
                None
            }
        },
        None => None,
    }
}

/// The connection address a located relay resolves to: the announcement's
/// port joined to the sender's source IP.
pub open spec fn spec_address(ip: Seq<char>, port: nat) -> Seq<char> {
    "ws://"@ + ip + ":"@ + dec_digits(port)
}

/// Builds the relay's connection address from the datagram sender's IP and
/// the announced port.
pub fn service_address(ip: &str, port: u16) -> (r: String)
    ensures
        r@ == spec_address(ip@, port as nat),
{
    let mut s = String::new();
    s.append("ws://");
    s.append(ip);
    s.append(":");
    append_dec(&mut s, port);
    proof {
        assert(s@ =~= spec_address(ip@, port as nat));
    }
    s
}

/// One step of the locate loop: decode a datagram and, when it is a valid
/// announcement, resolve it against the datagram's source IP.  A `None`
/// leaves the search running; the caller's timeout bounds the whole search.
pub fn locate_step(data: &[u8], sender_ip: &str) -> (r: Option<String>)
    ensures
        r is Some <==> spec_announced_port(data@) is Some,
        r is Some ==> (r->0)@ == spec_address(sender_ip@, spec_announced_port(data@)->0 as nat),
{
    match announced_port(data) {
        Some(p) => Some(service_address(sender_ip, p)),
        None => None,
    }
}

} // verus!
