//! The signaling relay's routing rules.
//!
//! Each function turns one event (an inbound message, a connect, a
//! disconnect) into the list of sends the relay must perform: pairs of a
//! recipient identity and an outbound message.  The embedding application
//! performs the actual writes, one recipient at a time, in list order.

use vstd::prelude::*;
use crate::codec::decode_signal;
use crate::codec::spec_decode_signal;
use crate::messages::InboundMessage;
use crate::messages::OutboundMessage;
use crate::messages::InView;
use crate::messages::OutView;
use crate::registry::Registry;

verus! {

/// The recipients and message values a send list denotes.
pub open spec fn sends_view(s: Seq<(String, OutboundMessage)>) -> Seq<(Seq<char>, OutView)> {
    s.map_values(|p: (String, OutboundMessage)| (p.0@, p.1@))
}

/// One copy of `m` addressed to every identity in `ids` except `excl`, in
/// `ids` order.
pub open spec fn broadcast_to(ids: Seq<Seq<char>>, excl: Seq<char>, m: OutView) -> Seq<
    (Seq<char>, OutView),
>
    decreases ids.len(),
{
    if ids.len() == 0 {
        Seq::empty()
    } else {
        let rest = broadcast_to(ids.drop_last(), excl, m);
        if ids.last() == excl {
            rest
        } else {
            rest.push((ids.last(), m))
        }
    }
}

/// What a send list delivers to peer `p`, in order.
pub open spec fn sent_to(out: Seq<(Seq<char>, OutView)>, p: Seq<char>) -> Seq<OutView>
    decreases out.len(),
{
    if out.len() == 0 {
        Seq::empty()
    } else if out.last().0 == p {
        sent_to(out.drop_last(), p).push(out.last().1)
    } else {
        sent_to(out.drop_last(), p)
    }
}

/// The protocol table: the sends one inbound message from `sender` causes,
/// given the registered identities `ids`.
///
/// * `announce` goes to every other peer as `peer_info`;
/// * `offer`/`answer` go to their target alone, and are dropped silently
///   when the target is not registered;
/// * `get_peers` is answered to the sender alone with the full roster;
/// * anything else is ignored.
pub open spec fn spec_dispatch(ids: Seq<Seq<char>>, sender: Seq<char>, m: InView) -> Seq<
    (Seq<char>, OutView),
> {
    match m {
        InView::Announce { data } => broadcast_to(
            ids,
            sender,
            OutView::PeerInfo { peer_id: sender, data },
        ),
        InView::Offer { target, data } => if ids.contains(target) {
            seq![(target, OutView::Offer { from: sender, data })]
        } else {
            Seq::empty()
        },
        InView::Answer { target, data } => if ids.contains(target) {
            seq![(target, OutView::Answer { from: sender, data })]
        } else {
            Seq::empty()
        },
        InView::GetPeers => if ids.contains(sender) {
            seq![(sender, OutView::PeerList { peers: ids })]
        } else {
            Seq::empty()
        },
        InView::Ignored => Seq::empty(),
    }
}

/// Builds the send list for one copy of `msg` to every registered peer but
/// `exclude`.
pub fn broadcast_sends<S>(reg: &Registry<S>, exclude: &String, msg: &OutboundMessage) -> (out: Vec<
    (String, OutboundMessage),
>)
    ensures
        sends_view(out@) == broadcast_to(reg.ids(), exclude@, msg@),
{
    let n = reg.len();
    let mut out: Vec<(String, OutboundMessage)> = Vec::new();
    let mut i: usize = 0;
    proof {
        assert(sends_view(out@) =~= broadcast_to(reg.ids().take(0), exclude@, msg@));
    }
    while i < n
        invariant
            n == reg@.len(),
            i <= n,
            sends_view(out@) == broadcast_to(reg.ids().take(i as int), exclude@, msg@),
        decreases n - i,
    {
        let id = reg.id_at(i);
        let ghost pre = out@;
        if !(*id == *exclude) {
            out.push((id.clone(), msg.duplicate()));
            proof {
                assert(sends_view(out@) =~= sends_view(pre).push((id@, msg@)));
            }
        }
        proof {
            assert(reg.ids().take(i + 1).drop_last() =~= reg.ids().take(i as int));
            assert(reg.ids().take(i + 1).last() == reg.ids()[i as int]);
            assert(sends_view(out@) =~= broadcast_to(reg.ids().take(i + 1), exclude@, msg@));
        }
        i = i + 1;
    }
    proof {
        assert(reg.ids().take(n as int) =~= reg.ids());
    }
    out
}

/// Routes one inbound message per the protocol table.  The registry is not
/// changed by any inbound message.
pub fn dispatch<S>(reg: &Registry<S>, sender: &String, msg: &InboundMessage) -> (out: Vec<
    (String, OutboundMessage),
>)
    ensures
        sends_view(out@) == spec_dispatch(reg.ids(), sender@, msg@),
{
    match msg {
        InboundMessage::Announce { data } => {
            let note = OutboundMessage::PeerInfo {
                peer_id: sender.clone(),
                data: data.clone(),
            };
            broadcast_sends(reg, sender, &note)
        },
        InboundMessage::Offer { target, data } => {
            let mut out: Vec<(String, OutboundMessage)> = Vec::new();
            if reg.contains(target) {
                out.push(
                    (
                        target.clone(),
                        OutboundMessage::Offer { from: sender.clone(), data: data.clone() },
                    ),
                );
                proof {
                    assert(sends_view(out@) =~= seq![
                        (target@, OutView::Offer { from: sender@, data: data@ }),
                    ]);
                }
            } else {
                proof {
                    assert(sends_view(out@) =~= Seq::<(Seq<char>, OutView)>::empty());
                }
            }
            out
        },
        InboundMessage::Answer { target, data } => {
            let mut out: Vec<(String, OutboundMessage)> = Vec::new();
            if reg.contains(target) {
                out.push(
                    (
                        target.clone(),
                        OutboundMessage::Answer { from: sender.clone(), data: data.clone() },
                    ),
                );
                proof {
                    assert(sends_view(out@) =~= seq![
                        (target@, OutView::Answer { from: sender@, data: data@ }),
                    ]);
                }
            } else {
                proof {
                    assert(sends_view(out@) =~= Seq::<(Seq<char>, OutView)>::empty());
                }
            }
            out
        },
        InboundMessage::GetPeers => {
            let mut out: Vec<(String, OutboundMessage)> = Vec::new();
            if reg.contains(sender) {
                let peers = reg.snapshot();
                out.push((sender.clone(), OutboundMessage::PeerList { peers }));
                proof {
                    assert(sends_view(out@) =~= seq![
                        (sender@, OutView::PeerList { peers: reg.ids() }),
                    ]);
                }
            } else {
                proof {
                    assert(sends_view(out@) =~= Seq::<(Seq<char>, OutView)>::empty());
                }
            }
            out
        },
        InboundMessage::Ignored => {
            let out: Vec<(String, OutboundMessage)> = Vec::new();
            proof {
                assert(sends_view(out@) =~= Seq::<(Seq<char>, OutView)>::empty());
            }
            out
        },
    }
}

/// Relies on `uuid::Uuid::new_v4` and its `Display` form: a freshly drawn
/// random identity, rendered as 36 lowercase-hexadecimal and hyphen
/// characters.  The draw is random, so nothing relates two calls' results.
#[verifier::external_body]
pub fn fresh_identity() -> (r: String)
    ensures
        r@.len() == 36,
        forall|i: int|
            0 <= i < r@.len() ==> ('0' <= #[trigger] r@[i] && r@[i] <= '9') || ('a' <= r@[i]
                && r@[i] <= 'f') || r@[i] == '-',
{
    uuid::Uuid::new_v4().to_string()
}

/// Handles one text frame from `sender`: classifies it, then routes it per
/// the protocol table.  The registry is unchanged; a frame that does not
/// decode causes no sends and no error.
pub fn handle_message<S>(reg: &Registry<S>, sender: &String, text: &str) -> (out: Vec<
    (String, OutboundMessage),
>)
    ensures
        sends_view(out@) == spec_dispatch(reg.ids(), sender@, spec_decode_signal(text@)),
{
    let msg = decode_signal(text);
    dispatch(reg, sender, &msg)
}

/// A new connection: the fresh identity is registered, then every *other*
/// peer is told `peer_connected`.
pub fn on_connect<S>(reg: &mut Registry<S>, id: &String, sink: S) -> (out: Vec<
    (String, OutboundMessage),
>)
    requires
        old(reg).wf(),
        !old(reg).contains_id(id@),
    ensures
        final(reg).wf(),
        final(reg)@ == old(reg)@.push((id@, sink)),
        final(reg).as_map() == old(reg).as_map().insert(id@, sink),
        sends_view(out@) == broadcast_to(old(reg).ids(), id@, OutView::PeerConnected {
            peer_id: id@,
        }),
{
    reg.register(id.clone(), sink);
    let note = OutboundMessage::PeerConnected { peer_id: id.clone() };
    let out = broadcast_sends(reg, id, &note);
    proof {
        assert(reg.ids() =~= old(reg).ids().push(id@));
        assert(reg.ids().drop_last() =~= old(reg).ids());
        assert(broadcast_to(reg.ids(), id@, note@) == broadcast_to(old(reg).ids(), id@, note@));
    }
    out
}

/// A closed connection: the identity is removed (idempotently), then every
/// remaining peer is told `peer_disconnected`.
pub fn on_disconnect<S>(reg: &mut Registry<S>, id: &String) -> (out: Vec<
    (String, OutboundMessage),
>)
    requires
        old(reg).wf(),
    ensures
        final(reg).wf(),
        final(reg).as_map() == old(reg).as_map().remove(id@),
        !final(reg).contains_id(id@),
        final(reg).ids() == old(reg).ids().remove_value(id@),
        sends_view(out@) == broadcast_to(final(reg).ids(), id@, OutView::PeerDisconnected {
            peer_id: id@,
        }),
{
    reg.unregister(id);
    let note = OutboundMessage::PeerDisconnected { peer_id: id.clone() };
    broadcast_sends(reg, id, &note)
}

/// In a broadcast to `ids` (duplicate-free) that excludes `excl`: every
/// registered peer other than `excl` receives the message exactly once,
/// while `excl` and unregistered peers receive nothing.
pub proof fn lemma_broadcast_each(ids: Seq<Seq<char>>, excl: Seq<char>, m: OutView, p: Seq<char>)
    requires
        forall|i: int, j: int| 0 <= i < j < ids.len() ==> ids[i] != ids[j],
    ensures
        ids.contains(p) && p != excl ==> sent_to(broadcast_to(ids, excl, m), p) == seq![m],
        !ids.contains(p) ==> sent_to(broadcast_to(ids, excl, m), p) == Seq::<OutView>::empty(),
        p == excl ==> sent_to(broadcast_to(ids, excl, m), p) == Seq::<OutView>::empty(),
    decreases ids.len(),
{
    if ids.len() == 0 {
        assert(!ids.contains(p));
        assert(sent_to(broadcast_to(ids, excl, m), p) =~= Seq::<OutView>::empty());
    } else {
        let head = ids.drop_last();
        let last = ids.last();
        assert(forall|i: int, j: int| 0 <= i < j < head.len() ==> head[i] != head[j]);
        lemma_broadcast_each(head, excl, m, p);
        let b = broadcast_to(ids, excl, m);
        let bh = broadcast_to(head, excl, m);
        // membership relates across drop_last
        assert(head.contains(p) ==> ids.contains(p)) by {
            if head.contains(p) {
                let i = choose|i: int| 0 <= i < head.len() && head[i] == p;
                assert(ids[i] == p);
            }
        }
        assert(ids.contains(p) ==> head.contains(p) || last == p) by {
            if ids.contains(p) {
                let i = choose|i: int| 0 <= i < ids.len() && ids[i] == p;
                if i < ids.len() - 1 {
                    assert(head[i] == p);
                }
            }
        }
        if last == excl {
            assert(b == bh);
        } else {
            assert(b == bh.push((last, m)));
            assert(b.drop_last() =~= bh);
            assert(b.last() == (last, m));
            if p == last {
                assert(!head.contains(p)) by {
                    if head.contains(p) {
                        let i = choose|i: int| 0 <= i < head.len() && head[i] == p;
                        assert(ids[i] == ids[ids.len() - 1]);
                    }
                }
                assert(sent_to(bh, p) == Seq::<OutView>::empty());
                assert(sent_to(b, p) =~= seq![m]);
                assert(ids.contains(p)) by {
                    assert(ids[ids.len() - 1] == p);
                }
            } else {
                assert(sent_to(b, p) == sent_to(bh, p));
            }
        }
    }
}

/// A valid `offer` whose target is registered is delivered to the target
/// exactly once, carrying the sender's identity and the payload unchanged;
/// no other peer receives anything.
pub proof fn lemma_offer_unicast(
    ids: Seq<Seq<char>>,
    sender: Seq<char>,
    target: Seq<char>,
    data: Seq<char>,
    p: Seq<char>,
)
    requires
        ids.contains(target),
    ensures
        sent_to(spec_dispatch(ids, sender, InView::Offer { target, data }), target) == seq![
            OutView::Offer { from: sender, data },
        ],
        p != target ==> sent_to(spec_dispatch(ids, sender, InView::Offer { target, data }), p)
            == Seq::<OutView>::empty(),
{
    let out = spec_dispatch(ids, sender, InView::Offer { target, data });
    assert(out == seq![(target, OutView::Offer { from: sender, data })]);
    assert(out.drop_last() =~= Seq::<(Seq<char>, OutView)>::empty());
    assert(sent_to(out.drop_last(), target) == Seq::<OutView>::empty());
    assert(sent_to(out.drop_last(), p) == Seq::<OutView>::empty());
    assert(out.last() == (target, OutView::Offer { from: sender, data }));
    assert(sent_to(out, target) =~= seq![OutView::Offer { from: sender, data }]);
}

/// An `offer` whose target is not registered causes no send at all: nothing
/// is delivered to any peer and nothing is reported to the sender.
pub proof fn lemma_offer_unregistered_dropped(
    ids: Seq<Seq<char>>,
    sender: Seq<char>,
    target: Seq<char>,
    data: Seq<char>,
    p: Seq<char>,
)
    requires
        !ids.contains(target),
    ensures
        spec_dispatch(ids, sender, InView::Offer { target, data }) == Seq::<
            (Seq<char>, OutView),
        >::empty(),
        sent_to(spec_dispatch(ids, sender, InView::Offer { target, data }), p) == Seq::<
            OutView,
        >::empty(),
{
}

/// `get_peers` is answered to the requesting peer alone, with a roster equal
/// to the registered identities — the requester included; no other peer
/// receives anything.
pub proof fn lemma_get_peers_reply(ids: Seq<Seq<char>>, sender: Seq<char>, p: Seq<char>)
    requires
        ids.contains(sender),
    ensures
        spec_dispatch(ids, sender, InView::GetPeers) == seq![
            (sender, OutView::PeerList { peers: ids }),
        ],
        sent_to(spec_dispatch(ids, sender, InView::GetPeers), sender) == seq![
            OutView::PeerList { peers: ids },
        ],
        p != sender ==> sent_to(spec_dispatch(ids, sender, InView::GetPeers), p) == Seq::<
            OutView,
        >::empty(),
{
    let out = spec_dispatch(ids, sender, InView::GetPeers);
    assert(out == seq![(sender, OutView::PeerList { peers: ids })]);
    assert(out.drop_last() =~= Seq::<(Seq<char>, OutView)>::empty());
    assert(sent_to(out.drop_last(), sender) == Seq::<OutView>::empty());
    assert(sent_to(out.drop_last(), p) == Seq::<OutView>::empty());
    assert(sent_to(out, sender) =~= seq![OutView::PeerList { peers: ids }]);
}

/// An `announce` from `sender` is delivered as one `peer_info` to every other
/// registered peer, exactly once each, and never back to the sender.
pub proof fn lemma_announce_broadcast(
    ids: Seq<Seq<char>>,
    sender: Seq<char>,
    data: Seq<char>,
    p: Seq<char>,
)
    requires
        forall|i: int, j: int| 0 <= i < j < ids.len() ==> ids[i] != ids[j],
    ensures
        ids.contains(p) && p != sender ==> sent_to(
            spec_dispatch(ids, sender, InView::Announce { data }),
            p,
        ) == seq![OutView::PeerInfo { peer_id: sender, data }],
        p == sender || !ids.contains(p) ==> sent_to(
            spec_dispatch(ids, sender, InView::Announce { data }),
            p,
        ) == Seq::<OutView>::empty(),
{
    lemma_broadcast_each(ids, sender, OutView::PeerInfo { peer_id: sender, data }, p);
}

/// After a disconnect of `x`, every remaining registered peer receives
/// `peer_disconnected{x}` exactly once; and since `x` is no longer
/// registered, the roster of any later `get_peers` reply excludes `x`.
pub proof fn lemma_disconnect_each(ids: Seq<Seq<char>>, x: Seq<char>, p: Seq<char>)
    requires
        forall|i: int, j: int| 0 <= i < j < ids.len() ==> ids[i] != ids[j],
        !ids.contains(x),
    ensures
        ids.contains(p) ==> sent_to(
            broadcast_to(ids, x, OutView::PeerDisconnected { peer_id: x }),
            p,
        ) == seq![OutView::PeerDisconnected { peer_id: x }],
        !ids.contains(p) ==> sent_to(
            broadcast_to(ids, x, OutView::PeerDisconnected { peer_id: x }),
            p,
        ) == Seq::<OutView>::empty(),
        ids.contains(p) ==> spec_dispatch(ids, p, InView::GetPeers) == seq![
            (p, OutView::PeerList { peers: ids }),
        ],
{
    lemma_broadcast_each(ids, x, OutView::PeerDisconnected { peer_id: x }, p);
    if ids.contains(p) {
        assert(p != x);
    }
}

} // verus!
