//! The signaling message vocabulary.
//!
//! Inbound messages are what a connected peer may send the relay; outbound
//! messages are what the relay sends to peers.  Payload `data` fields are
//! opaque JSON text the relay never interprets.

use vstd::prelude::*;

verus! {

/// A message arriving from a connected peer, already classified.
pub enum InboundMessage {
    /// Broadcast this peer's capabilities to every other peer.
    Announce { data: String },
    /// Forward a connection offer to one target peer.
    Offer { target: String, data: String },
    /// Forward a connection answer to one target peer.
    Answer { target: String, data: String },
    /// Ask for the current membership roster.
    GetPeers,
    /// An unrecognized kind, or a recognized kind missing a required field:
    /// the relay drops it without a reply and without an error.
    Ignored,
}

/// A message the relay sends to a peer.
pub enum OutboundMessage {
    /// Another peer's announcement, stamped with the sender's identity.
    PeerInfo { peer_id: String, data: String },
    /// A forwarded offer, stamped with the sender's identity.
    Offer { from: String, data: String },
    /// A forwarded answer, stamped with the sender's identity.
    Answer { from: String, data: String },
    /// The membership roster.
    PeerList { peers: Vec<String> },
    /// A peer joined.
    PeerConnected { peer_id: String },
    /// A peer left.
    PeerDisconnected { peer_id: String },
}

/// The mathematical value of an inbound message.
pub enum InView {
    Announce { data: Seq<char> },
    Offer { target: Seq<char>, data: Seq<char> },
    Answer { target: Seq<char>, data: Seq<char> },
    GetPeers,
    Ignored,
}

/// The mathematical value of an outbound message.
pub enum OutView {
    PeerInfo { peer_id: Seq<char>, data: Seq<char> },
    Offer { from: Seq<char>, data: Seq<char> },
    Answer { from: Seq<char>, data: Seq<char> },
    PeerList { peers: Seq<Seq<char>> },
    PeerConnected { peer_id: Seq<char> },
    PeerDisconnected { peer_id: Seq<char> },
}

impl View for InboundMessage {
    type V = InView;

    open spec fn view(&self) -> InView {
        match self {
            InboundMessage::Announce { data } => InView::Announce { data: data@ },
            InboundMessage::Offer { target, data } => InView::Offer {
                target: target@,
                data: data@,
            },
            InboundMessage::Answer { target, data } => InView::Answer {
                target: target@,
                data: data@,
            },
            InboundMessage::GetPeers => InView::GetPeers,
            InboundMessage::Ignored => InView::Ignored,
        }
    }
}

impl View for OutboundMessage {
    type V = OutView;

    open spec fn view(&self) -> OutView {
        match self {
            OutboundMessage::PeerInfo { peer_id, data } => OutView::PeerInfo {
                peer_id: peer_id@,
                data: data@,
            },
            OutboundMessage::Offer { from, data } => OutView::Offer { from: from@, data: data@ },
            OutboundMessage::Answer { from, data } => OutView::Answer { from: from@, data: data@ },
            OutboundMessage::PeerList { peers } => OutView::PeerList {
                peers: peers@.map_values(|s: String| s@),
            },
            OutboundMessage::PeerConnected { peer_id } => OutView::PeerConnected {
                peer_id: peer_id@,
            },
            OutboundMessage::PeerDisconnected { peer_id } => OutView::PeerDisconnected {
                peer_id: peer_id@,
            },
        }
    }
}

/// Copies a roster.
pub fn clone_ids(v: &Vec<String>) -> (r: Vec<String>)
    ensures
        r@.map_values(|s: String| s@) == v@.map_values(|s: String| s@),
        r@.len() == v@.len(),
{
    let n = v.len();
    let mut r: Vec<String> = Vec::new();
    let mut i: usize = 0;
    while i < n
        invariant
            n == v@.len(),
            i <= n,
            r@.len() == i,
            forall|j: int| 0 <= j < i ==> (#[trigger] r@[j])@ == v@[j]@,
        decreases n - i,
    {
        r.push(v[i].clone());
        i = i + 1;
    }
    proof {
        let a = r@.map_values(|s: String| s@);
        let b = v@.map_values(|s: String| s@);
        assert forall|j: int| 0 <= j < a.len() implies #[trigger] a[j] == b[j] by {
            assert((r@[j])@ == (v@[j])@);
        }
        assert(a =~= b);
    }
    r
}

impl OutboundMessage {
    /// An exact copy: the copy has the same mathematical value.
    pub fn duplicate(&self) -> (r: OutboundMessage)
        ensures
            r@ == self@,
    {
        match self {
            OutboundMessage::PeerInfo { peer_id, data } => OutboundMessage::PeerInfo {
                peer_id: peer_id.clone(),
                data: data.clone(),
            },
            OutboundMessage::Offer { from, data } => OutboundMessage::Offer {
                from: from.clone(),
                data: data.clone(),
            },
            OutboundMessage::Answer { from, data } => OutboundMessage::Answer {
                from: from.clone(),
                data: data.clone(),
            },
            OutboundMessage::PeerList { peers } => OutboundMessage::PeerList {
                peers: clone_ids(peers),
            },
            OutboundMessage::PeerConnected { peer_id } => OutboundMessage::PeerConnected {
                peer_id: peer_id.clone(),
            },
            OutboundMessage::PeerDisconnected { peer_id } => OutboundMessage::PeerDisconnected {
                peer_id: peer_id.clone(),
            },
        }
    }
}

} // verus!
