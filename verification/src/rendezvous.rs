//! The rendezvous server of the layer-3 server role: it forwards to
//! whoever sent the most recent datagram, and drops frames while no sender
//! is known.

use vstd::prelude::*;
use crate::relay::{Outbound, PeerAddress};

verus! {

/// The one remote address that the server tracks, if it has seen one. The
/// two forwarding threads share it behind a lock.
#[derive(Clone, Copy, Debug, PartialEq, Eq)]
pub struct Rendezvous {
    pub peer: Option<PeerAddress>,
}

impl Rendezvous {
    /// The state after a datagram from `source`: whatever was known before,
    /// `source` is the peer now.
    pub open spec fn learned(self, source: PeerAddress) -> Rendezvous {
        Rendezvous { peer: Some(source) }
    }

    /// The state after datagrams from `sources`, in order.
    pub open spec fn after(self, sources: Seq<PeerAddress>) -> Rendezvous
        decreases sources.len(),
    {
        if sources.len() == 0 {
            self
        } else {
            self.after(sources.drop_last()).learned(sources.last())
        }
    }

    /// Where a frame read from the interface goes.
    pub open spec fn outbound(self) -> Outbound {
        match self.peer {
            Some(peer) => Outbound::SendTo(peer),
            None => Outbound::Discard,
        }
    }

    /// The state at startup: no peer is known.
    pub fn new() -> (r: Rendezvous)
        ensures
            r.peer is None,
    {
        Rendezvous { peer: None }
    }

    /// A datagram from `source` arrived: `source` becomes the peer. The
    /// datagram is written to the interface in every case.
    pub fn on_datagram(&mut self, source: PeerAddress)
        ensures
            *final(self) == old(self).learned(source),
            final(self).peer == Some(source),
    {
        self.peer = Some(source);
    }

    /// A frame was read from the interface: it goes to the peer, or is
    /// dropped while none is known.
    pub fn on_frame(&self) -> (o: Outbound)
        ensures
            o == self.outbound(),
    {
        match self.peer {
            Some(peer) => Outbound::SendTo(peer),
            None => Outbound::Discard,
        }
    }
}

/// The most recent sender wins: after datagrams from `a` and then from `b`,
/// frames go to `b`, whatever peer was known before.
pub proof fn lemma_latest_sender_wins(r: Rendezvous, a: PeerAddress, b: PeerAddress)
    ensures
        r.learned(a).learned(b).outbound() == Outbound::SendTo(b),
{
}

/// After any datagrams at all, frames go to the sender of the last one;
/// before the first datagram they are dropped.
pub proof fn lemma_rendezvous_tracks_last(sources: Seq<PeerAddress>)
    ensures
        sources.len() > 0 ==> (Rendezvous { peer: None }).after(sources).outbound()
            == Outbound::SendTo(sources.last()),
        sources.len() == 0 ==> (Rendezvous { peer: None }).after(sources).outbound()
            == Outbound::Discard,
{
}

} // verus!
