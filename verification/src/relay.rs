//! The point-to-point relay of the client role: frames read from the
//! virtual interface go to one fixed remote address, and every datagram
//! received, whoever sent it, goes to the interface.

use vstd::prelude::*;

verus! {

/// A transport endpoint: an IPv4 address and a UDP port.
#[derive(Clone, Copy, Debug, PartialEq, Eq, Hash)]
pub struct PeerAddress {
    pub host: [u8; 4],
    pub port: u16,
}

/// The wildcard host: every local address.
pub const ANY_HOST: [u8; 4] = [0, 0, 0, 0];

/// What becomes of a frame read from the virtual interface.
#[derive(Clone, Copy, Debug, PartialEq, Eq)]
pub enum Outbound {
    /// Send it, as one datagram, to this address.
    SendTo(PeerAddress),
    /// No destination is known: the frame is lost.
    Discard,
}

/// The relay's configuration: where frames go, and where the relay listens.
#[derive(Clone, Copy, Debug, PartialEq, Eq)]
pub struct Relay {
    pub remote: PeerAddress,
    pub local: PeerAddress,
}

impl Relay {
    /// The relay towards `host` at `port`. It listens on the same port of
    /// every local address.
    pub open spec fn towards(host: [u8; 4], port: u16) -> Relay {
        Relay { remote: PeerAddress { host, port }, local: PeerAddress { host: ANY_HOST, port } }
    }

    /// The relay towards `host` at `port`.
    pub fn new(host: [u8; 4], port: u16) -> (r: Relay)
        ensures
            r == Relay::towards(host, port),
    {
        Relay { remote: PeerAddress { host, port }, local: PeerAddress { host: ANY_HOST, port } }
    }

    /// A frame read from the interface goes to the remote address.
    pub fn on_frame(&self) -> (o: Outbound)
        ensures
            o == Outbound::SendTo(self.remote),
    {
        Outbound::SendTo(self.remote)
    }

    /// Whether a datagram from `source` is written to the interface: always,
    /// since the source is not held against the remote address.
    pub fn on_datagram(&self, source: &PeerAddress) -> (deliver: bool)
        ensures
            deliver,
    {
        true
    }
}

} // verus!
