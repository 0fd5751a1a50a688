//! The forwarding and session-management core of a virtual-network tunnel
//! switch, which bridges virtual network interfaces over UDP.
//!
//! Three topologies are covered. The client's [`relay`] forwards between
//! one interface and one fixed remote address. The layer-3 server's
//! [`rendezvous`] state forwards to whoever sent the most recent datagram.
//! The layer-2 server's learning [`switch`] serves several peers through
//! one socket: it learns MAC addresses, gives each peer a port slot from
//! the table in [`ports`], and reclaims the slot lazily once the peer's
//! [`forwarder`] has reported a failure. [`session`] states what holds of
//! every run of the switch.
//!
//! Nothing here performs I/O. Every function decides, from plain values,
//! what the threads around it are to do next, and is verified against its
//! contract.

pub mod config;
pub mod device;
pub mod forwarder;
pub mod mac;
pub mod ports;
pub mod relay;
pub mod rendezvous;
pub mod session;
pub mod switch;
