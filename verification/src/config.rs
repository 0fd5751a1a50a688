//! From the command line's options to what the process runs: one client
//! relay, or the servers of a server role. Conflicting options are an
//! error, found before any socket or interface is opened.

use vstd::prelude::*;
use crate::device::{TAP_DEV, TUN_DEV};
use crate::relay::ANY_HOST;

verus! {

/// The default port of the layer-2 switch.
pub const TAP_PORT: u16 = 9500;

/// The default port of the layer-3 tunnel.
pub const TUN_PORT: u16 = 9501;

/// How many peers the layer-2 switch serves at a time.
pub const TAP_PORT_COUNT: usize = 3;

/// The options as the command line gave them. An option that takes an
/// optional value is `Some(None)` where it came without one.
#[derive(Clone, Copy, Debug, PartialEq, Eq)]
pub struct Options {
    /// Server role, with the address to bind to.
    pub server: Option<Option<[u8; 4]>>,
    /// Client role, with the host to connect to.
    pub connect: Option<[u8; 4]>,
    /// The layer-2 transport, with its port.
    pub tap: Option<Option<u16>>,
    /// The layer-3 transport, with its port.
    pub tun: Option<Option<u16>>,
}

/// The two kinds of transport.
#[derive(Clone, Copy, Debug, PartialEq, Eq)]
pub enum Transport {
    /// Layer 3: IP packets through a point-to-point interface.
    Tun,
    /// Layer 2: Ethernet frames through a multi-peer interface.
    Tap,
}

/// Options that contradict each other.
#[derive(Clone, Copy, Debug, PartialEq, Eq)]
pub enum ConfigError {
    /// Both the server and the client role were asked for.
    BothRoles,
    /// A client was asked for both kinds of transport.
    BothTransports,
}

/// What the process is to run.
#[derive(Clone, Copy, Debug, PartialEq, Eq)]
pub enum Plan {
    /// One relay to `host` at `port`, over one kind of transport.
    Client { host: [u8; 4], port: u16, transport: Transport },
    /// The servers bound to `bind`: the rendezvous server where `tun_port`
    /// is given, the learning switch where `tap_port` is.
    Server { bind: [u8; 4], tun_port: Option<u16>, tap_port: Option<u16> },
}

/// The port of a transport that was asked for with or without a port, or
/// nothing where it was not asked for.
pub open spec fn chosen_port(option: Option<Option<u16>>, default: u16) -> Option<u16> {
    match option {
        Some(Some(port)) => Some(port),
        Some(None) => Some(default),
        None => None,
    }
}

/// The plan of a client: layer 2 where `tap` was given, else layer 3, on
/// the port given with the option or on the transport's default port.
pub open spec fn client_plan(host: [u8; 4], tap: Option<Option<u16>>, tun: Option<Option<u16>>)
    -> Plan {
    match chosen_port(tap, TAP_PORT) {
        Some(port) => Plan::Client { host, port, transport: Transport::Tap },
        None => Plan::Client {
            host,
            port: match chosen_port(tun, TUN_PORT) {
                Some(port) => port,
                None => TUN_PORT,
            },
            transport: Transport::Tun,
        },
    }
}

/// The plan of a server: the transports that were asked for, or both on
/// their default ports where none was.
pub open spec fn server_plan(bind: [u8; 4], tap: Option<Option<u16>>, tun: Option<Option<u16>>)
    -> Plan {
    if tap is None && tun is None {
        Plan::Server { bind, tun_port: Some(TUN_PORT), tap_port: Some(TAP_PORT) }
    } else {
        Plan::Server {
            bind,
            tun_port: chosen_port(tun, TUN_PORT),
            tap_port: chosen_port(tap, TAP_PORT),
        }
    }
}

/// The address that a server binds to: the one given, else every local
/// address.
pub open spec fn bind_address(server: Option<Option<[u8; 4]>>) -> [u8; 4] {
    match server {
        Some(Some(host)) => host,
        _ => ANY_HOST,
    }
}

/// What `options` ask for.
pub open spec fn planned(options: Options) -> Result<Plan, ConfigError> {
    if options.server is Some && options.connect is Some {
        Err(ConfigError::BothRoles)
    } else {
        match options.connect {
            Some(host) => if options.tap is Some && options.tun is Some {
                Err(ConfigError::BothTransports)
            } else {
                Ok(client_plan(host, options.tap, options.tun))
            },
            None => Ok(server_plan(bind_address(options.server), options.tap, options.tun)),
        }
    }
}

fn port_or(option: Option<Option<u16>>, default: u16) -> (port: Option<u16>)
    ensures
        port == chosen_port(option, default),
{
    match option {
        Some(Some(port)) => Some(port),
        Some(None) => Some(default),
        None => None,
    }
}

/// Decides what to run. Asking for both roles is an error, and so is a
/// client with both transports. A client without a transport uses layer 3;
/// a server without one runs both.
pub fn resolve(options: &Options) -> (plan: Result<Plan, ConfigError>)
    ensures
        plan == planned(*options),
        plan is Err <==> (options.server is Some && options.connect is Some) || (options.connect
            is Some && options.tap is Some && options.tun is Some),
{
    if options.server.is_some() && options.connect.is_some() {
        return Err(ConfigError::BothRoles);
    }
    match options.connect {
        Some(host) => {
            if options.tap.is_some() && options.tun.is_some() {
                Err(ConfigError::BothTransports)
            } else {
                match port_or(options.tap, TAP_PORT) {
                    Some(port) => Ok(Plan::Client { host, port, transport: Transport::Tap }),
                    None => {
                        let port = match port_or(options.tun, TUN_PORT) {
                            Some(port) => port,
                            None => TUN_PORT,
                        };
                        Ok(Plan::Client { host, port, transport: Transport::Tun })
                    },
                }
            }
        },
        None => {
            let bind = match options.server {
                Some(Some(host)) => host,
                _ => ANY_HOST,
            };
            let mut tun_port = port_or(options.tun, TUN_PORT);
            let mut tap_port = port_or(options.tap, TAP_PORT);
            if tun_port.is_none() && tap_port.is_none() {
                tun_port = Some(TUN_PORT);
                tap_port = Some(TAP_PORT);
            }
            Ok(Plan::Server { bind, tun_port, tap_port })
        },
    }
}

impl Transport {
    /// Whether this is the layer-2 transport.
    pub fn is_tap(&self) -> (tap: bool)
        ensures
            tap == (*self is Tap),
    {
        match self {
            Transport::Tap => true,
            Transport::Tun => false,
        }
    }

    /// The interface that a client opens for this transport.
    pub fn client_device(&self) -> (dev: &'static str)
        ensures
            dev@ == if *self is Tap {
                TAP_DEV@
            } else {
                TUN_DEV@
            },
    {
        match self {
            Transport::Tap => TAP_DEV,
            Transport::Tun => TUN_DEV,
        }
    }
}

impl ConfigError {
    /// What the operator is told.
    pub fn message(&self) -> (text: &'static str)
        ensures
            text@ == match *self {
                ConfigError::BothRoles => "can not specify both server and client mode"@,
                ConfigError::BothTransports =>
                    "client can not specify both --tap-port and --tun-port"@,
            },
    {
        match self {
            ConfigError::BothRoles => "can not specify both server and client mode",
            ConfigError::BothTransports => "client can not specify both --tap-port and --tun-port",
        }
    }

    /// The status that the process exits with: not zero.
    pub fn exit_status(&self) -> (status: i32)
        ensures
            status == 1,
    {
        1
    }
}

} // verus!
