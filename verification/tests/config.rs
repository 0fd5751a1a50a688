use tunnel_switch::config::{
    resolve, ConfigError, Options, Plan, Transport, TAP_PORT, TAP_PORT_COUNT, TUN_PORT,
};

const NONE: Options = Options { server: None, connect: None, tap: None, tun: None };
const HOST: [u8; 4] = [203, 0, 113, 5];

#[test]
fn the_defaults() {
    assert_eq!(TAP_PORT, 9500);
    assert_eq!(TUN_PORT, 9501);
    assert_eq!(TAP_PORT_COUNT, 3);
}

#[test]
fn no_option_runs_both_servers_on_every_address() {
    assert_eq!(
        resolve(&NONE),
        Ok(Plan::Server { bind: [0, 0, 0, 0], tun_port: Some(9501), tap_port: Some(9500) })
    );
}

#[test]
fn a_server_binds_to_the_address_given() {
    let options = Options { server: Some(Some([10, 1, 2, 3])), ..NONE };
    assert_eq!(
        resolve(&options),
        Ok(Plan::Server { bind: [10, 1, 2, 3], tun_port: Some(9501), tap_port: Some(9500) })
    );
    let options = Options { server: Some(None), ..NONE };
    assert_eq!(
        resolve(&options),
        Ok(Plan::Server { bind: [0, 0, 0, 0], tun_port: Some(9501), tap_port: Some(9500) })
    );
}

#[test]
fn a_server_runs_only_the_transports_asked_for() {
    let options = Options { server: Some(None), tap: Some(None), ..NONE };
    assert_eq!(
        resolve(&options),
        Ok(Plan::Server { bind: [0, 0, 0, 0], tun_port: None, tap_port: Some(9500) })
    );
    let options = Options { server: Some(None), tun: Some(Some(7000)), ..NONE };
    assert_eq!(
        resolve(&options),
        Ok(Plan::Server { bind: [0, 0, 0, 0], tun_port: Some(7000), tap_port: None })
    );
    let options = Options { server: Some(None), tun: Some(None), tap: Some(Some(7001)), ..NONE };
    assert_eq!(
        resolve(&options),
        Ok(Plan::Server { bind: [0, 0, 0, 0], tun_port: Some(9501), tap_port: Some(7001) })
    );
}

#[test]
fn a_client_without_a_transport_uses_layer_3() {
    let options = Options { connect: Some(HOST), ..NONE };
    assert_eq!(
        resolve(&options),
        Ok(Plan::Client { host: HOST, port: 9501, transport: Transport::Tun })
    );
}

#[test]
fn a_client_takes_the_port_given_with_its_transport() {
    let options = Options { connect: Some(HOST), tun: Some(Some(1234)), ..NONE };
    assert_eq!(
        resolve(&options),
        Ok(Plan::Client { host: HOST, port: 1234, transport: Transport::Tun })
    );
    let options = Options { connect: Some(HOST), tap: Some(None), ..NONE };
    assert_eq!(
        resolve(&options),
        Ok(Plan::Client { host: HOST, port: 9500, transport: Transport::Tap })
    );
    let options = Options { connect: Some(HOST), tap: Some(Some(4321)), ..NONE };
    assert_eq!(
        resolve(&options),
        Ok(Plan::Client { host: HOST, port: 4321, transport: Transport::Tap })
    );
}

#[test]
fn both_roles_are_an_error() {
    let options = Options { server: Some(None), connect: Some(HOST), ..NONE };
    assert_eq!(resolve(&options), Err(ConfigError::BothRoles));
    let options = Options {
        server: Some(Some([10, 0, 0, 1])),
        connect: Some(HOST),
        tap: Some(None),
        tun: Some(None),
    };
    assert_eq!(resolve(&options), Err(ConfigError::BothRoles));
}

#[test]
fn a_client_with_both_transports_is_an_error() {
    let options = Options { connect: Some(HOST), tap: Some(None), tun: Some(Some(1)), ..NONE };
    assert_eq!(resolve(&options), Err(ConfigError::BothTransports));
}

#[test]
fn the_errors_in_words() {
    assert_eq!(ConfigError::BothRoles.message(), "can not specify both server and client mode");
    assert_eq!(
        ConfigError::BothTransports.message(),
        "client can not specify both --tap-port and --tun-port"
    );
    assert_ne!(ConfigError::BothRoles.exit_status(), 0);
    assert_eq!(ConfigError::BothTransports.exit_status(), 1);
}

#[test]
fn the_devices_of_a_client() {
    assert_eq!(Transport::Tun.client_device(), "tun0");
    assert!(!Transport::Tun.is_tap());
    assert_eq!(Transport::Tap.client_device(), "tap0");
    assert!(Transport::Tap.is_tap());
}
