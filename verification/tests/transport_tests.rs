use xrs::display::Hostname;
use xrs::display::Protocol;
use xrs::handshake::build_init_message;
use xrs::handshake::classify_response;
use xrs::handshake::response_outcome;
use xrs::handshake::ConnectError;
use xrs::handshake::HandshakeResponse;
use xrs::handshake::InitConnectionRequest;
use xrs::transport::select_transport;
use xrs::transport::socket_path;
use xrs::transport::tcp_port;
use xrs::transport::IpType;
use xrs::transport::TransportError;
use xrs::transport::TransportPlan;

#[test]
fn selects_forced_ipv4_tcp_with_host() {
    let plan = select_transport(
        &Some(Protocol::Inet),
        &Some(Hostname::Other(String::from("10.0.0.5"))),
        2,
        true,
    )
    .unwrap();
    assert_eq!(
        plan,
        TransportPlan::Tcp {
            ip_type: Some(IpType::V4),
            host: Some(String::from("10.0.0.5")),
            port: 6002,
        }
    );
}

#[test]
fn ipv6_literal_forces_ipv6() {
    let plan = select_transport(
        &None,
        &Some(Hostname::Inet6(String::from("fe80::1"))),
        0,
        true,
    )
    .unwrap();
    assert_eq!(
        plan,
        TransportPlan::Tcp {
            ip_type: Some(IpType::V6),
            host: Some(String::from("fe80::1")),
            port: 6000,
        }
    );
}

#[test]
fn unspecified_ip_version_with_host() {
    let plan = select_transport(
        &Some(Protocol::Tcp),
        &Some(Hostname::Other(String::from("example.com"))),
        1,
        true,
    )
    .unwrap();
    assert_eq!(
        plan,
        TransportPlan::Tcp {
            ip_type: None,
            host: Some(String::from("example.com")),
            port: 6001,
        }
    );
}

#[test]
fn defaults_to_domain_socket_where_supported() {
    let plan = select_transport(&None, &None, 3, true).unwrap();
    assert_eq!(
        plan,
        TransportPlan::Unix {
            path: String::from("/tmp/.X11-unix/X3"),
        }
    );
    let plan = select_transport(&None, &None, 3, false).unwrap();
    assert_eq!(
        plan,
        TransportPlan::Tcp {
            ip_type: None,
            host: None,
            port: 6003,
        }
    );
}

#[test]
fn unix_marker_selects_domain_socket() {
    let plan = select_transport(&Some(Protocol::Tcp), &Some(Hostname::Unix), 1, true).unwrap();
    assert_eq!(
        plan,
        TransportPlan::Unix {
            path: String::from("/tmp/.X11-unix/X1"),
        }
    );
    assert_eq!(
        select_transport(&Some(Protocol::Unix), &Some(Hostname::Unix), 1, false),
        Err(TransportError::IllFormatted)
    );
}

#[test]
fn decnet_host_fails_explicitly() {
    assert_eq!(
        select_transport(&None, &Some(Hostname::DecNet(String::from("node"))), 1, true),
        Err(TransportError::DecNetUnsupported)
    );
}

#[test]
fn rejected_combinations_are_ill_formatted() {
    assert_eq!(
        select_transport(
            &Some(Protocol::Unix),
            &Some(Hostname::Other(String::from("h"))),
            1,
            true
        ),
        Err(TransportError::IllFormatted)
    );
    assert_eq!(
        select_transport(&Some(Protocol::DecNet), &None, 1, true),
        Err(TransportError::IllFormatted)
    );
}

#[test]
fn port_is_6000_plus_display_with_16_bit_wrap() {
    assert_eq!(tcp_port(0), 6000);
    assert_eq!(tcp_port(2), 6002);
    assert_eq!(tcp_port(-1), 5999);
    assert_eq!(tcp_port(32767), 38767);
    assert_eq!(tcp_port(-32768), 38768);
}

#[test]
fn socket_path_is_fixed_directory_plus_display() {
    assert_eq!(socket_path(3), "/tmp/.X11-unix/X3");
    assert_eq!(socket_path(-1), "/tmp/.X11-unix/X-1");
}

#[test]
fn init_message_without_auth() {
    let req = InitConnectionRequest {};
    let bytes = req.wire_bytes();
    assert_eq!(bytes, vec![0x42, 0, 0, 0, 11, 0, 0, 0, 0, 0, 0, 0, 0]);
}

#[test]
fn init_message_pads_auth_fields_to_blocks() {
    let name = b"MIT-MAGIC-COOKIE-1"; // 18 bytes, padded with 2 zeros
    let data = b"abcd"; // 4 bytes, no padding
    let bytes = build_init_message(name, data);
    assert_eq!(bytes.len(), 13 + 18 + 2 + 4);
    assert_eq!(&bytes[..3], &[0x42, 0, 0]);
    assert_eq!(&bytes[3..5], &[0, 11]);
    assert_eq!(&bytes[5..7], &[0, 0]);
    assert_eq!(&bytes[7..9], &[0, 18]);
    assert_eq!(&bytes[9..11], &[0, 4]);
    assert_eq!(&bytes[11..13], &[0, 0]);
    assert_eq!(&bytes[13..31], &name[..]);
    assert_eq!(&bytes[31..33], &[0, 0]);
    assert_eq!(&bytes[33..37], &data[..]);
}

#[test]
fn classify_response_by_discriminant() {
    assert_eq!(
        classify_response(&[1, 5, 6]),
        Some(HandshakeResponse::Success(vec![5, 6]))
    );
    assert_eq!(classify_response(&[0]), Some(HandshakeResponse::Failed(vec![])));
    assert_eq!(
        classify_response(&[2, 9]),
        Some(HandshakeResponse::Authenticate(vec![9]))
    );
    assert_eq!(classify_response(&[]), None);
    assert_eq!(classify_response(&[7, 1]), None);
}

#[test]
fn response_outcome_maps_to_errors() {
    assert_eq!(
        response_outcome(HandshakeResponse::Success(vec![1])),
        Ok(vec![1])
    );
    assert_eq!(
        response_outcome(HandshakeResponse::Failed(vec![2])),
        Err(ConnectError::Failed(vec![2]))
    );
    assert_eq!(
        response_outcome(HandshakeResponse::Authenticate(vec![3])),
        Err(ConnectError::Auth(vec![3]))
    );
}
