//! SOCKS5 and HTTP CONNECT front-end tests.

use mytunnel::http::{parse_connect_target, parse_port, parse_request_line, HttpError};
use mytunnel::protocol::ProtocolError;
use mytunnel::socks5::{
    encode_reply, encode_socks5_udp_response, parse_address, parse_socks5_udp,
    select_auth_method, zero_bind_addr_v4, BindAddr, Socks5Host, ATYP_DOMAIN, ATYP_IPV4,
    AUTH_NONE, AUTH_NO_ACCEPTABLE, REP_SUCCESS, VERSION,
};

#[test]
fn test_parse_connect_target() {
    let (host, port) = parse_connect_target("example.com:443").unwrap();
    assert_eq!(host, "example.com");
    assert_eq!(port, 443);

    let (host, port) = parse_connect_target("192.168.1.1:8080").unwrap();
    assert_eq!(host, "192.168.1.1");
    assert_eq!(port, 8080);

    let (host, port) = parse_connect_target("[::1]:443").unwrap();
    assert_eq!(host, "::1");
    assert_eq!(port, 443);
}

#[test]
fn test_parse_connect_target_errors() {
    assert_eq!(
        parse_connect_target("no-port-here").unwrap_err(),
        HttpError::InvalidTarget
    );
    assert_eq!(
        parse_connect_target("host:notanumber").unwrap_err(),
        HttpError::InvalidPort
    );
    assert_eq!(
        parse_connect_target("host:70000").unwrap_err(),
        HttpError::InvalidPort
    );
    assert_eq!(
        parse_connect_target("[::1]443").unwrap_err(),
        HttpError::InvalidTarget
    );
    assert_eq!(parse_connect_target("host:").unwrap_err(), HttpError::InvalidPort);
}

#[test]
fn test_parse_port_range() {
    assert_eq!(parse_port(b"0").unwrap(), 0);
    assert_eq!(parse_port(b"65535").unwrap(), 65535);
    assert_eq!(parse_port(b"65536").unwrap_err(), HttpError::InvalidPort);
    assert_eq!(parse_port(b"").unwrap_err(), HttpError::InvalidPort);
    assert_eq!(parse_port(b"00443").unwrap(), 443);
}

#[test]
fn test_http_status_codes() {
    assert_eq!(HttpError::BadRequestLine.status_code(), 400);
    assert_eq!(HttpError::MethodNotAllowed.status_code(), 405);
}

#[test]
fn test_select_auth_method() {
    assert_eq!(select_auth_method(&[0x00]), AUTH_NONE);
    assert_eq!(select_auth_method(&[0x02, 0x00]), AUTH_NONE);
    assert_eq!(select_auth_method(&[0x02]), AUTH_NO_ACCEPTABLE);
    assert_eq!(select_auth_method(&[]), AUTH_NO_ACCEPTABLE);
}

#[test]
fn test_parse_address_ipv4() {
    let data = [ATYP_IPV4, 127, 0, 0, 1, 0x01, 0xbb];
    let (host, port, used) = parse_address(&data).unwrap();
    assert_eq!(host, Socks5Host::V4([127, 0, 0, 1]));
    assert_eq!(port, 443);
    assert_eq!(used, 7);
}

#[test]
fn test_parse_address_domain() {
    let mut data = vec![ATYP_DOMAIN, 11];
    data.extend_from_slice(b"example.com");
    data.extend_from_slice(&443u16.to_be_bytes());
    let (host, port, used) = parse_address(&data).unwrap();
    assert_eq!(host, Socks5Host::Domain(b"example.com".to_vec()));
    assert_eq!(port, 443);
    assert_eq!(used, 4 + 11);
}

#[test]
fn test_parse_address_errors() {
    assert_eq!(parse_address(&[]).unwrap_err(), ProtocolError::TooShort);
    assert_eq!(
        parse_address(&[ATYP_IPV4, 1, 2]).unwrap_err(),
        ProtocolError::Truncated
    );
    assert_eq!(
        parse_address(&[0x09, 0, 0]).unwrap_err(),
        ProtocolError::UnknownAddressType(0x09)
    );
}

#[test]
fn test_encode_reply() {
    let reply = encode_reply(REP_SUCCESS, &zero_bind_addr_v4());
    assert_eq!(reply, vec![VERSION, REP_SUCCESS, 0x00, ATYP_IPV4, 0, 0, 0, 0, 0, 0]);

    let reply = encode_reply(
        REP_SUCCESS,
        &BindAddr::V4 { ip: [127, 0, 0, 1], port: 1080 },
    );
    assert_eq!(
        reply,
        vec![VERSION, REP_SUCCESS, 0x00, ATYP_IPV4, 127, 0, 0, 1, 0x04, 0x38]
    );
}

#[test]
fn test_socks5_udp_round_trip() {
    // a UDP response datagram parses back to its own host, port and payload
    let datagram = encode_socks5_udp_response(b"dns.google", 53, b"answer").unwrap();
    let (host, port, payload_start) = parse_socks5_udp(&datagram).unwrap();
    assert_eq!(host, Socks5Host::Domain(b"dns.google".to_vec()));
    assert_eq!(port, 53);
    assert_eq!(&datagram[payload_start..], b"answer");
}

#[test]
fn test_parse_socks5_udp_fragment_rejected() {
    let mut datagram = encode_socks5_udp_response(b"h", 1, b"x").unwrap();
    datagram[2] = 1;
    assert_eq!(
        parse_socks5_udp(&datagram).unwrap_err(),
        ProtocolError::Fragmented
    );
    assert_eq!(
        parse_socks5_udp(&[0, 0]).unwrap_err(),
        ProtocolError::TooShort
    );
}

#[test]
fn test_parse_socks5_udp_bad_address() {
    // an IPv4 address cut short after the header
    assert_eq!(
        parse_socks5_udp(&[0, 0, 0, ATYP_IPV4, 127, 0]).unwrap_err(),
        ProtocolError::Truncated
    );
    // an address type nothing defines
    assert_eq!(
        parse_socks5_udp(&[0, 0, 0, 0x09, 1, 2, 3]).unwrap_err(),
        ProtocolError::UnknownAddressType(0x09)
    );
}

#[test]
fn test_parse_request_line() {
    assert_eq!(
        parse_request_line("CONNECT example.com:443 HTTP/1.1").unwrap(),
        "example.com:443"
    );
    assert_eq!(
        parse_request_line("GET / HTTP/1.1").unwrap_err(),
        HttpError::MethodNotAllowed
    );
    assert_eq!(
        parse_request_line("CONNECT example.com:443").unwrap_err(),
        HttpError::BadRequestLine
    );
    assert_eq!(parse_request_line("").unwrap_err(), HttpError::BadRequestLine);
}
