//! Wire protocol codec tests.

use mytunnel::protocol::{
    decode_tcp_request, decode_tcp_response, decode_udp_packet, encode_tcp_request,
    encode_udp_packet, ProtocolError, STATUS_ERROR, STATUS_OK, TCP_CONNECT,
};

#[test]
fn test_encode_tcp_request() {
    let req = encode_tcp_request("example.com", 443).unwrap();
    assert_eq!(req[0], TCP_CONNECT);
    assert_eq!(u16::from_be_bytes([req[1], req[2]]), 443);
    assert_eq!(req[3], 11);
    assert_eq!(&req[4..], b"example.com");
}

#[test]
fn test_decode_tcp_response() {
    assert!(decode_tcp_response(&[STATUS_OK]).is_ok());
    assert!(decode_tcp_response(&[STATUS_ERROR]).is_err());
    assert!(decode_tcp_response(&[]).is_err());
}

#[test]
fn test_encode_udp_packet() {
    let packet = encode_udp_packet("dns.google", 53, b"test").unwrap();
    assert_eq!(u16::from_be_bytes([packet[0], packet[1]]), 53);
    assert_eq!(packet[2], 10);
    assert_eq!(&packet[3..13], b"dns.google");
    assert_eq!(&packet[13..], b"test");
}

#[test]
fn test_decode_udp_packet() {
    let data = encode_udp_packet("test.com", 8080, b"payload").unwrap();
    let packet = decode_udp_packet(&data).unwrap();
    assert_eq!(packet.host, b"test.com".to_vec());
    assert_eq!(packet.port, 8080);
    assert_eq!(&packet.payload[..], b"payload");
}

#[test]
fn test_tcp_request_round_trip() {
    let data = encode_tcp_request("example.com", 443).unwrap();
    let req = decode_tcp_request(&data).unwrap();
    assert_eq!(req.req_type, TCP_CONNECT);
    assert_eq!(req.host, b"example.com".to_vec());
    assert_eq!(req.port, 443);
}

#[test]
fn test_tcp_request_host_lengths() {
    // lengths 0, 1 and 255 encode and come back; 256 is rejected
    for len in [0usize, 1, 255] {
        let host = "a".repeat(len);
        let data = encode_tcp_request(&host, 80).unwrap();
        assert_eq!(data.len(), 4 + len);
        let req = decode_tcp_request(&data).unwrap();
        assert_eq!(req.host.len(), len);
        assert_eq!(req.port, 80);
    }
    let long = "a".repeat(256);
    assert_eq!(
        encode_tcp_request(&long, 80).unwrap_err(),
        ProtocolError::HostTooLong
    );
    assert_eq!(
        encode_udp_packet(&long, 80, b"x").unwrap_err(),
        ProtocolError::HostTooLong
    );
}

#[test]
fn test_port_extremes() {
    for port in [0u16, 65535] {
        let data = encode_tcp_request("h", port).unwrap();
        let req = decode_tcp_request(&data).unwrap();
        assert_eq!(req.port, port);

        let dgram = encode_udp_packet("h", port, b"p").unwrap();
        let packet = decode_udp_packet(&dgram).unwrap();
        assert_eq!(packet.port, port);
    }
}

#[test]
fn test_udp_payload_sizes() {
    // payload sizes 0, 1 and the largest IPv4 UDP payload
    for size in [0usize, 1, 65507] {
        let payload = vec![0xabu8; size];
        let data = encode_udp_packet("example.com", 53, &payload).unwrap();
        let packet = decode_udp_packet(&data).unwrap();
        assert_eq!(packet.host, b"example.com".to_vec());
        assert_eq!(packet.payload.len(), size);
    }
}

#[test]
fn test_udp_packet_round_trip_empty_host() {
    // an empty host still round-trips as long as a payload is present
    let data = encode_udp_packet("", 9, b"x").unwrap();
    let packet = decode_udp_packet(&data).unwrap();
    assert_eq!(packet.host.len(), 0);
    assert_eq!(packet.port, 9);
    assert_eq!(&packet.payload[..], b"x");
}

#[test]
fn test_decode_rejects_short_and_truncated() {
    assert_eq!(
        decode_udp_packet(&[0, 53, 0]).unwrap_err(),
        ProtocolError::TooShort
    );
    // host length says 5 but only 2 host bytes follow
    assert_eq!(
        decode_udp_packet(&[0, 53, 5, 97, 98]).unwrap_err(),
        ProtocolError::Truncated
    );
    assert_eq!(
        decode_tcp_request(&[1, 0, 80]).unwrap_err(),
        ProtocolError::TooShort
    );
    // host length says 3 but four host bytes follow
    assert_eq!(
        decode_tcp_request(&[1, 0, 80, 3, 97, 98, 99, 100]).unwrap_err(),
        ProtocolError::Truncated
    );
}

#[test]
fn test_decode_tcp_response_unknown_status() {
    assert_eq!(
        decode_tcp_response(&[0x7f]).unwrap_err(),
        ProtocolError::UnknownStatus(0x7f)
    );
}
