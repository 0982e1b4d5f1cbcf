//! Wire protocol between tunnel client and tunnel server.
//!
//! A TCP tunnel request travels on a bidirectional stream as
//! `[type(1)][port(2 BE)][hostlen(1)][host(hostlen)]`; the server answers with
//! a single status byte. A UDP relay travels as a datagram
//! `[port(2 BE)][hostlen(1)][host(hostlen)][payload]`.

use vstd::prelude::*;
use vstd::string::StringSliceAdditionalSpecFns;

verus! {

/// Request type byte of a TCP tunnel request.
pub const TCP_CONNECT: u8 = 0x01;

/// Status byte: the tunnel was established.
pub const STATUS_OK: u8 = 0x00;

/// Status byte: the request was rejected or the dial failed.
pub const STATUS_ERROR: u8 = 0xFF;

/// Errors of the wire codec.
#[derive(Debug, Clone, Copy, PartialEq, Eq, Structural)]
pub enum ProtocolError {
    /// The host name is longer than 255 bytes.
    HostTooLong,
    /// The data is shorter than the fixed header.
    TooShort,
    /// The host field does not fit the data that follows the header.
    Truncated,
    /// An empty response buffer.
    EmptyResponse,
    /// The server answered `STATUS_ERROR`.
    ServerError,
    /// An unrecognised status byte.
    UnknownStatus(u8),
    /// An unrecognised address type byte.
    UnknownAddressType(u8),
    /// A fragmented datagram; fragmentation is unsupported.
    Fragmented,
}

/// High byte of a port in network order.
pub open spec fn port_hi(port: u16) -> u8 {
    (port / 256) as u8
}

/// Low byte of a port in network order.
pub open spec fn port_lo(port: u16) -> u8 {
    (port % 256) as u8
}

/// The port encoded by two network-order bytes.
pub open spec fn port_value(hi: u8, lo: u8) -> u16 {
    (hi * 256 + lo) as u16
}

/// The exact bytes of a TCP tunnel request for `host:port`.
pub open spec fn tcp_request_bytes(host: Seq<u8>, port: u16) -> Seq<u8> {
    seq![TCP_CONNECT, port_hi(port), port_lo(port), host.len() as u8] + host
}

/// The exact bytes of a UDP relay datagram for `host:port` carrying `payload`.
pub open spec fn udp_packet_bytes(host: Seq<u8>, port: u16, payload: Seq<u8>) -> Seq<u8> {
    seq![port_hi(port), port_lo(port), host.len() as u8] + host + payload
}

/// A decoded TCP tunnel request.
#[derive(Debug)]
pub struct TcpRequest {
    /// The request type byte, `TCP_CONNECT` for a tunnel request.
    pub req_type: u8,
    /// The target host name, as raw bytes.
    pub host: Vec<u8>,
    /// The target port.
    pub port: u16,
}

/// A decoded UDP relay datagram.
#[derive(Debug)]
pub struct UdpPacket {
    /// The target host name, as raw bytes.
    pub host: Vec<u8>,
    /// The target port.
    pub port: u16,
    /// The opaque payload.
    pub payload: Vec<u8>,
}

/// Encode a TCP tunnel request: `[type][port hi][port lo][hostlen][host]`.
pub fn encode_tcp_request(host: &str, port: u16) -> (r: Result<Vec<u8>, ProtocolError>)
    ensures
        match r {
            Ok(v) => host.spec_bytes().len() <= 255
                && v@ == tcp_request_bytes(host.spec_bytes(), port),
            Err(e) => host.spec_bytes().len() > 255 && e == ProtocolError::HostTooLong,
        },
{
    let host_bytes: &[u8] = host.as_bytes();
    if host_bytes.len() > 255 {
        return Err(ProtocolError::HostTooLong);
    }
    let mut buf: Vec<u8> = Vec::with_capacity(4 + host_bytes.len());
    buf.push(TCP_CONNECT);
    buf.push((port / 256) as u8);
    buf.push((port % 256) as u8);
    buf.push(host_bytes.len() as u8);
    let mut tail: Vec<u8> = vstd::slice::slice_to_vec(host_bytes);
    buf.append(&mut tail);
    proof {
        assert(buf@ =~= tcp_request_bytes(host.spec_bytes(), port));
    }
    Ok(buf)
}

/// Decode a TCP tunnel request from one whole request's bytes.
///
/// Succeeds exactly when the data holds the 4-byte header and then exactly as
/// many host bytes as the header's length field says.
pub fn decode_tcp_request(data: &[u8]) -> (r: Result<TcpRequest, ProtocolError>)
    ensures
        match r {
            Ok(req) => data@.len() >= 4 && data@.len() == 4 + data@[3]
                && req.req_type == data@[0]
                && req.port == port_value(data@[1], data@[2])
                && req.host@ == data@.subrange(4, data@.len() as int),
            Err(ProtocolError::TooShort) => data@.len() < 4,
            Err(ProtocolError::Truncated) => data@.len() >= 4 && data@.len() != 4 + data@[3],
            Err(_) => false,
        },
{
    if data.len() < 4 {
        return Err(ProtocolError::TooShort);
    }
    let host_len = data[3] as usize;
    if data.len() != 4 + host_len {
        return Err(ProtocolError::Truncated);
    }
    let host = vstd::slice::slice_to_vec(vstd::slice::slice_subrange(data, 4, data.len()));
    let port = (data[1] as u16) * 256 + (data[2] as u16);
    Ok(TcpRequest { req_type: data[0], host, port })
}

/// Decode the one-byte response of a TCP tunnel request.
pub fn decode_tcp_response(data: &[u8]) -> (r: Result<(), ProtocolError>)
    ensures
        match r {
            Ok(()) => data@.len() >= 1 && data@[0] == STATUS_OK,
            Err(ProtocolError::EmptyResponse) => data@.len() == 0,
            Err(ProtocolError::ServerError) => data@.len() >= 1 && data@[0] == STATUS_ERROR,
            Err(ProtocolError::UnknownStatus(b)) => data@.len() >= 1 && data@[0] == b
                && b != STATUS_OK && b != STATUS_ERROR,
            Err(_) => false,
        },
{
    if data.len() == 0 {
        return Err(ProtocolError::EmptyResponse);
    }
    let status = data[0];
    if status == STATUS_OK {
        Ok(())
    } else if status == STATUS_ERROR {
        Err(ProtocolError::ServerError)
    } else {
        Err(ProtocolError::UnknownStatus(status))
    }
}

/// Encode a UDP relay datagram: `[port hi][port lo][hostlen][host][payload]`.
pub fn encode_udp_packet(host: &str, port: u16, payload: &[u8]) -> (r: Result<
    Vec<u8>,
    ProtocolError,
>)
    ensures
        match r {
            Ok(v) => host.spec_bytes().len() <= 255
                && v@ == udp_packet_bytes(host.spec_bytes(), port, payload@),
            Err(e) => host.spec_bytes().len() > 255 && e == ProtocolError::HostTooLong,
        },
{
    let host_bytes: &[u8] = host.as_bytes();
    if host_bytes.len() > 255 {
        return Err(ProtocolError::HostTooLong);
    }
    let mut buf: Vec<u8> = Vec::new();
    buf.push((port / 256) as u8);
    buf.push((port % 256) as u8);
    buf.push(host_bytes.len() as u8);
    let mut tail: Vec<u8> = vstd::slice::slice_to_vec(host_bytes);
    buf.append(&mut tail);
    let mut body: Vec<u8> = vstd::slice::slice_to_vec(payload);
    buf.append(&mut body);
    proof {
        assert(buf@ =~= udp_packet_bytes(host.spec_bytes(), port, payload@));
    }
    Ok(buf)
}

/// Decode a UDP relay datagram. The payload is whatever follows the host.
///
/// Succeeds exactly when at least 4 bytes arrived and the host field fits.
pub fn decode_udp_packet(data: &[u8]) -> (r: Result<UdpPacket, ProtocolError>)
    ensures
        match r {
            Ok(p) => data@.len() >= 4 && data@.len() >= 3 + data@[2]
                && p.port == port_value(data@[0], data@[1])
                && p.host@ == data@.subrange(3, 3 + data@[2] as int)
                && p.payload@ == data@.subrange(3 + data@[2] as int, data@.len() as int),
            Err(ProtocolError::TooShort) => data@.len() < 4,
            Err(ProtocolError::Truncated) => data@.len() >= 4 && data@.len() < 3 + data@[2],
            Err(_) => false,
        },
{
    if data.len() < 4 {
        return Err(ProtocolError::TooShort);
    }
    let host_len = data[2] as usize;
    if data.len() - 3 < host_len {
        return Err(ProtocolError::Truncated);
    }
    let host = vstd::slice::slice_to_vec(vstd::slice::slice_subrange(data, 3, 3 + host_len));
    let payload = vstd::slice::slice_to_vec(
        vstd::slice::slice_subrange(data, 3 + host_len, data.len()),
    );
    let port = (data[0] as u16) * 256 + (data[1] as u16);
    Ok(UdpPacket { host, port, payload })
}

/// Law: decoding an encoded TCP tunnel request gives back the host and port,
/// for every host of at most 255 bytes and every port.
pub proof fn lemma_tcp_request_round_trip(host: Seq<u8>, port: u16)
    requires
        host.len() <= 255,
    ensures
        ({
            let d = tcp_request_bytes(host, port);
            &&& d.len() == 4 + host.len()
            &&& d.len() == 4 + d[3]
            &&& d[0] == TCP_CONNECT
            &&& port_value(d[1], d[2]) == port
            &&& d.subrange(4, d.len() as int) == host
        }),
{
    let d = tcp_request_bytes(host, port);
    assert(port_value(port_hi(port), port_lo(port)) == port) by {
        assert(port / 256 * 256 + port % 256 == port) by (nonlinear_arith);
    };
    assert(d.subrange(4, d.len() as int) =~= host);
}

/// Law: a well-formed TCP tunnel request re-encodes to the same bytes, so the
/// encoding is a bijection between `(host, port)` pairs and request packets.
pub proof fn lemma_tcp_request_reencode(data: Seq<u8>)
    requires
        data.len() >= 4,
        data.len() == 4 + data[3],
        data[0] == TCP_CONNECT,
    ensures
        tcp_request_bytes(data.subrange(4, data.len() as int), port_value(data[1], data[2]))
            == data,
{
    let host = data.subrange(4, data.len() as int);
    let port = port_value(data[1], data[2]);
    assert(port_hi(port) == data[1] && port_lo(port) == data[2]) by {
        assert((data[1] * 256 + data[2]) / 256 == data[1] && (data[1] * 256 + data[2]) % 256
            == data[2]) by (nonlinear_arith);
    };
    assert(tcp_request_bytes(host, port) =~= data);
}

/// Law: decoding an encoded UDP relay datagram gives back the host, port and
/// payload, for every host of at most 255 bytes, whenever host and payload are
/// not both empty (a three-byte datagram is rejected as too short).
pub proof fn lemma_udp_packet_round_trip(host: Seq<u8>, port: u16, payload: Seq<u8>)
    requires
        host.len() <= 255,
        host.len() + payload.len() >= 1,
    ensures
        ({
            let d = udp_packet_bytes(host, port, payload);
            &&& d.len() == 3 + host.len() + payload.len()
            &&& d.len() >= 4
            &&& d.len() >= 3 + d[2]
            &&& port_value(d[0], d[1]) == port
            &&& d.subrange(3, 3 + d[2] as int) == host
            &&& d.subrange(3 + d[2] as int, d.len() as int) == payload
        }),
{
    let d = udp_packet_bytes(host, port, payload);
    assert(port_value(port_hi(port), port_lo(port)) == port) by {
        assert(port / 256 * 256 + port % 256 == port) by (nonlinear_arith);
    };
    assert(d.subrange(3, 3 + d[2] as int) =~= host);
    assert(d.subrange(3 + d[2] as int, d.len() as int) =~= payload);
}

/// Law: a well-formed UDP relay datagram re-encodes to the same bytes, so the
/// encoding is a bijection between `(host, port, payload)` triples and
/// datagrams of at least four bytes.
pub proof fn lemma_udp_packet_reencode(data: Seq<u8>)
    requires
        data.len() >= 4,
        data.len() >= 3 + data[2],
    ensures
        udp_packet_bytes(
            data.subrange(3, 3 + data[2] as int),
            port_value(data[0], data[1]),
            data.subrange(3 + data[2] as int, data.len() as int),
        ) == data,
{
    let host = data.subrange(3, 3 + data[2] as int);
    let payload = data.subrange(3 + data[2] as int, data.len() as int);
    let port = port_value(data[0], data[1]);
    assert(port_hi(port) == data[0] && port_lo(port) == data[1]) by {
        assert((data[0] * 256 + data[1]) / 256 == data[0] && (data[0] * 256 + data[1]) % 256
            == data[1]) by (nonlinear_arith);
    };
    assert(udp_packet_bytes(host, port, payload) =~= data);
}

} // verus!
