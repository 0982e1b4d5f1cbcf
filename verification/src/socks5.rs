//! SOCKS5 protocol constants and codecs (RFC 1928).
//!
//! The client's local proxy speaks SOCKS5: a greeting whose auth methods are
//! answered with no-auth or rejection, a request whose address is one of
//! IPv4, domain, or IPv6, and a reply that carries a status and a bind
//! address. UDP ASSOCIATE datagrams carry the same address shape after a
//! reserved word and a fragment byte.

use vstd::prelude::*;

use crate::protocol::{port_hi, port_lo, port_value, ProtocolError};

verus! {

/// SOCKS5 version byte.
pub const VERSION: u8 = 0x05;

/// Authentication method: none.
pub const AUTH_NONE: u8 = 0x00;

/// Authentication method: username and password.
pub const AUTH_USERPASS: u8 = 0x02;

/// Authentication answer: no offered method is acceptable.
pub const AUTH_NO_ACCEPTABLE: u8 = 0xFF;

/// Command: connect.
pub const CMD_CONNECT: u8 = 0x01;

/// Command: bind (unsupported here).
pub const CMD_BIND: u8 = 0x02;

/// Command: UDP associate.
pub const CMD_UDP_ASSOCIATE: u8 = 0x03;

/// Address type: IPv4.
pub const ATYP_IPV4: u8 = 0x01;

/// Address type: domain name.
pub const ATYP_DOMAIN: u8 = 0x03;

/// Address type: IPv6.
pub const ATYP_IPV6: u8 = 0x04;

/// Reply: succeeded.
pub const REP_SUCCESS: u8 = 0x00;

/// Reply: general failure.
pub const REP_GENERAL_FAILURE: u8 = 0x01;

/// Reply: connection not allowed by ruleset.
pub const REP_CONN_NOT_ALLOWED: u8 = 0x02;

/// Reply: network unreachable.
pub const REP_NETWORK_UNREACHABLE: u8 = 0x03;

/// Reply: host unreachable.
pub const REP_HOST_UNREACHABLE: u8 = 0x04;

/// Reply: connection refused.
pub const REP_CONN_REFUSED: u8 = 0x05;

/// Reply: TTL expired.
pub const REP_TTL_EXPIRED: u8 = 0x06;

/// Reply: command not supported.
pub const REP_CMD_NOT_SUPPORTED: u8 = 0x07;

/// Reply: address type not supported.
pub const REP_ATYP_NOT_SUPPORTED: u8 = 0x08;

/// A parsed SOCKS5 target address.
#[derive(Debug, Clone, PartialEq, Eq)]
pub enum Socks5Host {
    /// An IPv4 address, four octets.
    V4([u8; 4]),
    /// A domain name, as raw bytes.
    Domain(Vec<u8>),
    /// An IPv6 address, sixteen octets.
    V6([u8; 16]),
}

/// A bind address for a SOCKS5 reply.
#[derive(Debug, Clone, Copy, PartialEq, Eq)]
pub enum BindAddr {
    /// An IPv4 socket address.
    V4 {
        /// The four octets.
        ip: [u8; 4],
        /// The port.
        port: u16,
    },
    /// An IPv6 socket address.
    V6 {
        /// The sixteen octets.
        ip: [u8; 16],
        /// The port.
        port: u16,
    },
}

/// Whether the byte is on the list.
pub open spec fn spec_byte_listed(list: Seq<u8>, b: u8) -> bool {
    exists|i: int| 0 <= i < list.len() && #[trigger] list[i] == b
}

/// Pick the authentication method for a greeting: no-auth when the client
/// offers it, otherwise the rejection byte.
pub fn select_auth_method(methods: &[u8]) -> (r: u8)
    ensures
        r == if spec_byte_listed(methods@, AUTH_NONE) {
            AUTH_NONE
        } else {
            AUTH_NO_ACCEPTABLE
        },
{
    let mut i: usize = 0;
    while i < methods.len()
        invariant
            i <= methods@.len(),
            forall|k: int| 0 <= k < i ==> #[trigger] methods@[k] != AUTH_NONE,
        decreases methods@.len() - i,
    {
        if methods[i] == AUTH_NONE {
            return AUTH_NONE;
        }
        i += 1;
    }
    AUTH_NO_ACCEPTABLE
}

/// Parse a SOCKS5 address: one address-type byte, then the address, then a
/// two-byte network-order port. On success the third component says how many
/// bytes the address and port took.
pub fn parse_address(data: &[u8]) -> (r: Result<(Socks5Host, u16, usize), ProtocolError>)
    ensures
        match r {
            Ok((host, port, used)) => {
                &&& data@.len() >= 1
                &&& used <= data@.len()
                &&& match host {
                    Socks5Host::V4(oct) => data@[0] == ATYP_IPV4 && data@.len() >= 7 && used == 7
                        && oct@ == data@.subrange(1, 5) && port == port_value(data@[5], data@[6]),
                    Socks5Host::Domain(name) => data@[0] == ATYP_DOMAIN && data@.len() >= 2
                        && used == 4 + data@[1] && data@.len() >= used && name@ == data@.subrange(
                        2,
                        2 + data@[1] as int,
                    ) && port == port_value(
                        data@[2 + data@[1] as int],
                        data@[3 + data@[1] as int],
                    ),
                    Socks5Host::V6(oct) => data@[0] == ATYP_IPV6 && data@.len() >= 19 && used
                        == 19 && oct@ == data@.subrange(1, 17) && port == port_value(
                        data@[17],
                        data@[18],
                    ),
                }
            },
            Err(ProtocolError::TooShort) => data@.len() == 0,
            Err(ProtocolError::Truncated) => data@.len() >= 1 && (data@[0] == ATYP_IPV4
                && data@.len() < 7 || data@[0] == ATYP_DOMAIN && (data@.len() < 2 || data@.len()
                < 4 + data@[1]) || data@[0] == ATYP_IPV6 && data@.len() < 19),
            Err(ProtocolError::UnknownAddressType(t)) => data@.len() >= 1 && data@[0] == t && t
                != ATYP_IPV4 && t != ATYP_DOMAIN && t != ATYP_IPV6,
            Err(_) => false,
        },
{
    if data.len() == 0 {
        return Err(ProtocolError::TooShort);
    }
    let atyp = data[0];
    if atyp == ATYP_IPV4 {
        if data.len() < 7 {
            return Err(ProtocolError::Truncated);
        }
        let oct: [u8; 4] = [data[1], data[2], data[3], data[4]];
        let port = (data[5] as u16) * 256 + (data[6] as u16);
        proof {
            assert(oct@ =~= data@.subrange(1, 5));
        }
        Ok((Socks5Host::V4(oct), port, 7))
    } else if atyp == ATYP_DOMAIN {
        if data.len() < 2 {
            return Err(ProtocolError::Truncated);
        }
        let name_len = data[1] as usize;
        if data.len() < 4 + name_len {
            return Err(ProtocolError::Truncated);
        }
        let name = vstd::slice::slice_to_vec(vstd::slice::slice_subrange(data, 2, 2 + name_len));
        let port = (data[2 + name_len] as u16) * 256 + (data[3 + name_len] as u16);
        Ok((Socks5Host::Domain(name), port, 4 + name_len))
    } else if atyp == ATYP_IPV6 {
        if data.len() < 19 {
            return Err(ProtocolError::Truncated);
        }
        let oct: [u8; 16] = [
            data[1],
            data[2],
            data[3],
            data[4],
            data[5],
            data[6],
            data[7],
            data[8],
            data[9],
            data[10],
            data[11],
            data[12],
            data[13],
            data[14],
            data[15],
            data[16],
        ];
        let port = (data[17] as u16) * 256 + (data[18] as u16);
        proof {
            assert(oct@ =~= data@.subrange(1, 17));
        }
        Ok((Socks5Host::V6(oct), port, 19))
    } else {
        Err(ProtocolError::UnknownAddressType(atyp))
    }
}

/// The exact bytes of a SOCKS5 reply with this status and bind address.
pub open spec fn spec_reply_bytes(status: u8, bind_addr: BindAddr) -> Seq<u8> {
    match bind_addr {
        BindAddr::V4 { ip, port } => seq![VERSION, status, 0u8, ATYP_IPV4] + ip@ + seq![
            port_hi(port),
            port_lo(port),
        ],
        BindAddr::V6 { ip, port } => seq![VERSION, status, 0u8, ATYP_IPV6] + ip@ + seq![
            port_hi(port),
            port_lo(port),
        ],
    }
}

/// Encode a SOCKS5 reply: version, status, a reserved zero, then the bind
/// address in wire shape.
pub fn encode_reply(status: u8, bind_addr: &BindAddr) -> (r: Vec<u8>)
    ensures
        r@ == spec_reply_bytes(status, *bind_addr),
{
    let mut buf: Vec<u8> = Vec::with_capacity(22);
    buf.push(VERSION);
    buf.push(status);
    buf.push(0x00);
    match bind_addr {
        BindAddr::V4 { ip, port } => {
            buf.push(ATYP_IPV4);
            let mut i: usize = 0;
            while i < 4
                invariant
                    i <= 4,
                    buf@ =~= seq![VERSION, status, 0u8, ATYP_IPV4] + ip@.take(i as int),
                decreases 4 - i,
            {
                buf.push(ip[i]);
                proof {
                    assert(buf@ =~= seq![VERSION, status, 0u8, ATYP_IPV4] + ip@.take(
                        i as int + 1,
                    ));
                }
                i += 1;
            }
            buf.push((*port / 256) as u8);
            buf.push((*port % 256) as u8);
            proof {
                assert(ip@.take(4) =~= ip@);
                assert(buf@ =~= spec_reply_bytes(status, *bind_addr));
            }
        },
        BindAddr::V6 { ip, port } => {
            buf.push(ATYP_IPV6);
            let mut i: usize = 0;
            while i < 16
                invariant
                    i <= 16,
                    buf@ =~= seq![VERSION, status, 0u8, ATYP_IPV6] + ip@.take(i as int),
                decreases 16 - i,
            {
                buf.push(ip[i]);
                proof {
                    assert(buf@ =~= seq![VERSION, status, 0u8, ATYP_IPV6] + ip@.take(
                        i as int + 1,
                    ));
                }
                i += 1;
            }
            buf.push((*port / 256) as u8);
            buf.push((*port % 256) as u8);
            proof {
                assert(ip@.take(16) =~= ip@);
                assert(buf@ =~= spec_reply_bytes(status, *bind_addr));
            }
        },
    }
    buf
}

/// The zero IPv4 bind address used where no concrete address applies.
pub fn zero_bind_addr_v4() -> (r: BindAddr)
    ensures
        r == (BindAddr::V4 { ip: [0u8, 0u8, 0u8, 0u8], port: 0u16 }),
{
    BindAddr::V4 { ip: [0, 0, 0, 0], port: 0 }
}

/// Parse one SOCKS5 UDP ASSOCIATE datagram: two reserved bytes, a fragment
/// byte (fragmentation is unsupported), then an address and the payload. On
/// success the third component is the payload's offset.
pub fn parse_socks5_udp(data: &[u8]) -> (r: Result<(Socks5Host, u16, usize), ProtocolError>)
    ensures
        match r {
            Ok((host, port, payload_start)) => data@.len() >= 4 && data@[2] == 0 && 3
                <= payload_start <= data@.len() && ({
                    let tail = data@.subrange(3, data@.len() as int);
                    let used = payload_start - 3;
                    match host {
                        Socks5Host::V4(oct) => tail[0] == ATYP_IPV4 && tail.len() >= 7 && used
                            == 7 && oct@ == tail.subrange(1, 5) && port == port_value(
                            tail[5],
                            tail[6],
                        ),
                        Socks5Host::Domain(name) => tail[0] == ATYP_DOMAIN && tail.len() >= 2
                            && used == 4 + tail[1] && tail.len() >= used && name@
                            == tail.subrange(2, 2 + tail[1] as int) && port == port_value(
                            tail[2 + tail[1] as int],
                            tail[3 + tail[1] as int],
                        ),
                        Socks5Host::V6(oct) => tail[0] == ATYP_IPV6 && tail.len() >= 19 && used
                            == 19 && oct@ == tail.subrange(1, 17) && port == port_value(
                            tail[17],
                            tail[18],
                        ),
                    }
                }),
            Err(ProtocolError::TooShort) => data@.len() < 4,
            Err(ProtocolError::Fragmented) => data@.len() >= 4 && data@[2] != 0,
            Err(ProtocolError::Truncated) => data@.len() >= 4 && data@[2] == 0 && ({
                let tail = data@.subrange(3, data@.len() as int);
                tail[0] == ATYP_IPV4 && tail.len() < 7 || tail[0] == ATYP_DOMAIN && (tail.len()
                    < 2 || tail.len() < 4 + tail[1]) || tail[0] == ATYP_IPV6 && tail.len() < 19
            }),
            Err(ProtocolError::UnknownAddressType(t)) => data@.len() >= 4 && data@[2] == 0 && ({
                let tail = data@.subrange(3, data@.len() as int);
                tail[0] == t && t != ATYP_IPV4 && t != ATYP_DOMAIN && t != ATYP_IPV6
            }),
            Err(_) => false,
        },
{
    if data.len() < 4 {
        return Err(ProtocolError::TooShort);
    }
    if data[2] != 0 {
        return Err(ProtocolError::Fragmented);
    }
    let tail = vstd::slice::slice_subrange(data, 3, data.len());
    match parse_address(tail) {
        Ok((host, port, used)) => Ok((host, port, 3 + used)),
        Err(e) => Err(e),
    }
}

/// The exact bytes of a SOCKS5 UDP response datagram carrying a domain-typed
/// host and the relayed payload.
pub open spec fn spec_udp_response_bytes(host: Seq<u8>, port: u16, payload: Seq<u8>) -> Seq<u8> {
    seq![0u8, 0u8, 0u8, ATYP_DOMAIN, host.len() as u8] + host + seq![
        port_hi(port),
        port_lo(port),
    ] + payload
}

/// Encode a SOCKS5 UDP response datagram: reserved zeros, no fragmentation,
/// the domain-typed host, the port, then the payload.
pub fn encode_socks5_udp_response(host: &[u8], port: u16, payload: &[u8]) -> (r: Result<
    Vec<u8>,
    ProtocolError,
>)
    ensures
        match r {
            Ok(v) => host@.len() <= 255 && v@ == spec_udp_response_bytes(host@, port, payload@),
            Err(e) => host@.len() > 255 && e == ProtocolError::HostTooLong,
        },
{
    if host.len() > 255 {
        return Err(ProtocolError::HostTooLong);
    }
    let mut buf: Vec<u8> = Vec::new();
    buf.push(0);
    buf.push(0);
    buf.push(0);
    buf.push(ATYP_DOMAIN);
    buf.push(host.len() as u8);
    let mut name: Vec<u8> = vstd::slice::slice_to_vec(host);
    buf.append(&mut name);
    buf.push((port / 256) as u8);
    buf.push((port % 256) as u8);
    let mut body: Vec<u8> = vstd::slice::slice_to_vec(payload);
    buf.append(&mut body);
    proof {
        assert(buf@ =~= spec_udp_response_bytes(host@, port, payload@));
    }
    Ok(buf)
}

} // verus!
