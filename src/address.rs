use vstd::prelude::*;
use crate::bytes::{be16, be16_value, copy_range, push_be16, push_range, read_be16};
use crate::error::HandshakeError;

verus! {

/// The kind of a destination address, as the SOCKS5 `ATYP` byte names it.
#[derive(Debug, Clone, Copy, PartialEq, Eq, Structural)]
pub enum AddressType {
    IPv4,
    Domain,
    IPv6,
}

/// The `ATYP` byte of each address kind.
pub open spec fn atyp_of(t: AddressType) -> u8 {
    match t {
        AddressType::IPv4 => 1,
        AddressType::Domain => 3,
        AddressType::IPv6 => 4,
    }
}

/// The address kind that an `ATYP` byte names, if any.
pub open spec fn kind_of_atyp(b: u8) -> Option<AddressType> {
    if b == 1 {
        Some(AddressType::IPv4)
    } else if b == 3 {
        Some(AddressType::Domain)
    } else if b == 4 {
        Some(AddressType::IPv6)
    } else {
        None
    }
}

/// Whether an address of `len` bytes is a valid address of kind `t`.
pub open spec fn address_len_ok(t: AddressType, len: nat) -> bool {
    match t {
        AddressType::IPv4 => len == 4,
        AddressType::IPv6 => len == 16,
        AddressType::Domain => 1 <= len <= 255,
    }
}

/// The destination of a proxied connection.
///
/// `address` holds four or sixteen bytes in network order for an IP address,
/// and the bytes of the host name (without a length prefix) for a domain.
#[derive(Debug, Clone)]
pub struct ProxyInfo {
    pub address_type: AddressType,
    pub address: Vec<u8>,
    pub port: u16,
}

impl ProxyInfo {
    /// The length of `address` suits `address_type`.
    pub open spec fn wf(&self) -> bool {
        address_len_ok(self.address_type, self.address@.len())
    }
}

/// The address trailer `ATYP || ADDR || PORT` of a destination.
pub open spec fn trailer(t: AddressType, addr: Seq<u8>, port: u16) -> Seq<u8> {
    match t {
        AddressType::Domain => seq![3u8, addr.len() as u8] + addr + be16(port),
        _ => seq![atyp_of(t)] + addr + be16(port),
    }
}

/// What the start of `b` decodes to as an address trailer: the kind, the
/// address bytes, the port and the number of bytes the trailer takes.
pub open spec fn decode_trailer(b: Seq<u8>) -> Result<(AddressType, Seq<u8>, u16, nat), HandshakeError> {
    if b.len() == 0 {
        Err(HandshakeError::Truncated)
    } else if b[0] == 1 {
        if b.len() < 7 {
            Err(HandshakeError::Truncated)
        } else {
            Ok((AddressType::IPv4, b.subrange(1, 5), be16_value(b[5], b[6]), 7nat))
        }
    } else if b[0] == 4 {
        if b.len() < 19 {
            Err(HandshakeError::Truncated)
        } else {
            Ok((AddressType::IPv6, b.subrange(1, 17), be16_value(b[17], b[18]), 19nat))
        }
    } else if b[0] == 3 {
        if b.len() < 2 {
            Err(HandshakeError::Truncated)
        } else if b[1] == 0 {
            Err(HandshakeError::EmptyDomain)
        } else {
            let n = b[1] as int;
            if b.len() < n + 4 {
                Err(HandshakeError::Truncated)
            } else {
                Ok((AddressType::Domain, b.subrange(2, n + 2), be16_value(b[n + 2], b[n + 3]), (n + 4) as nat))
            }
        }
    } else {
        Err(HandshakeError::UnsupportedAddressType(b[0]))
    }
}

/// Whether `r` is what `decode_trailer(b)` gives, in executable form.
pub open spec fn decoded_as(b: Seq<u8>, r: Result<(ProxyInfo, usize), HandshakeError>) -> bool {
    match r {
        Ok((info, n)) => decode_trailer(b) == Ok::<_, HandshakeError>(
            (info.address_type, info.address@, info.port, n as nat),
        ),
        Err(e) => decode_trailer(b) == Err::<(AddressType, Seq<u8>, u16, nat), _>(e),
    }
}

/// Decoding the trailer of a valid destination gives back that destination
/// and the trailer's length, whatever bytes follow it.
pub proof fn lemma_trailer_round_trip(info: ProxyInfo, rest: Seq<u8>)
    requires
        info.wf(),
    ensures
        decode_trailer(trailer(info.address_type, info.address@, info.port) + rest) == Ok::<_, HandshakeError>(
            (
                info.address_type,
                info.address@,
                info.port,
                trailer(info.address_type, info.address@, info.port).len(),
            ),
        ),
{
    let a = info.address@;
    let t = trailer(info.address_type, a, info.port);
    let b = t + rest;
    let n = a.len() as int;
    match info.address_type {
        AddressType::Domain => {
            assert(b.subrange(2, n + 2) =~= a);
            assert(b[n + 2] == be16(info.port)[0]);
            assert(b[n + 3] == be16(info.port)[1]);
        },
        _ => {
            assert(b.subrange(1, n + 1) =~= a);
            assert(b[n + 1] == be16(info.port)[0]);
            assert(b[n + 2] == be16(info.port)[1]);
        },
    }
}

/// Decoding what encoding a valid destination gives returns that destination
/// and the full length of the encoding.
pub proof fn lemma_codec_round_trip(info: ProxyInfo)
    requires
        info.wf(),
    ensures
        decode_trailer(trailer(info.address_type, info.address@, info.port)) == Ok::<_, HandshakeError>(
            (
                info.address_type,
                info.address@,
                info.port,
                trailer(info.address_type, info.address@, info.port).len(),
            ),
        ),
{
    let t = trailer(info.address_type, info.address@, info.port);
    lemma_trailer_round_trip(info, Seq::empty());
    assert(t + Seq::<u8>::empty() =~= t);
}

impl AddressType {
    /// The address kind named by an `ATYP` byte.
    pub fn with_byte(address_type: u8) -> (r: Result<AddressType, HandshakeError>)
        ensures
            match kind_of_atyp(address_type) {
                Some(t) => r == Ok::<AddressType, HandshakeError>(t),
                None => r == Err::<AddressType, _>(HandshakeError::UnsupportedAddressType(address_type)),
            },
    {
        match address_type {
            1 => Ok(AddressType::IPv4),
            3 => Ok(AddressType::Domain),
            4 => Ok(AddressType::IPv6),
            n => Err(HandshakeError::UnsupportedAddressType(n)),
        }
    }

    /// The `ATYP` byte of this kind.
    pub fn to_byte(&self) -> (r: u8)
        ensures
            r == atyp_of(*self),
    {
        match self {
            AddressType::IPv4 => 1,
            AddressType::Domain => 3,
            AddressType::IPv6 => 4,
        }
    }
}

/// The SOCKS5 address trailer codec.
pub struct Socks5 {}

impl Socks5 {
    /// Decodes the address trailer at the start of `bytes`, returning the
    /// destination and the number of bytes it takes.
    pub fn read_to_socket_addrs(bytes: &[u8]) -> (r: Result<(ProxyInfo, usize), HandshakeError>)
        ensures
            decoded_as(bytes@, r),
            r matches Ok((info, n)) ==> info.wf() && n <= bytes@.len(),
    {
        let len = bytes.len();
        if len == 0 {
            return Err(HandshakeError::Truncated);
        }
        let atyp = bytes[0];
        if atyp == 1 {
            if len < 7 {
                return Err(HandshakeError::Truncated);
            }
            let address = copy_range(bytes, 1, 5);
            let port = read_be16(bytes[5], bytes[6]);
            Ok((ProxyInfo { address_type: AddressType::IPv4, address, port }, 7))
        } else if atyp == 4 {
            if len < 19 {
                return Err(HandshakeError::Truncated);
            }
            let address = copy_range(bytes, 1, 17);
            let port = read_be16(bytes[17], bytes[18]);
            Ok((ProxyInfo { address_type: AddressType::IPv6, address, port }, 19))
        } else if atyp == 3 {
            if len < 2 {
                return Err(HandshakeError::Truncated);
            }
            let n = bytes[1] as usize;
            if n == 0 {
                return Err(HandshakeError::EmptyDomain);
            }
            if len < n + 4 {
                return Err(HandshakeError::Truncated);
            }
            let address = copy_range(bytes, 2, n + 2);
            let port = read_be16(bytes[n + 2], bytes[n + 3]);
            Ok((ProxyInfo { address_type: AddressType::Domain, address, port }, n + 4))
        } else {
            Err(HandshakeError::UnsupportedAddressType(atyp))
        }
    }

    /// Encodes a destination as its address trailer.
    ///
    /// For example host `127.0.0.1`, port 80 gives `[1, 127, 0, 0, 1, 0, 80]`.
    pub fn socks5_addr_arr(host: &Vec<u8>, port: u16, addr_type: &AddressType) -> (r: Vec<u8>)
        requires
            address_len_ok(*addr_type, host@.len()),
        ensures
            r@ == trailer(*addr_type, host@, port),
    {
        let mut out: Vec<u8> = Vec::new();
        out.push(addr_type.to_byte());
        if let AddressType::Domain = addr_type {
            out.push(host.len() as u8);
        }
        push_range(&mut out, host.as_slice(), 0, host.len());
        push_be16(&mut out, port);
        assert(host@.subrange(0, host@.len() as int) =~= host@);
        match addr_type {
            AddressType::Domain => {
                assert(out@ =~= trailer(*addr_type, host@, port));
            },
            _ => {
                assert(out@ =~= trailer(*addr_type, host@, port));
            },
        }
        out
    }
}

} // verus!
