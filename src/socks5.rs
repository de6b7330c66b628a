use vstd::prelude::*;
use crate::address::{decode_trailer, decoded_as, trailer, ProxyInfo, Socks5};
use crate::bytes::{be16, push_be16};
use crate::error::HandshakeError;

verus! {

/// The length of the client's greeting `VER NMETHODS METHODS...` at the
/// front of `b`.
pub open spec fn greeting_len(b: Seq<u8>) -> Result<nat, HandshakeError> {
    if b.len() == 0 {
        Err(HandshakeError::Truncated)
    } else if b[0] != 5 {
        Err(HandshakeError::UnsupportedVersion(b[0]))
    } else if b.len() < 2 || b.len() < 2 + b[1] {
        Err(HandshakeError::Truncated)
    } else {
        Ok((2 + b[1]) as nat)
    }
}

/// What the CONNECT request `VER CMD RSV ATYP ADDR PORT` at the front of `b`
/// decodes to: kind, address, port and the bytes it takes.
pub open spec fn request_decode(b: Seq<u8>) -> Result<(crate::address::AddressType, Seq<u8>, u16, nat), HandshakeError> {
    if b.len() == 0 {
        Err(HandshakeError::Truncated)
    } else if b[0] != 5 {
        Err(HandshakeError::UnsupportedVersion(b[0]))
    } else if b.len() < 2 {
        Err(HandshakeError::Truncated)
    } else if b[1] != 1 {
        Err(HandshakeError::UnsupportedCommand(b[1]))
    } else if b.len() < 3 {
        Err(HandshakeError::Truncated)
    } else if b[2] != 0 {
        Err(HandshakeError::BadReserved(b[2]))
    } else {
        match decode_trailer(b.skip(3)) {
            Ok((t, a, p, n)) => Ok((t, a, p, n + 3)),
            Err(e) => Err(e),
        }
    }
}

/// The success reply `05 00 00 01 0.0.0.0 PORT`.
pub open spec fn success_reply(port: u16) -> Seq<u8> {
    seq![5u8, 0, 0, 1, 0, 0, 0, 0] + be16(port)
}

/// The length of the upstream server's reply to CONNECT at the front of `b`.
pub open spec fn connect_reply_len(b: Seq<u8>) -> Result<nat, HandshakeError> {
    if b.len() < 4 {
        Err(HandshakeError::Truncated)
    } else if b[0] != 5 {
        Err(HandshakeError::UnsupportedVersion(b[0]))
    } else if b[1] != 0 {
        Err(HandshakeError::ConnectRefused(b[1]))
    } else if b[2] != 0 {
        Err(HandshakeError::BadReserved(b[2]))
    } else {
        let need: int = if b[3] == 1 {
            10
        } else if b[3] == 4 {
            22
        } else if b[3] == 3 && b.len() >= 5 {
            7 + b[4]
        } else {
            -1
        };
        if b[3] != 1 && b[3] != 3 && b[3] != 4 {
            Err(HandshakeError::UnsupportedAddressType(b[3]))
        } else if need < 0 || b.len() < need {
            Err(HandshakeError::Truncated)
        } else {
            Ok(need as nat)
        }
    }
}

/// The server side of the SOCKS5 handshake (no authentication, CONNECT).
pub struct Socks5Server {}

impl Socks5Server {
    /// The number of methods the greeting head `VER NMETHODS` announces.
    pub fn method_size(socks5_head: &[u8]) -> (r: Result<u8, HandshakeError>)
        ensures
            socks5_head@.len() == 0 ==> r == Err::<u8, _>(HandshakeError::Truncated),
            socks5_head@.len() > 0 && socks5_head@[0] != 5 ==> r == Err::<u8, _>(
                HandshakeError::UnsupportedVersion(socks5_head@[0]),
            ),
            socks5_head@.len() == 1 && socks5_head@[0] == 5 ==> r == Err::<u8, _>(HandshakeError::Truncated),
            socks5_head@.len() >= 2 && socks5_head@[0] == 5 ==> r == Ok::<u8, HandshakeError>(socks5_head@[1]),
    {
        if socks5_head.len() == 0 {
            return Err(HandshakeError::Truncated);
        }
        if socks5_head[0] != 5 {
            return Err(HandshakeError::UnsupportedVersion(socks5_head[0]));
        }
        if socks5_head.len() < 2 {
            return Err(HandshakeError::Truncated);
        }
        Ok(socks5_head[1])
    }

    /// Checks the client's greeting at the front of `buf`; gives the bytes it
    /// takes and the reply selecting "no authentication", `05 00`.
    pub fn accept_greeting(buf: &[u8]) -> (r: Result<(usize, Vec<u8>), HandshakeError>)
        ensures
            match greeting_len(buf@) {
                Ok(n) => r matches Ok((m, reply)) && m == n && reply@ == seq![5u8, 0],
                Err(e) => r == Err::<(usize, Vec<u8>), _>(e),
            },
    {
        let m = Self::method_size(buf)?;
        if buf.len() < 2 + m as usize {
            return Err(HandshakeError::Truncated);
        }
        let mut reply: Vec<u8> = Vec::new();
        reply.push(5);
        reply.push(0);
        assert(reply@ =~= seq![5u8, 0]);
        Ok((2 + m as usize, reply))
    }

    /// Decodes the CONNECT request at the front of `buf`.
    pub fn read_request(buf: &[u8]) -> (r: Result<(ProxyInfo, usize), HandshakeError>)
        ensures
            match request_decode(buf@) {
                Ok((t, a, p, n)) => r matches Ok((info, m)) && info.address_type == t && info.address@ == a
                    && info.port == p && m == n && info.wf(),
                Err(e) => r == Err::<(ProxyInfo, usize), _>(e),
            },
    {
        if buf.len() == 0 {
            return Err(HandshakeError::Truncated);
        }
        if buf[0] != 5 {
            return Err(HandshakeError::UnsupportedVersion(buf[0]));
        }
        if buf.len() < 2 {
            return Err(HandshakeError::Truncated);
        }
        if buf[1] != 1 {
            return Err(HandshakeError::UnsupportedCommand(buf[1]));
        }
        if buf.len() < 3 {
            return Err(HandshakeError::Truncated);
        }
        if buf[2] != 0 {
            return Err(HandshakeError::BadReserved(buf[2]));
        }
        let tail = crate::bytes::copy_range(buf, 3, buf.len());
        assert(tail@ =~= buf@.skip(3));
        let r = Socks5::read_to_socket_addrs(tail.as_slice());
        assert(decoded_as(buf@.skip(3), r));
        match r {
            Ok((info, n)) => Ok((info, n + 3)),
            Err(e) => Err(e),
        }
    }

    /// The reply that reports the CONNECT as done, naming `port`.
    pub fn write_success_connect(port: u16) -> (r: Vec<u8>)
        ensures
            r@ == success_reply(port),
    {
        let mut head: Vec<u8> = Vec::new();
        head.push(5);
        head.push(0);
        head.push(0);
        head.push(1);
        head.push(0);
        head.push(0);
        head.push(0);
        head.push(0);
        push_be16(&mut head, port);
        assert(head@ =~= success_reply(port));
        head
    }
}

/// The client side of the SOCKS5 handshake toward an upstream proxy.
pub struct Sock5ClientConnector {}

impl Sock5ClientConnector {
    /// The greeting offering only "no authentication": `05 01 00`.
    pub fn greeting() -> (r: Vec<u8>)
        ensures
            r@ == seq![5u8, 1, 0],
    {
        let mut r: Vec<u8> = Vec::new();
        r.push(5);
        r.push(1);
        r.push(0);
        assert(r@ =~= seq![5u8, 1, 0]);
        r
    }

    /// Accepts the server's method choice only where it is `05 00`.
    pub fn check_method_reply(reply: &[u8]) -> (r: Result<(), HandshakeError>)
        ensures
            reply@.len() < 2 ==> r == Err::<(), _>(HandshakeError::Truncated),
            reply@.len() >= 2 ==> (r is Ok <==> (reply@[0] == 5 && reply@[1] == 0)),
            reply@.len() >= 2 && !(reply@[0] == 5 && reply@[1] == 0) ==> r == Err::<(), _>(
                HandshakeError::MethodRejected,
            ),
    {
        if reply.len() < 2 {
            return Err(HandshakeError::Truncated);
        }
        if reply[0] == 5 && reply[1] == 0 {
            Ok(())
        } else {
            Err(HandshakeError::MethodRejected)
        }
    }

    /// The CONNECT request for `proxy_info`: `05 01 00` and its trailer.
    pub fn connect_request(proxy_info: &ProxyInfo) -> (r: Vec<u8>)
        requires
            proxy_info.wf(),
        ensures
            r@ == seq![5u8, 1, 0] + trailer(proxy_info.address_type, proxy_info.address@, proxy_info.port),
    {
        let mut r = Self::greeting();
        let mut t = Socks5::socks5_addr_arr(&proxy_info.address, proxy_info.port, &proxy_info.address_type);
        r.append(&mut t);
        r
    }

    /// The length of the server's CONNECT reply at the front of `buf`, whose
    /// bound address is then skipped.
    pub fn reply_len(buf: &[u8]) -> (r: Result<usize, HandshakeError>)
        ensures
            match connect_reply_len(buf@) {
                Ok(n) => r == Ok::<usize, HandshakeError>(n as usize),
                Err(e) => r == Err::<usize, _>(e),
            },
    {
        if buf.len() < 4 {
            return Err(HandshakeError::Truncated);
        }
        if buf[0] != 5 {
            return Err(HandshakeError::UnsupportedVersion(buf[0]));
        }
        if buf[1] != 0 {
            return Err(HandshakeError::ConnectRefused(buf[1]));
        }
        if buf[2] != 0 {
            return Err(HandshakeError::BadReserved(buf[2]));
        }
        let need: usize = match buf[3] {
            1 => 10,
            4 => 22,
            3 => {
                if buf.len() < 5 {
                    return Err(HandshakeError::Truncated);
                }
                7 + buf[4] as usize
            },
            n => {
                return Err(HandshakeError::UnsupportedAddressType(n));
            },
        };
        if buf.len() < need {
            return Err(HandshakeError::Truncated);
        }
        Ok(need)
    }
}

} // verus!
