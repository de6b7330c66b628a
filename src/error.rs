use vstd::prelude::*;

verus! {

/// Why a SOCKS5 exchange, or an address trailer, was refused.
#[derive(Debug, Clone, Copy, PartialEq, Eq, Structural)]
pub enum HandshakeError {
    /// Fewer bytes than the message needs.
    Truncated,
    /// A version byte other than 5.
    UnsupportedVersion(u8),
    /// A command other than CONNECT.
    UnsupportedCommand(u8),
    /// An address type other than 1, 3 or 4.
    UnsupportedAddressType(u8),
    /// A domain name of length zero.
    EmptyDomain,
    /// A reserved byte that is not zero.
    BadReserved(u8),
    /// The upstream server did not accept "no authentication".
    MethodRejected,
    /// The upstream server answered the CONNECT request with this reply code.
    ConnectRefused(u8),
}

/// Errors of the Shadowsocks AEAD layer.
#[derive(Debug, Clone, Copy, PartialEq, Eq, Structural)]
pub enum EncryptError {
    InvalidLength(u8),
    /// The salt does not have the cipher's key length, which is given.
    InvalidSaltSize(usize),
    /// Sealing was refused: the nonces are used up.
    EncryptErr,
    /// Opening failed (the tag did not verify), or the nonces are used up.
    DecryptErr,
}

} // verus!
