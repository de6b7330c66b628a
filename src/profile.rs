use vstd::prelude::*;

verus! {

/// The protocols an adapter can speak.
#[derive(Debug, Clone, Copy, PartialEq, Eq, Structural)]
pub enum ProtocalType {
    Original,
    Socks5,
    SsAes128Gcm,
    SsAes256Gcm,
    Chacha20Poly1305,
    Raw,
}

/// Whether an adapter initiates connections or accepts them.
#[derive(Debug, Clone, Copy, PartialEq, Eq, Structural)]
pub enum ConnectMode {
    Active,
    Passive,
}

/// The settings of an active (outbound) adapter.
#[derive(Debug, Clone)]
pub struct BaseActiveConfig {
    /// Remote address: IPv4, IPv6 or a domain.
    pub remote_host: String,
    pub remote_port: u16,
    /// Required by some protocols.
    pub password: Option<String>,
}

/// The settings of a passive (listening) adapter.
#[derive(Debug, Clone)]
pub struct BasePassiveConfig {
    /// Local address: IPv4 or IPv6.
    pub local_host: String,
    pub local_port: u16,
    /// Required by some protocols.
    pub password: Option<String>,
}

/// The settings of the raw outbound adapter.
#[derive(Debug, Clone)]
pub struct RawActiveConfig {
    /// A DNS server to resolve domains with, instead of the system's.
    pub dns: Option<String>,
}

} // verus!
