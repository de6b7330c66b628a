//! A pluggable TCP proxy core: SOCKS5 handshakes, the SOCKS5 address trailer,
//! and Shadowsocks AEAD stream framing, with their contracts proved.

pub mod bytes;
pub mod error;
pub mod address;
pub mod nonce;
pub mod aead;
pub mod kdf;
pub mod ss;
pub mod stream;
pub mod socks5;
pub mod profile;
pub mod selector;
pub mod raw;
