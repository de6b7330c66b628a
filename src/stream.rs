use vstd::prelude::*;
use vstd::utf8::encode_utf8;
use crate::address::{decode_trailer, trailer, ProxyInfo, Socks5};
use crate::aead::{key_len, AeadType};
use crate::bytes::{copy_range, push_range};
use crate::error::{EncryptError, HandshakeError};
use crate::kdf::{master_key, session_subkey};
use crate::nonce::nonce_space;
use crate::ss::{chunk_count, chunk_step, chunk_wire, decode_frames, frames, SsAead, MAX_CHUNK};

verus! {

/// Relies on rand's `random`: a value drawn from the thread-local
/// cryptographic generator; nothing is known of it.
pub assume_specification<T>[ rand::random::<T> ]() -> (r: T)
    where
        rand::distributions::Standard: rand::distributions::Distribution<T>,
;

/// Draws a fresh salt of the cipher's key length.
pub fn gen_random_salt(aead_type: &AeadType) -> (r: Vec<u8>)
    ensures
        r@.len() == key_len(*aead_type),
{
    let mut salt: Vec<u8> = Vec::new();
    match aead_type {
        AeadType::AES128GCM => {
            let a: [u8; 16] = rand::random::<[u8; 16]>();
            push_range(&mut salt, &a, 0, 16);
        },
        AeadType::AES256GCM | AeadType::Chacha20Poly1305 => {
            let a: [u8; 32] = rand::random::<[u8; 32]>();
            push_range(&mut salt, &a, 0, 32);
        },
    }
    salt
}

/// The destination and the residual payload that the first decrypted chunk
/// of a Shadowsocks stream carries: an address trailer, then payload bytes.
pub fn split_first_chunk(plain: &[u8]) -> (r: Result<(ProxyInfo, Vec<u8>), HandshakeError>)
    ensures
        match decode_trailer(plain@) {
            Ok((t, a, port, n)) => r matches Ok((info, rest)) && info.address_type == t && info.address@ == a
                && info.port == port && info.wf() && rest@ == plain@.skip(n as int),
            Err(e) => r == Err::<(ProxyInfo, Vec<u8>), _>(e),
        },
{
    match Socks5::read_to_socket_addrs(plain) {
        Ok((info, n)) => {
            let rest = copy_range(plain, n, plain.len());
            assert(rest@ =~= plain@.skip(n as int));
            Ok((info, rest))
        },
        Err(e) => Err(e),
    }
}

/// The sending half of a Shadowsocks stream: it puts the salt, and the
/// destination's address trailer where there is one, before the first chunk.
pub struct SsStreamWriter {
    ss_aead: SsAead,
    salt_pending: bool,
    proxy_info: Option<ProxyInfo>,
}

/// The bytes a write of `data` puts on the wire, given the framer `a`, whether
/// the salt is still to be sent, and the destination still to be announced.
pub open spec fn writer_output(a: SsAead, salt_pending: bool, header: Option<ProxyInfo>, data: Seq<u8>) -> Seq<u8> {
    let c = a.counter();
    let salt = if salt_pending { a.salt_view() } else { Seq::empty() };
    match header {
        Some(i) => salt + chunk_wire(a.kind(), a.key(), c, trailer(i.address_type, i.address@, i.port))
            + frames(a.kind(), a.key(), c + 2, data),
        None => salt + frames(a.kind(), a.key(), c, data),
    }
}

/// The plaintext a write of `data` carries: the address trailer, if the
/// destination is still to be announced, then `data`.
pub open spec fn writer_plaintext(header: Option<ProxyInfo>, data: Seq<u8>) -> Seq<u8> {
    match header {
        Some(i) => trailer(i.address_type, i.address@, i.port) + data,
        None => data,
    }
}

/// The number of salt bytes a write puts first.
pub open spec fn salt_prefix_len(a: SsAead, salt_pending: bool) -> int {
    if salt_pending {
        a.salt_view().len() as int
    } else {
        0
    }
}

/// The nonces a write of `len` bytes uses.
pub open spec fn writer_nonces(header: Option<ProxyInfo>, len: nat) -> nat {
    (if header is Some { 2nat } else { 0nat }) + 2 * chunk_count(len)
}

impl SsStreamWriter {
    pub closed spec fn framer(&self) -> SsAead {
        self.ss_aead
    }

    pub closed spec fn salt_pending(&self) -> bool {
        self.salt_pending
    }

    pub closed spec fn header(&self) -> Option<ProxyInfo> {
        self.proxy_info
    }

    pub closed spec fn wf(&self) -> bool {
        &&& self.ss_aead.wf()
        &&& self.proxy_info matches Some(i) ==> i.wf()
    }

    /// A writer that sends the salt and then only what it is given.
    pub fn creat_without_info(ss_aead: SsAead) -> (r: SsStreamWriter)
        requires
            ss_aead.wf(),
        ensures
            r.wf(),
            r.framer() == ss_aead,
            r.salt_pending(),
            r.header() is None,
    {
        SsStreamWriter { ss_aead, salt_pending: true, proxy_info: None }
    }

    /// A writer that sends the salt and the address trailer of `proxy_info`
    /// before the first payload.
    pub fn new_with_addr(ss_aead: SsAead, proxy_info: ProxyInfo) -> (r: SsStreamWriter)
        requires
            ss_aead.wf(),
            proxy_info.wf(),
        ensures
            r.wf(),
            r.framer() == ss_aead,
            r.salt_pending(),
            r.header() == Some(proxy_info),
    {
        SsStreamWriter { ss_aead, salt_pending: true, proxy_info: Some(proxy_info) }
    }

    /// The bytes to send for `raw_data`. Nothing changes when the nonces
    /// left do not suffice.
    pub fn write(&mut self, raw_data: &[u8]) -> (r: Result<Vec<u8>, EncryptError>)
        requires
            old(self).wf(),
        ensures
            ({
                let a = old(self).framer();
                let k = writer_nonces(old(self).header(), raw_data@.len());
                if a.counter() + k > nonce_space() {
                    r == Err::<Vec<u8>, _>(EncryptError::EncryptErr) && *final(self) == *old(self)
                } else {
                    r matches Ok(w) && w@ == writer_output(a, old(self).salt_pending(), old(self).header(), raw_data@)
                        && decode_frames(a.kind(), a.key(), a.counter(), w@.skip(salt_prefix_len(a, old(self).salt_pending())))
                        == Some(writer_plaintext(old(self).header(), raw_data@))
                        && final(self).wf() && a.moved_on(&final(self).framer(), k)
                        && !final(self).salt_pending() && final(self).header() is None
                }
            }),
    {
        let total = raw_data.len();
        let chunks: usize = total / MAX_CHUNK + if total % MAX_CHUNK == 0 { 0 } else { 1 };
        assert(chunks == chunk_count(total as nat));
        let head: u128 = if self.proxy_info.is_some() { 2 } else { 0 };
        if !self.ss_aead.can_take(head + 2 * chunks as u128) {
            return Err(EncryptError::EncryptErr);
        }
        let ghost a = self.ss_aead;
        let mut out: Vec<u8> = Vec::new();
        if self.salt_pending {
            let salt = self.ss_aead.salt();
            push_range(&mut out, salt.as_slice(), 0, salt.len());
            assert(salt@.subrange(0, salt@.len() as int) =~= salt@);
        }
        let ghost out_salt = out@;
        let addr = match &self.proxy_info {
            Some(info) => Some(Socks5::socks5_addr_arr(&info.address, info.port, &info.address_type)),
            None => None,
        };
        let ghost mut hv: Seq<u8> = Seq::empty();
        let ghost mut tv: Seq<u8> = Seq::empty();
        match addr {
            Some(addr) => {
                let mut h = match self.ss_aead.encrypt_chunk(addr.as_slice()) {
                    Ok(h) => h,
                    Err(e) => {
                        return Err(e);
                    },
                };
                proof {
                    hv = h@;
                    tv = addr@;
                }
                out.append(&mut h);
            },
            None => {},
        }
        let ghost out_head = out@;
        let mut body = match self.ss_aead.encrypt_data(raw_data) {
            Ok(b) => b,
            Err(e) => {
                return Err(e);
            },
        };
        let ghost bv = body@;
        out.append(&mut body);
        self.salt_pending = false;
        self.proxy_info = None;
        proof {
            let sl = salt_prefix_len(a, old(self).salt_pending());
            assert(out_salt.len() == sl);
            match old(self).header() {
                Some(i) => {
                    assert(out@ =~= writer_output(a, old(self).salt_pending(), old(self).header(), raw_data@));
                    let y = hv + bv;
                    assert(out@.skip(sl) =~= y);
                    assert(chunk_step(a.kind(), a.key(), a.counter(), hv + bv) == Ok::<_, EncryptError>(
                        Some((tv, hv.len())),
                    ));
                    assert(y.skip(hv.len() as int) =~= bv);
                },
                None => {
                    assert(out@ =~= writer_output(a, old(self).salt_pending(), old(self).header(), raw_data@));
                    assert(out@.skip(sl) =~= bv);
                },
            }
        }
        Ok(out)
    }
}

/// The receiving half of a Shadowsocks stream: it takes the peer's salt
/// from the first bytes, then decodes one chunk at a time from what has
/// arrived, holding back bytes of a chunk not yet complete.
pub struct SsStreamReader {
    password: Vec<u8>,
    aead_type: AeadType,
    ss_aead: Option<SsAead>,
    pending: Vec<u8>,
}

impl SsStreamReader {
    /// Bytes received and not yet decoded.
    pub closed spec fn pending(&self) -> Seq<u8> {
        self.pending@
    }

    /// The framer, once the salt has arrived.
    pub closed spec fn framer(&self) -> Option<SsAead> {
        self.ss_aead
    }

    pub closed spec fn kind(&self) -> AeadType {
        self.aead_type
    }

    pub closed spec fn password_view(&self) -> Seq<u8> {
        self.password@
    }

    pub closed spec fn wf(&self) -> bool {
        self.ss_aead matches Some(a) ==> a.wf() && a.kind() == self.aead_type
    }

    /// The salt, the subkey, the nonce counter and the bytes of chunks the
    /// next read works from.
    pub open spec fn read_basis(&self) -> (Seq<u8>, nat, Seq<u8>) {
        let l = key_len(self.kind());
        match self.framer() {
            Some(a) => (a.key(), a.counter(), self.pending()),
            None => (
                session_subkey(self.pending().take(l as int), master_key(self.password_view(), l)),
                0,
                self.pending().skip(l as int),
            ),
        }
    }

    pub fn new(password: &[u8], aead_type: AeadType) -> (r: SsStreamReader)
        ensures
            r.wf(),
            r.pending().len() == 0,
            r.framer() is None,
            r.kind() == aead_type,
            r.password_view() == password@,
    {
        SsStreamReader {
            password: crate::bytes::copy_range(password, 0, password.len()),
            aead_type,
            ss_aead: None,
            pending: Vec::new(),
        }
    }

    /// Adds bytes received from the peer.
    pub fn feed(&mut self, data: &[u8])
        requires
            old(self).wf(),
        ensures
            final(self).wf(),
            final(self).pending() == old(self).pending() + data@,
            final(self).framer() == old(self).framer(),
            final(self).kind() == old(self).kind(),
            final(self).password_view() == old(self).password_view(),
    {
        push_range(&mut self.pending, data, 0, data.len());
        assert(data@.subrange(0, data@.len() as int) =~= data@);
    }

    /// Decodes the next chunk if all its bytes have arrived (after the salt,
    /// on the first read). `None` means more bytes are needed.
    pub fn read(&mut self) -> (r: Result<Option<Vec<u8>>, EncryptError>)
        requires
            old(self).wf(),
        ensures
            final(self).wf(),
            final(self).kind() == old(self).kind(),
            final(self).password_view() == old(self).password_view(),
            ({
                let (key, c, buf) = old(self).read_basis();
                if old(self).framer() is None && old(self).pending().len() < key_len(old(self).kind()) {
                    r == Ok::<_, EncryptError>(None::<Vec<u8>>) && *final(self) == *old(self)
                } else {
                    final(self).framer() matches Some(a) && a.kind() == old(self).kind() && a.key() == key
                        && match chunk_step(old(self).kind(), key, c, buf) {
                        Ok(Some((p, n))) => r matches Ok(Some(q)) && q@ == p && final(self).pending() == buf.skip(
                            n as int,
                        ) && a.counter() == c + 2,
                        Ok(None) => r == Ok::<_, EncryptError>(None::<Vec<u8>>) && final(self).pending() == buf
                            && a.counter() == c,
                        Err(e) => r == Err::<Option<Vec<u8>>, _>(e),
                    }
                }
            }),
    {
        if self.ss_aead.is_none() {
            let l = self.aead_type.key_size();
            if self.pending.len() < l {
                return Ok(None);
            }
            let salt = copy_range(self.pending.as_slice(), 0, l);
            let rest = copy_range(self.pending.as_slice(), l, self.pending.len());
            assert(salt@ =~= self.pending@.take(l as int));
            assert(rest@ =~= self.pending@.skip(l as int));
            let a = SsAead::new(salt, self.password.as_slice(), &self.aead_type)?;
            self.ss_aead = Some(a);
            self.pending = rest;
        }
        let mut a = match self.ss_aead.take() {
            Some(a) => a,
            None => {
                return Ok(None);
            },
        };
        let step = a.decrypt_chunk(self.pending.as_slice());
        match step {
            Ok(Some((p, n))) => {
                self.pending = copy_range(self.pending.as_slice(), n, self.pending.len());
                assert(self.pending@ =~= old(self).read_basis().2.skip(n as int));
                self.ss_aead = Some(a);
                Ok(Some(p))
            },
            Ok(None) => {
                self.ss_aead = Some(a);
                Ok(None)
            },
            Err(e) => {
                self.ss_aead = Some(a);
                Err(e)
            },
        }
    }
}

/// An output adapter that reaches destinations through a Shadowsocks server.
#[derive(Clone)]
pub struct SsOutProxy {
    pub ss_addr: String,
    pub ss_port: u16,
    pub password: String,
    pub aead_type: AeadType,
}

impl SsOutProxy {
    pub fn new(ss_addr: String, ss_port: u16, password: String, aead_type: &AeadType) -> (r: SsOutProxy)
        ensures
            r.ss_addr == ss_addr,
            r.ss_port == ss_port,
            r.password == password,
            r.aead_type == *aead_type,
    {
        SsOutProxy { ss_addr, ss_port, password, aead_type: *aead_type }
    }

    /// The per-connection connector, holding copies of the settings.
    pub fn gen_connector(&self) -> (r: SsOutProxyStarter)
        ensures
            r.ss_addr@ == self.ss_addr@,
            r.ss_port == self.ss_port,
            r.password@ == self.password@,
            r.aead_type == self.aead_type,
    {
        SsOutProxyStarter {
            ss_addr: self.ss_addr.clone(),
            ss_port: self.ss_port,
            password: self.password.clone(),
            aead_type: self.aead_type,
        }
    }
}

/// The settings one outbound Shadowsocks connection is opened with.
pub struct SsOutProxyStarter {
    pub ss_addr: String,
    pub ss_port: u16,
    pub password: String,
    pub aead_type: AeadType,
}

impl SsOutProxyStarter {
    /// The writer of a new outbound connection to `proxy_info`: a fresh
    /// random salt, the session subkey derived from it, and the destination
    /// announced before the first payload.
    pub fn writer_for(&self, proxy_info: ProxyInfo) -> (r: Result<SsStreamWriter, EncryptError>)
        requires
            proxy_info.wf(),
        ensures
            r matches Ok(w) && w.wf() && w.salt_pending() && w.header() == Some(proxy_info)
                && w.framer().kind() == self.aead_type && w.framer().counter() == 0
                && w.framer().salt_view().len() == key_len(self.aead_type)
                && w.framer().key() == session_subkey(
                w.framer().salt_view(),
                master_key(encode_utf8(self.password@), key_len(self.aead_type)),
            ),
    {
        let salt = gen_random_salt(&self.aead_type);
        let a = SsAead::new(salt, self.password.as_str().as_bytes(), &self.aead_type)?;
        Ok(SsStreamWriter::new_with_addr(a, proxy_info))
    }
}

} // verus!
