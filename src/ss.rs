use vstd::prelude::*;
use crate::aead::{aead_opened, aead_sealed, key_len, open_record, seal_record, AeadType, MAX_SEAL_INPUT};
use crate::bytes::{be16, be16_value, copy_range, lemma_be16_round_trip, push_be16, read_be16};
use crate::kdf::{generate_subkey, master_key, openssl_bytes_to_key, session_subkey};
use crate::nonce::{nonce_bytes, nonce_space, Nonce};
use crate::error::EncryptError;

verus! {

/// The longest payload put into one chunk.
pub const MAX_CHUNK: usize = 0x3FFF;

/// The length of a sealed length record: two bytes and a tag.
pub const LEN_RECORD: usize = 18;

/// One chunk on the wire: the sealed two-byte length, then the sealed
/// payload, under two consecutive nonces starting at `c`.
pub open spec fn chunk_wire(t: AeadType, key: Seq<u8>, c: nat, payload: Seq<u8>) -> Seq<u8> {
    aead_sealed(t, key, nonce_bytes(c), be16(payload.len() as u16))
        + aead_sealed(t, key, nonce_bytes(c + 1), payload)
}

/// The chunks that `data` is cut into, payloads of `MAX_CHUNK` bytes but
/// the last, each under the next two nonces.
pub open spec fn frames(t: AeadType, key: Seq<u8>, c: nat, data: Seq<u8>) -> Seq<u8>
    decreases data.len(),
{
    if data.len() == 0 {
        Seq::empty()
    } else if data.len() <= MAX_CHUNK {
        chunk_wire(t, key, c, data)
    } else {
        chunk_wire(t, key, c, data.take(MAX_CHUNK as int))
            + frames(t, key, c + 2, data.skip(MAX_CHUNK as int))
    }
}

/// How many chunks `len` bytes take.
pub open spec fn chunk_count(len: nat) -> nat {
    ((len + MAX_CHUNK - 1) / (MAX_CHUNK as int)) as nat
}

/// What reading one chunk from the front of `wire` gives with counter `c`:
/// `None` while bytes are missing, else the payload and the bytes taken.
pub open spec fn chunk_step(t: AeadType, key: Seq<u8>, c: nat, wire: Seq<u8>) -> Result<Option<(Seq<u8>, nat)>, EncryptError> {
    if wire.len() < LEN_RECORD {
        Ok(None)
    } else if c + 2 > nonce_space() {
        Err(EncryptError::DecryptErr)
    } else {
        match aead_opened(t, key, nonce_bytes(c), wire.take(LEN_RECORD as int)) {
            None => Err(EncryptError::DecryptErr),
            Some(l) => {
                let n = be16_value(l[0], l[1]) as nat;
                if wire.len() < LEN_RECORD + n + 16 {
                    Ok(None)
                } else {
                    match aead_opened(t, key, nonce_bytes(c + 1), wire.subrange(LEN_RECORD as int, LEN_RECORD + n + 16)) {
                        None => Err(EncryptError::DecryptErr),
                        Some(p) => Ok(Some((p, (LEN_RECORD + n + 16) as nat))),
                    }
                }
            },
        }
    }
}

/// The plaintext that `wire`, a run of whole chunks, decodes to.
pub open spec fn decode_frames(t: AeadType, key: Seq<u8>, c: nat, wire: Seq<u8>) -> Option<Seq<u8>>
    decreases wire.len(),
{
    if wire.len() == 0 {
        Some(Seq::empty())
    } else {
        match chunk_step(t, key, c, wire) {
            Ok(Some((p, n))) => if 0 < n <= wire.len() {
                match decode_frames(t, key, c + 2, wire.skip(n as int)) {
                    Some(r) => Some(p + r),
                    None => None,
                }
            } else {
                None
            },
            _ => None,
        }
    }
}

/// `a` put before the decoded bytes, if decoding succeeded.
pub open spec fn prepend(a: Seq<u8>, o: Option<Seq<u8>>) -> Option<Seq<u8>> {
    match o {
        Some(r) => Some(a + r),
        None => None,
    }
}

/// The Shadowsocks AEAD framer of one direction of one connection.
pub struct SsAead {
    aead_type: AeadType,
    subkey: Vec<u8>,
    nonce: Nonce,
    salt: Vec<u8>,
}

impl SsAead {
    pub closed spec fn kind(&self) -> AeadType {
        self.aead_type
    }

    /// The session subkey.
    pub closed spec fn key(&self) -> Seq<u8> {
        self.subkey@
    }

    /// How many nonces have been used.
    pub closed spec fn counter(&self) -> nat {
        self.nonce.value()
    }

    /// The salt this framer was built from.
    pub closed spec fn salt_view(&self) -> Seq<u8> {
        self.salt@
    }

    /// The salt this framer was built from.
    pub fn salt(&self) -> (r: &Vec<u8>)
        ensures
            r@ == self.salt_view(),
    {
        &self.salt
    }

    pub closed spec fn wf(&self) -> bool {
        self.subkey@.len() == key_len(self.aead_type)
    }

    /// Whether `s` is `self` with `k` more nonces used.
    pub open spec fn moved_on(&self, s: &SsAead, k: nat) -> bool {
        &&& s.wf()
        &&& s.kind() == self.kind()
        &&& s.key() == self.key()
        &&& s.salt_view() == self.salt_view()
        &&& s.counter() == self.counter() + k
    }

    /// Builds the framer for `salt`: the subkey is derived from the password's
    /// master key and the salt, and the nonce counter starts at zero.
    pub fn new(salt: Vec<u8>, password: &[u8], aead_type: &AeadType) -> (r: Result<SsAead, EncryptError>)
        ensures
            salt@.len() != key_len(*aead_type) ==> r == Err::<SsAead, _>(
                EncryptError::InvalidSaltSize(key_len(*aead_type) as usize),
            ),
            salt@.len() == key_len(*aead_type) ==> (r matches Ok(s) && s.wf() && s.kind() == *aead_type
                && s.counter() == 0 && s.salt_view() == salt@ && s.key() == session_subkey(
                salt@,
                master_key(password@, key_len(*aead_type)),
            )),
    {
        let key_size = aead_type.key_size();
        if salt.len() != key_size {
            return Err(EncryptError::InvalidSaltSize(key_size));
        }
        let mut master: Vec<u8> = Vec::new();
        let mut i: usize = 0;
        while i < key_size
            invariant
                i <= key_size,
                master@.len() == i,
            decreases key_size - i,
        {
            master.push(0);
            i = i + 1;
        }
        openssl_bytes_to_key(password, master.as_mut_slice());
        let subkey = generate_subkey(salt.as_slice(), master.as_slice());
        Ok(SsAead { aead_type: *aead_type, subkey, nonce: Nonce::new(), salt })
    }

    /// Whether `k` more nonces are left.
    pub fn can_take(&self, k: u128) -> (r: bool)
        ensures
            r == (self.counter() + k <= nonce_space()),
    {
        self.nonce.can_take(k)
    }

    /// Seals one record under the next nonce.
    pub fn ss_encrypt(&mut self, data: &[u8]) -> (r: Result<Vec<u8>, EncryptError>)
        requires
            old(self).wf(),
            data@.len() <= MAX_SEAL_INPUT,
        ensures
            old(self).counter() + 1 > nonce_space() ==> r == Err::<Vec<u8>, _>(EncryptError::EncryptErr)
                && old(self).moved_on(final(self), 0),
            old(self).counter() + 1 <= nonce_space() ==> (r matches Ok(w) && old(self).moved_on(final(self), 1)
                && w@ == aead_sealed(old(self).kind(), old(self).key(), nonce_bytes(old(self).counter()), data@)
                && aead_opened(old(self).kind(), old(self).key(), nonce_bytes(old(self).counter()), w@) == Some(data@)
                && w@.len() == data@.len() + 16),
    {
        if !self.nonce.can_take(1) {
            return Err(EncryptError::EncryptErr);
        }
        let n = self.nonce.peek(0);
        let w = seal_record(self.aead_type, self.subkey.as_slice(), &n, data);
        self.nonce.advance(1);
        Ok(w)
    }

    /// Opens one record under the next nonce; on failure the counter stays.
    pub fn ss_decrypt(&mut self, en_data: &[u8]) -> (r: Result<Vec<u8>, EncryptError>)
        requires
            old(self).wf(),
        ensures
            ({
                let opened = aead_opened(old(self).kind(), old(self).key(), nonce_bytes(old(self).counter()), en_data@);
                if old(self).counter() + 1 > nonce_space() || opened is None {
                    r == Err::<Vec<u8>, _>(EncryptError::DecryptErr) && old(self).moved_on(final(self), 0)
                } else {
                    r matches Ok(p) && Some(p@) == opened && old(self).moved_on(final(self), 1)
                }
            }),
    {
        if !self.nonce.can_take(1) {
            return Err(EncryptError::DecryptErr);
        }
        let n = self.nonce.peek(0);
        match open_record(self.aead_type, self.subkey.as_slice(), &n, en_data) {
            Some(p) => {
                self.nonce.advance(1);
                Ok(p)
            },
            None => Err(EncryptError::DecryptErr),
        }
    }

    /// Frames one chunk: the sealed length, then the sealed payload.
    pub fn encrypt_chunk(&mut self, payload: &[u8]) -> (r: Result<Vec<u8>, EncryptError>)
        requires
            old(self).wf(),
            payload@.len() <= MAX_CHUNK,
        ensures
            old(self).counter() + 2 > nonce_space() ==> r == Err::<Vec<u8>, _>(EncryptError::EncryptErr)
                && old(self).moved_on(final(self), 0),
            old(self).counter() + 2 <= nonce_space() ==> (r matches Ok(w) && old(self).moved_on(final(self), 2)
                && w@ == chunk_wire(old(self).kind(), old(self).key(), old(self).counter(), payload@)
                && w@.len() == payload@.len() + 34
                && forall|rest: Seq<u8>| #[trigger] chunk_step(old(self).kind(), old(self).key(), old(self).counter(), w@ + rest)
                    == Ok::<_, EncryptError>(Some((payload@, w@.len())))),
    {
        if !self.nonce.can_take(2) {
            return Err(EncryptError::EncryptErr);
        }
        let ghost t = self.aead_type;
        let ghost key = self.subkey@;
        let ghost c = self.nonce.value();
        let mut len_bytes: Vec<u8> = Vec::new();
        push_be16(&mut len_bytes, payload.len() as u16);
        let n0 = self.nonce.peek(0);
        let n1 = self.nonce.peek(1);
        let mut w = seal_record(self.aead_type, self.subkey.as_slice(), &n0, len_bytes.as_slice());
        let mut body = seal_record(self.aead_type, self.subkey.as_slice(), &n1, payload);
        let ghost a = w@;
        let ghost b = body@;
        w.append(&mut body);
        self.nonce.advance(2);
        proof {
            let len = payload@.len();
            assert(len_bytes@ =~= be16(len as u16));
            lemma_be16_round_trip(len as u16);
            assert forall|rest: Seq<u8>| #[trigger] chunk_step(t, key, c, w@ + rest)
                == Ok::<_, EncryptError>(Some((payload@, w@.len()))) by {
                let x = w@ + rest;
                assert(x.take(LEN_RECORD as int) =~= a);
                assert(x.subrange(LEN_RECORD as int, LEN_RECORD + len + 16) =~= b);
            }
        }
        Ok(w)
    }

    /// Decodes the chunk at the front of `wire`. Gives `None`, using up
    /// nothing, while its bytes have not all arrived; else the payload and
    /// the number of bytes the chunk takes.
    pub fn decrypt_chunk(&mut self, wire: &[u8]) -> (r: Result<Option<(Vec<u8>, usize)>, EncryptError>)
        requires
            old(self).wf(),
        ensures
            ({
                let step = chunk_step(old(self).kind(), old(self).key(), old(self).counter(), wire@);
                match r {
                    Ok(Some((p, n))) => step == Ok::<_, EncryptError>(Some((p@, n as nat)))
                        && old(self).moved_on(final(self), 2),
                    Ok(None) => step == Ok::<_, EncryptError>(None::<(Seq<u8>, nat)>)
                        && old(self).moved_on(final(self), 0),
                    Err(e) => step == Err::<Option<(Seq<u8>, nat)>, _>(e) && old(self).moved_on(final(self), 0),
                }
            }),
    {
        if wire.len() < LEN_RECORD {
            return Ok(None);
        }
        if !self.nonce.can_take(2) {
            return Err(EncryptError::DecryptErr);
        }
        let n0 = self.nonce.peek(0);
        let head = copy_range(wire, 0, LEN_RECORD);
        assert(head@ =~= wire@.take(LEN_RECORD as int));
        let l = match open_record(self.aead_type, self.subkey.as_slice(), &n0, head.as_slice()) {
            Some(l) => l,
            None => {
                return Err(EncryptError::DecryptErr);
            },
        };
        let n = read_be16(l[0], l[1]) as usize;
        if wire.len() - LEN_RECORD < n + 16 {
            return Ok(None);
        }
        let n1 = self.nonce.peek(1);
        let body = copy_range(wire, LEN_RECORD, LEN_RECORD + n + 16);
        match open_record(self.aead_type, self.subkey.as_slice(), &n1, body.as_slice()) {
            Some(p) => {
                self.nonce.advance(2);
                Ok(Some((p, LEN_RECORD + n + 16)))
            },
            None => Err(EncryptError::DecryptErr),
        }
    }

    /// Frames `data` as chunks of at most `MAX_CHUNK` bytes. Nothing is used
    /// up when the nonces left do not suffice for every chunk.
    pub fn encrypt_data(&mut self, data: &[u8]) -> (r: Result<Vec<u8>, EncryptError>)
        requires
            old(self).wf(),
        ensures
            old(self).counter() + 2 * chunk_count(data@.len()) > nonce_space() ==> r == Err::<Vec<u8>, _>(
                EncryptError::EncryptErr,
            ) && old(self).moved_on(final(self), 0),
            old(self).counter() + 2 * chunk_count(data@.len()) <= nonce_space() ==> (r matches Ok(w)
                && old(self).moved_on(final(self), 2 * chunk_count(data@.len()))
                && w@ == frames(old(self).kind(), old(self).key(), old(self).counter(), data@)
                && decode_frames(old(self).kind(), old(self).key(), old(self).counter(), w@) == Some(data@)),
    {
        let total = data.len();
        let chunks: usize = total / MAX_CHUNK + if total % MAX_CHUNK == 0 { 0 } else { 1 };
        assert(chunks == chunk_count(total as nat));
        if !self.nonce.can_take(2 * chunks as u128) {
            return Err(EncryptError::EncryptErr);
        }
        let ghost t = self.aead_type;
        let ghost key = self.subkey@;
        let ghost c0 = self.nonce.value();
        let ghost salt0 = self.salt_view();
        let mut out: Vec<u8> = Vec::new();
        let mut pos: usize = 0;
        let ghost mut k: nat = 0;
        proof {
            assert(data@.skip(0) =~= data@);
            assert forall|x: Seq<u8>| #[trigger] decode_frames(t, key, c0, out@ + x)
                == prepend(data@.take(0), decode_frames(t, key, c0, x)) by {
                assert(out@ + x =~= x);
                match decode_frames(t, key, c0, x) {
                    Some(r) => assert(data@.take(0) + r =~= r),
                    None => {},
                }
            }
        }
        while pos < total
            invariant
                self.wf(),
                self.aead_type == t,
                self.subkey@ == key,
                self.salt_view() == salt0,
                key.len() == key_len(t),
                pos <= total,
                total == data@.len(),
                self.nonce.value() == c0 + 2 * k,
                k + chunk_count((total - pos) as nat) == chunk_count(total as nat),
                c0 + 2 * chunk_count(total as nat) <= nonce_space(),
                out@ + frames(t, key, c0 + 2 * k, data@.skip(pos as int)) == frames(t, key, c0, data@),
                forall|x: Seq<u8>| #[trigger] decode_frames(t, key, c0, out@ + x)
                    == prepend(data@.take(pos as int), decode_frames(t, key, c0 + 2 * k, x)),
            decreases total - pos,
        {
            let m: usize = if total - pos < MAX_CHUNK { total - pos } else { MAX_CHUNK };
            let payload = copy_range(data, pos, pos + m);
            let ghost c = c0 + 2 * k;
            let ghost d = data@.skip(pos as int);
            let ghost out0 = out@;
            let mut w = match self.encrypt_chunk(payload.as_slice()) {
                Ok(w) => w,
                Err(e) => {
                    return Err(e);
                },
            };
            let ghost wv = w@;
            out.append(&mut w);
            proof {
                assert(data@.skip(pos + m) =~= d.skip(m as int));
                assert(payload@ =~= d.take(m as int));
                lemma_frames_step(t, key, c, d, m as nat);
                lemma_chunk_count_step((total - pos) as nat, m as nat);
                assert(out@ + frames(t, key, c + 2, data@.skip(pos + m)) =~= out0 + frames(t, key, c, d));
                lemma_decode_step(t, key, c0, c, out0, wv, data@.take(pos as int), payload@);
                assert(data@.take(pos as int) + payload@ =~= data@.take(pos + m));
                assert forall|x: Seq<u8>| #[trigger] decode_frames(t, key, c0, out@ + x)
                    == prepend(data@.take(pos + m), decode_frames(t, key, c + 2, x)) by {
                    assert(out@ + x =~= out0 + wv + x);
                }
                k = k + 1;
            }
            pos = pos + m;
        }
        proof {
            assert(data@.skip(pos as int) =~= Seq::<u8>::empty());
            assert(out@ + Seq::<u8>::empty() =~= out@);
            assert(data@.take(pos as int) =~= data@);
            assert(decode_frames(t, key, c0 + 2 * k, Seq::<u8>::empty()) == Some(Seq::<u8>::empty()));
            assert(data@ + Seq::<u8>::empty() =~= data@);
        }
        Ok(out)
    }
}

proof fn lemma_frames_step(t: AeadType, key: Seq<u8>, c: nat, d: Seq<u8>, m: nat)
    requires
        d.len() > 0,
        m == if d.len() < MAX_CHUNK { d.len() } else { MAX_CHUNK as nat },
    ensures
        frames(t, key, c, d) == chunk_wire(t, key, c, d.take(m as int)) + frames(t, key, c + 2, d.skip(m as int)),
{
    if d.len() <= MAX_CHUNK {
        assert(d.take(m as int) =~= d);
        assert(d.skip(m as int) =~= Seq::<u8>::empty());
        assert(frames(t, key, c + 2, d.skip(m as int)) =~= Seq::<u8>::empty());
        assert(chunk_wire(t, key, c, d) + Seq::<u8>::empty() =~= chunk_wire(t, key, c, d));
    }
}

proof fn lemma_chunk_count_step(r: nat, m: nat)
    requires
        r > 0,
        m == if r < MAX_CHUNK { r } else { MAX_CHUNK as nat },
    ensures
        chunk_count(r) == 1 + chunk_count((r - m) as nat),
{
}

proof fn lemma_decode_step(
    t: AeadType,
    key: Seq<u8>,
    c0: nat,
    c: nat,
    out: Seq<u8>,
    w: Seq<u8>,
    taken: Seq<u8>,
    p: Seq<u8>,
)
    requires
        w.len() > 0,
        forall|x: Seq<u8>| #[trigger] decode_frames(t, key, c0, out + x) == prepend(taken, decode_frames(t, key, c, x)),
        forall|rest: Seq<u8>| #[trigger] chunk_step(t, key, c, w + rest) == Ok::<_, EncryptError>(Some((p, w.len()))),
    ensures
        forall|x: Seq<u8>| #[trigger] decode_frames(t, key, c0, out + w + x)
            == prepend(taken + p, decode_frames(t, key, c + 2, x)),
{
    assert forall|x: Seq<u8>| #[trigger] decode_frames(t, key, c0, out + w + x)
        == prepend(taken + p, decode_frames(t, key, c + 2, x)) by {
        let y = w + x;
        assert(out + w + x =~= out + y);
        assert(decode_frames(t, key, c0, out + y) == prepend(taken, decode_frames(t, key, c, y)));
        assert(chunk_step(t, key, c, y) == Ok::<_, EncryptError>(Some((p, w.len()))));
        assert(y.skip(w.len() as int) =~= x);
        match decode_frames(t, key, c + 2, x) {
            Some(r) => {
                assert(taken + (p + r) =~= taken + p + r);
            },
            None => {},
        }
    }
}

} // verus!
