use vstd::prelude::*;
use crate::error::EncryptError;
use crate::kdf::{generate_subkey, session_subkey};

verus! {

/// The AEAD ciphers a Shadowsocks stream can use.
#[derive(Debug, Clone, Copy, PartialEq, Eq, Structural)]
pub enum AeadType {
    AES128GCM,
    AES256GCM,
    Chacha20Poly1305,
}

/// The length of each authentication tag.
pub const AEAD_TAG_SIZE: usize = 16;

/// The longest input that one sealing call here takes.
pub const MAX_SEAL_INPUT: usize = 0x10000;

/// The key length of each cipher; the salt has the same length.
pub open spec fn key_len(t: AeadType) -> nat {
    match t {
        AeadType::AES128GCM => 16,
        AeadType::AES256GCM => 32,
        AeadType::Chacha20Poly1305 => 32,
    }
}

impl AeadType {
    /// The key (and salt) length of this cipher.
    pub fn key_size(&self) -> (r: usize)
        ensures
            r == key_len(*self),
    {
        match self {
            AeadType::AES128GCM => 16,
            AeadType::AES256GCM => 32,
            AeadType::Chacha20Poly1305 => 32,
        }
    }
}

/// The ciphertext and tag that sealing `plain` under `key` and `nonce` gives.
pub uninterp spec fn aead_sealed(t: AeadType, key: Seq<u8>, nonce: Seq<u8>, plain: Seq<u8>) -> Seq<u8>;

/// The plaintext that opening `sealed` under `key` and `nonce` gives, or
/// `None` where the tag does not verify.
pub uninterp spec fn aead_opened(t: AeadType, key: Seq<u8>, nonce: Seq<u8>, sealed: Seq<u8>) -> Option<Seq<u8>>;

/// Relies on ring's `UnboundKey::new` (accepts a key of the cipher's length)
/// and `LessSafeKey::seal_in_place_append_tag` (fails only on inputs far
/// longer than `MAX_SEAL_INPUT`; appends a 16-byte tag; what it seals opens
/// to the same plaintext under the same key and nonce).
#[verifier::external_body]
pub(crate) fn seal_record(t: AeadType, key: &[u8], nonce: &[u8; 12], data: &[u8]) -> (r: Vec<u8>)
    requires
        key@.len() == key_len(t),
        data@.len() <= MAX_SEAL_INPUT,
    ensures
        r@ == aead_sealed(t, key@, nonce@, data@),
        r@.len() == data@.len() + 16,
        aead_opened(t, key@, nonce@, r@) == Some(data@),
{
    let alg = match t {
        AeadType::AES128GCM => &ring::aead::AES_128_GCM,
        AeadType::AES256GCM => &ring::aead::AES_256_GCM,
        AeadType::Chacha20Poly1305 => &ring::aead::CHACHA20_POLY1305,
    };
    let k = ring::aead::LessSafeKey::new(ring::aead::UnboundKey::new(alg, key).unwrap());
    let mut out = data.to_vec();
    let n = ring::aead::Nonce::assume_unique_for_key(*nonce);
    k.seal_in_place_append_tag(n, ring::aead::Aad::empty(), &mut out).unwrap();
    out
}

/// Relies on ring's `UnboundKey::new` (accepts a key of the cipher's length)
/// and `LessSafeKey::open_in_place` (fails where the tag does not verify,
/// else returns the plaintext, 16 bytes shorter than its input).
#[verifier::external_body]
pub(crate) fn open_record(t: AeadType, key: &[u8], nonce: &[u8; 12], data: &[u8]) -> (r: Option<Vec<u8>>)
    requires
        key@.len() == key_len(t),
    ensures
        r is Some <==> aead_opened(t, key@, nonce@, data@) is Some,
        r matches Some(p) ==> Some(p@) == aead_opened(t, key@, nonce@, data@) && p@.len() + 16 == data@.len(),
{
    let alg = match t {
        AeadType::AES128GCM => &ring::aead::AES_128_GCM,
        AeadType::AES256GCM => &ring::aead::AES_256_GCM,
        AeadType::Chacha20Poly1305 => &ring::aead::CHACHA20_POLY1305,
    };
    let k = ring::aead::LessSafeKey::new(ring::aead::UnboundKey::new(alg, key).unwrap());
    let mut buf = data.to_vec();
    let n = ring::aead::Nonce::assume_unique_for_key(*nonce);
    match k.open_in_place(n, ring::aead::Aad::empty(), &mut buf) {
        Ok(p) => Some(p.to_vec()),
        Err(_) => None,
    }
}

/// Errors of key derivation for a fixed cipher.
#[derive(Debug, Clone, Copy, PartialEq, Eq, Structural)]
pub enum AeadError {
    InvalidLength(u8),
    /// The salt does not have the right size, which is given.
    InvalidSaltSize(u8),
}

/// The length of an AES-256 key.
pub const AES_256_SIZE: usize = 32;

/// Copies a 12-byte nonce out of a slice.
fn nonce_array(nonce_arr: &[u8]) -> (r: [u8; 12])
    requires
        nonce_arr@.len() == 12,
    ensures
        r@ == nonce_arr@,
{
    let mut r = [0u8; 12];
    let mut i: usize = 0;
    while i < 12
        invariant
            0 <= i <= 12,
            r@.len() == 12,
            nonce_arr@.len() == 12,
            forall|j: int| 0 <= j < i ==> r@[j] == nonce_arr@[j],
        decreases 12 - i,
    {
        r[i] = nonce_arr[i];
        i = i + 1;
    }
    assert(r@ =~= nonce_arr@);
    r
}

/// AES-256-GCM with nonces given by the caller, and the Shadowsocks subkey
/// derived straight from a plain key.
pub struct AeadAes256Gcm {
    plain_key: Vec<u8>,
}

impl AeadAes256Gcm {
    pub closed spec fn plain_key_view(&self) -> Seq<u8> {
        self.plain_key@
    }

    pub fn creat(plain_key: &[u8]) -> (r: AeadAes256Gcm)
        ensures
            r.plain_key_view() == plain_key@,
    {
        AeadAes256Gcm { plain_key: crate::bytes::copy_range(plain_key, 0, plain_key.len()) }
    }

    /// Seals `data` under `subkey` and `nonce_arr`: ciphertext, then tag.
    pub fn encrypt(&self, subkey: &[u8], nonce_arr: &[u8], data: &[u8]) -> (r: Vec<u8>)
        requires
            subkey@.len() == AES_256_SIZE,
            nonce_arr@.len() == 12,
            data@.len() <= MAX_SEAL_INPUT,
        ensures
            r@ == aead_sealed(AeadType::AES256GCM, subkey@, nonce_arr@, data@),
            aead_opened(AeadType::AES256GCM, subkey@, nonce_arr@, r@) == Some(data@),
            r@.len() == data@.len() + AEAD_TAG_SIZE,
    {
        let n = nonce_array(nonce_arr);
        seal_record(AeadType::AES256GCM, subkey, &n, data)
    }

    /// Opens `data` under `subkey` and `nonce_arr`.
    pub fn decrypt(&self, subkey: &[u8], nonce_arr: &[u8], data: &[u8]) -> (r: Result<Vec<u8>, EncryptError>)
        requires
            subkey@.len() == AES_256_SIZE,
            nonce_arr@.len() == 12,
        ensures
            match aead_opened(AeadType::AES256GCM, subkey@, nonce_arr@, data@) {
                Some(p) => r matches Ok(q) && q@ == p,
                None => r == Err::<Vec<u8>, _>(EncryptError::DecryptErr),
            },
    {
        let n = nonce_array(nonce_arr);
        match open_record(AeadType::AES256GCM, subkey, &n, data) {
            Some(p) => Ok(p),
            None => Err(EncryptError::DecryptErr),
        }
    }

    /// The subkey for `salt_arr`, which must be 32 bytes long.
    pub fn generate_sub_key(&self, salt_arr: &[u8]) -> (r: Result<Vec<u8>, AeadError>)
        ensures
            salt_arr@.len() != AES_256_SIZE ==> r == Err::<Vec<u8>, _>(AeadError::InvalidSaltSize(32)),
            salt_arr@.len() == AES_256_SIZE ==> (r matches Ok(k) && k@ == session_subkey(
                salt_arr@,
                self.plain_key_view(),
            ) && k@.len() == AES_256_SIZE),
    {
        if salt_arr.len() != AES_256_SIZE {
            return Err(AeadError::InvalidSaltSize(32));
        }
        Ok(generate_subkey(salt_arr, self.plain_key.as_slice()))
    }
}

} // verus!
