use vstd::prelude::*;
use crate::bytes::push_range;

verus! {

/// The MD5 digest of `data`.
pub uninterp spec fn md5_of(data: Seq<u8>) -> Seq<u8>;

/// The `len` bytes that HKDF-SHA1 extracts from `ikm` with `salt` and
/// expands with `info`.
pub uninterp spec fn hkdf_sha1(salt: Seq<u8>, ikm: Seq<u8>, info: Seq<u8>, len: nat) -> Seq<u8>;

/// The longest output HKDF-SHA1 can expand to (255 blocks of 20 bytes).
pub const HKDF_SHA1_MAX_LEN: usize = 5100;

/// Relies on md-5's `Md5::digest`: the 16-byte digest of its input.
#[verifier::external_body]
fn md5_digest(data: &[u8]) -> (r: Vec<u8>)
    ensures
        r@ == md5_of(data@),
        r@.len() == 16,
{
    <md5::Md5 as md5::Digest>::digest(data).to_vec()
}

/// Relies on hkdf's `Hkdf::<Sha1>::new` and `Hkdf::expand`, which fails only
/// where more than `HKDF_SHA1_MAX_LEN` bytes are asked for.
#[verifier::external_body]
fn hkdf_sha1_expand(salt: &[u8], ikm: &[u8], info: &[u8], len: usize) -> (r: Vec<u8>)
    requires
        len <= HKDF_SHA1_MAX_LEN,
    ensures
        r@ == hkdf_sha1(salt@, ikm@, info@, len as nat),
        r@.len() == len,
{
    let hk = hkdf::Hkdf::<sha1::Sha1>::new(Some(salt), ikm);
    let mut okm = vec![0u8; len];
    hk.expand(info, &mut okm).unwrap();
    okm
}

/// The `i`-th digest of OpenSSL's `EVP_BytesToKey` with MD5, no salt and one
/// round: `D_0 = MD5(p)`, `D_i = MD5(D_(i-1) || p)`.
pub open spec fn evp_digest(password: Seq<u8>, i: nat) -> Seq<u8>
    decreases i,
{
    if i == 0 {
        md5_of(password)
    } else {
        md5_of(evp_digest(password, (i - 1) as nat) + password)
    }
}

/// The first `k` digests, one after another.
pub open spec fn evp_stream(password: Seq<u8>, k: nat) -> Seq<u8>
    decreases k,
{
    if k == 0 {
        Seq::empty()
    } else {
        evp_stream(password, (k - 1) as nat) + evp_digest(password, (k - 1) as nat)
    }
}

/// The master key of `len` bytes derived from `password`.
pub open spec fn master_key(password: Seq<u8>, len: nat) -> Seq<u8> {
    evp_stream(password, (len + 15) / 16).subrange(0, len as int)
}

/// The HKDF info string of Shadowsocks session keys, `"ss-subkey"`.
pub open spec fn ss_subkey_info() -> Seq<u8> {
    seq![115u8, 115, 45, 115, 117, 98, 107, 101, 121]
}

/// The session subkey for `salt` under `master`: as long as the salt.
pub open spec fn session_subkey(salt: Seq<u8>, master: Seq<u8>) -> Seq<u8> {
    hkdf_sha1(salt, master, ss_subkey_info(), salt.len())
}

fn subkey_info() -> (r: Vec<u8>)
    ensures
        r@ == ss_subkey_info(),
{
    let mut r: Vec<u8> = Vec::new();
    r.push(115);
    r.push(115);
    r.push(45);
    r.push(115);
    r.push(117);
    r.push(98);
    r.push(107);
    r.push(101);
    r.push(121);
    assert(r@ =~= ss_subkey_info());
    r
}

/// Fills `key_buffer` with the master key derived from `password`, the way
/// OpenSSL's `EVP_BytesToKey` does with MD5.
pub fn openssl_bytes_to_key(password: &[u8], key_buffer: &mut [u8])
    ensures
        final(key_buffer)@ == master_key(password@, old(key_buffer)@.len() as nat),
{
    let key_len = key_buffer.len();
    let mut last_digest: Option<Vec<u8>> = None;
    let mut offset: usize = 0;
    let ghost mut i: nat = 0;
    while offset < key_len
        invariant
            key_buffer@.len() == key_len,
            key_len == old(key_buffer)@.len(),
            evp_stream(password@, i).len() == 16 * i,
            offset as int == if 16 * i < key_len { (16 * i) as int } else { key_len as int },
            i > 0 ==> 16 * (i - 1) < key_len,
            match last_digest {
                None => i == 0,
                Some(d) => i > 0 && d@ == evp_digest(password@, (i - 1) as nat),
            },
            forall|j: int| 0 <= j < offset ==> key_buffer@[j] == #[trigger] evp_stream(password@, i)[j],
        decreases key_len - offset,
    {
        let mut input: Vec<u8> = Vec::new();
        match &last_digest {
            Some(d) => {
                push_range(&mut input, d.as_slice(), 0, d.len());
            },
            None => {},
        }
        push_range(&mut input, password, 0, password.len());
        proof {
            assert(password@.subrange(0, password@.len() as int) =~= password@);
            match last_digest {
                Some(d) => {
                    assert(d@.subrange(0, d@.len() as int) =~= d@);
                    assert(input@ =~= evp_digest(password@, (i - 1) as nat) + password@);
                },
                None => {
                    assert(input@ =~= password@);
                },
            }
        }
        let digest = md5_digest(input.as_slice());
        assert(digest@ == evp_digest(password@, i));
        let ghost old_stream = evp_stream(password@, i);
        assert(evp_stream(password@, i + 1) == old_stream + digest@);
        let amt: usize = if key_len - offset < 16 { key_len - offset } else { 16 };
        let mut j: usize = 0;
        while j < amt
            invariant
                0 <= j <= amt <= 16,
                offset + amt <= key_len,
                offset == 16 * i,
                key_buffer@.len() == key_len,
                digest@.len() == 16,
                old_stream.len() == 16 * i,
                forall|k: int| 0 <= k < offset + j ==> key_buffer@[k] == #[trigger] (old_stream + digest@)[k],
            decreases amt - j,
        {
            key_buffer[offset + j] = digest[j];
            j = j + 1;
        }
        offset = offset + amt;
        last_digest = Some(digest);
        proof {
            i = i + 1;
        }
    }
    proof {
        assert((key_len + 15) / 16 == i);
        assert(key_buffer@ =~= master_key(password@, key_len as nat));
    }
}

/// Derives the session subkey from `salt` and `master_key` by HKDF-SHA1
/// with info `"ss-subkey"`; it is as long as the salt.
pub fn generate_subkey(salt_arr: &[u8], master_key: &[u8]) -> (r: Vec<u8>)
    requires
        salt_arr@.len() <= HKDF_SHA1_MAX_LEN,
    ensures
        r@ == session_subkey(salt_arr@, master_key@),
        r@.len() == salt_arr@.len(),
{
    let info = subkey_info();
    hkdf_sha1_expand(salt_arr, master_key, info.as_slice(), salt_arr.len())
}

} // verus!
