use relay_proxy::stream::SsStreamReader;
use relay_proxy::socks5::Socks5Server;
use relay_proxy::address::{AddressType, ProxyInfo, Socks5};
use relay_proxy::aead::AeadType;
use relay_proxy::error::{EncryptError, HandshakeError};
use relay_proxy::ss::{SsAead, MAX_CHUNK};
use relay_proxy::stream::{gen_random_salt, split_first_chunk, SsOutProxy, SsStreamWriter};

const KINDS: [AeadType; 3] = [AeadType::AES128GCM, AeadType::AES256GCM, AeadType::Chacha20Poly1305];

fn pair(kind: AeadType, password: &[u8]) -> (SsAead, SsAead) {
    let salt = gen_random_salt(&kind);
    let enc = SsAead::new(salt.clone(), password, &kind).unwrap();
    let dec = SsAead::new(salt, password, &kind).unwrap();
    (enc, dec)
}

fn decode_all(dec: &mut SsAead, wire: &[u8]) -> Result<Vec<u8>, EncryptError> {
    let mut out = Vec::new();
    let mut pos = 0;
    while pos < wire.len() {
        match dec.decrypt_chunk(&wire[pos..])? {
            Some((p, n)) => {
                out.extend_from_slice(&p);
                pos += n;
            }
            None => panic!("incomplete chunk"),
        }
    }
    Ok(out)
}

#[test]
fn round_trip_sizes() {
    for kind in KINDS {
        for len in [0usize, 1, 5, MAX_CHUNK - 1, MAX_CHUNK, MAX_CHUNK + 1, 16 * 1024] {
            let (mut enc, mut dec) = pair(kind, b"password");
            let x: Vec<u8> = (0..len).map(|i| (i * 7 + 3) as u8).collect();
            let wire = enc.encrypt_data(&x).unwrap();
            let chunks = (len + MAX_CHUNK - 1) / MAX_CHUNK;
            assert_eq!(wire.len(), len + 34 * chunks);
            assert_eq!(decode_all(&mut dec, &wire).unwrap(), x);
        }
    }
}

#[test]
fn consecutive_writes_use_consecutive_nonces() {
    let (mut enc, mut dec) = pair(AeadType::AES256GCM, b"pw");
    let a = enc.encrypt_data(b"first").unwrap();
    let b = enc.encrypt_data(b"second").unwrap();
    let c = enc.encrypt_data(b"third").unwrap();
    // Decoding out of order fails: each chunk is bound to its nonces.
    let (_, mut fresh) = pair(AeadType::AES256GCM, b"pw");
    assert!(fresh.decrypt_chunk(&b).is_err());
    assert_eq!(decode_all(&mut dec, &a).unwrap(), b"first".to_vec());
    assert_eq!(decode_all(&mut dec, &b).unwrap(), b"second".to_vec());
    assert_eq!(decode_all(&mut dec, &c).unwrap(), b"third".to_vec());
}

#[test]
fn record_level_nonce_sequence() {
    let (mut enc, mut dec) = pair(AeadType::Chacha20Poly1305, b"pw");
    let r0 = enc.ss_encrypt(b"zero").unwrap();
    let r1 = enc.ss_encrypt(b"one").unwrap();
    assert_eq!(r0.len(), 20);
    assert!(dec.ss_decrypt(&r1).is_err());
    assert_eq!(dec.ss_decrypt(&r0).unwrap(), b"zero".to_vec());
    assert_eq!(dec.ss_decrypt(&r1).unwrap(), b"one".to_vec());
}

#[test]
fn max_chunk_decodes() {
    let (mut enc, mut dec) = pair(AeadType::AES128GCM, b"pw");
    let x = vec![0x5au8; MAX_CHUNK];
    let wire = enc.encrypt_chunk(&x).unwrap();
    assert_eq!(wire.len(), MAX_CHUNK + 34);
    let (p, n) = dec.decrypt_chunk(&wire).unwrap().unwrap();
    assert_eq!(p, x);
    assert_eq!(n, wire.len());
}

#[test]
fn incomplete_chunk_waits_without_using_nonces() {
    let (mut enc, mut dec) = pair(AeadType::AES256GCM, b"pw");
    let wire = enc.encrypt_data(b"hello world").unwrap();
    assert_eq!(dec.decrypt_chunk(&wire[..10]).unwrap(), None);
    assert_eq!(dec.decrypt_chunk(&wire[..20]).unwrap(), None);
    assert_eq!(dec.decrypt_chunk(&wire[..wire.len() - 1]).unwrap(), None);
    let (p, n) = dec.decrypt_chunk(&wire).unwrap().unwrap();
    assert_eq!(p, b"hello world".to_vec());
    assert_eq!(n, wire.len());
}

#[test]
fn oversize_write_round_trips() {
    let (mut enc, mut dec) = pair(AeadType::AES256GCM, b"pw");
    let x: Vec<u8> = (0..20 * 1024).map(|i| (i % 251) as u8).collect();
    let wire = enc.encrypt_data(&x).unwrap();
    assert_eq!(decode_all(&mut dec, &wire).unwrap(), x);
}

#[test]
fn tampered_second_chunk_is_refused() {
    let (mut enc, mut dec) = pair(AeadType::AES256GCM, b"pw");
    let first = enc.encrypt_data(b"one").unwrap();
    let mut second = enc.encrypt_data(b"two").unwrap();
    second[18 + 1] ^= 0x80;
    assert_eq!(decode_all(&mut dec, &first).unwrap(), b"one".to_vec());
    assert_eq!(dec.decrypt_chunk(&second), Err(EncryptError::DecryptErr));
}

#[test]
fn wrong_password_is_refused() {
    let kind = AeadType::AES128GCM;
    let salt = gen_random_salt(&kind);
    let mut enc = SsAead::new(salt.clone(), b"right", &kind).unwrap();
    let mut dec = SsAead::new(salt, b"wrong", &kind).unwrap();
    let wire = enc.encrypt_data(b"secret").unwrap();
    assert_eq!(dec.decrypt_chunk(&wire), Err(EncryptError::DecryptErr));
}

#[test]
fn bad_salt_length() {
    let r = SsAead::new(vec![0u8; 16], b"pw", &AeadType::AES256GCM);
    assert!(matches!(r, Err(EncryptError::InvalidSaltSize(32))));
    let r = SsAead::new(vec![0u8; 32], b"pw", &AeadType::AES128GCM);
    assert!(matches!(r, Err(EncryptError::InvalidSaltSize(16))));
}

#[test]
fn salts_have_key_length() {
    assert_eq!(gen_random_salt(&AeadType::AES128GCM).len(), 16);
    assert_eq!(gen_random_salt(&AeadType::AES256GCM).len(), 32);
    assert_eq!(gen_random_salt(&AeadType::Chacha20Poly1305).len(), 32);
}

#[test]
fn writer_sends_salt_then_address_then_payload() {
    let kind = AeadType::AES256GCM;
    let proxy = SsOutProxy::new("127.0.0.1".to_string(), 8388, "pw".to_string(), &kind);
    let starter = proxy.gen_connector();
    let info = ProxyInfo { address_type: AddressType::Domain, address: b"localhost".to_vec(), port: 9002 };
    let mut writer = starter.writer_for(info.clone()).unwrap();
    let wire = writer.write(b"x").unwrap();
    let salt = &wire[..32];
    let mut dec = SsAead::new(salt.to_vec(), b"pw", &kind).unwrap();
    let body = decode_all(&mut dec, &wire[32..]).unwrap();
    let expected_addr = Socks5::socks5_addr_arr(&info.address, info.port, &info.address_type);
    assert_eq!(body, [expected_addr.clone(), b"x".to_vec()].concat());
    // Later writes carry neither salt nor address.
    let wire2 = writer.write(b"yz").unwrap();
    assert_eq!(wire2.len(), 2 + 34);
    assert_eq!(decode_all(&mut dec, &wire2).unwrap(), b"yz".to_vec());
}

#[test]
fn passive_writer_sends_salt_first() {
    let kind = AeadType::Chacha20Poly1305;
    let salt = gen_random_salt(&kind);
    let aead = SsAead::new(salt.clone(), b"pw", &kind).unwrap();
    let mut writer = SsStreamWriter::creat_without_info(aead);
    let wire = writer.write(b"reply").unwrap();
    assert_eq!(&wire[..32], &salt[..]);
    let mut dec = SsAead::new(salt, b"pw", &kind).unwrap();
    assert_eq!(decode_all(&mut dec, &wire[32..]).unwrap(), b"reply".to_vec());
}

#[test]
fn first_chunk_residual_payload() {
    let mut plain = vec![3u8, 9];
    plain.extend_from_slice(b"localhost");
    plain.extend_from_slice(&9002u16.to_be_bytes());
    plain.push(b'x');
    let (info, rest) = split_first_chunk(&plain).unwrap();
    assert_eq!(info.address_type, AddressType::Domain);
    assert_eq!(info.address, b"localhost".to_vec());
    assert_eq!(info.port, 9002);
    assert_eq!(rest, b"x".to_vec());
    let (_, none) = split_first_chunk(&plain[..plain.len() - 1]).unwrap();
    assert!(none.is_empty());
    assert_eq!(split_first_chunk(&[2, 0]).unwrap_err(), HandshakeError::UnsupportedAddressType(2));
}

#[test]
fn reader_takes_salt_then_chunks_byte_by_byte() {
    let kind = AeadType::AES128GCM;
    let salt = gen_random_salt(&kind);
    let aead = SsAead::new(salt, b"pw", &kind).unwrap();
    let mut writer = SsStreamWriter::creat_without_info(aead);
    let mut wire = writer.write(b"abc").unwrap();
    wire.extend(writer.write(b"defg").unwrap());
    let mut reader = SsStreamReader::new(b"pw", kind);
    let mut got = Vec::new();
    for b in &wire {
        reader.feed(&[*b]);
        if let Some(p) = reader.read().unwrap() {
            got.push(p);
        }
    }
    assert_eq!(got, vec![b"abc".to_vec(), b"defg".to_vec()]);
    assert_eq!(reader.read().unwrap(), None);
}

#[test]
fn reader_grows_for_large_chunks() {
    let kind = AeadType::Chacha20Poly1305;
    let aead = SsAead::new(gen_random_salt(&kind), b"pw", &kind).unwrap();
    let mut writer = SsStreamWriter::creat_without_info(aead);
    let x: Vec<u8> = (0..40000).map(|i| (i % 13) as u8).collect();
    let wire = writer.write(&x).unwrap();
    let mut reader = SsStreamReader::new(b"pw", kind);
    reader.feed(&wire);
    let mut got = Vec::new();
    while let Some(p) = reader.read().unwrap() {
        got.extend(p);
    }
    assert_eq!(got, x);
}

#[test]
fn reader_reports_tampering() {
    let kind = AeadType::AES256GCM;
    let aead = SsAead::new(gen_random_salt(&kind), b"pw", &kind).unwrap();
    let mut writer = SsStreamWriter::creat_without_info(aead);
    let mut wire = writer.write(b"first").unwrap();
    let start = wire.len();
    wire.extend(writer.write(b"second").unwrap());
    wire[start + 18 + 2] ^= 1;
    let mut reader = SsStreamReader::new(b"pw", kind);
    reader.feed(&wire);
    assert_eq!(reader.read().unwrap(), Some(b"first".to_vec()));
    assert_eq!(reader.read(), Err(EncryptError::DecryptErr));
}

#[test]
fn socks5_to_shadowsocks_chain_carries_ping() {
    // The client's SOCKS5 request reaches the first instance.
    let (n, reply) = Socks5Server::accept_greeting(&[5, 1, 0]).unwrap();
    assert_eq!((n, reply), (3, vec![5, 0]));
    let (info, _) = Socks5Server::read_request(&[5, 1, 0, 1, 127, 0, 0, 1, 0x23, 0x29]).unwrap();
    // It forwards through Shadowsocks to the second instance.
    let kind = AeadType::AES256GCM;
    let starter = SsOutProxy::new("127.0.0.1".to_string(), 8388, "pw".to_string(), &kind).gen_connector();
    let mut writer = starter.writer_for(info).unwrap();
    let wire = writer.write(b"ping").unwrap();
    let mut reader = SsStreamReader::new(b"pw", kind);
    reader.feed(&wire);
    let first = reader.read().unwrap().unwrap();
    let (dest, rest) = split_first_chunk(&first).unwrap();
    assert_eq!(dest.address, vec![127, 0, 0, 1]);
    assert_eq!(dest.port, 9001);
    assert!(rest.is_empty());
    assert_eq!(reader.read().unwrap(), Some(b"ping".to_vec()));
}
