use age_x25519::keys::{Error, FileKey, StaticSecret};
use age_x25519::recipient::RecipientLine;

use chacha20poly1305::aead::Aead;
use chacha20poly1305::KeyInit;

fn secret(bytes: [u8; 32]) -> StaticSecret {
    StaticSecret { bytes: bytes.to_vec() }
}

fn file_key(bytes: [u8; 16]) -> FileKey {
    FileKey { bytes: bytes.to_vec() }
}

#[test]
fn wrap_and_unwrap() {
    let fk = file_key([7; 16]);
    let mut sk_bytes = [0u8; 32];
    sk_bytes[..4].copy_from_slice(&[11, 22, 33, 44]);
    let sk = secret(sk_bytes);
    let pk = sk.public_key();

    let line = RecipientLine::wrap_file_key(&fk, &pk);
    assert_eq!(line.epk.len(), 32);
    assert_eq!(line.encrypted_file_key.len(), 32);

    let res = line.unwrap_file_key(&sk);
    assert_eq!(res.unwrap().bytes, fk.bytes);
}

#[test]
fn concrete_scenario() {
    let mut s_bytes = [0u8; 32];
    s_bytes[0] = 1;
    let s = secret(s_bytes);
    let p = s.public_key();

    let k = file_key([7; 16]);
    let line = RecipientLine::wrap_file_key(&k, &p);

    let recovered = line.unwrap_file_key(&s).unwrap();
    assert_eq!(recovered.bytes, vec![7u8; 16]);

    // X25519 clamping clears the low three bits of the first scalar byte, so
    // a second secret must differ in a bit that survives clamping: [2, 0, ..]
    // would clamp to the very same scalar as [1, 0, ..] and unwrap fine.
    let mut s2_bytes = [0u8; 32];
    s2_bytes[0] = 8;
    let s2 = secret(s2_bytes);
    assert!(line.unwrap_file_key(&s2).is_err());
}

#[test]
fn recipient_exclusivity() {
    let k = file_key([42; 16]);
    let s1 = secret([5; 32]);
    let s2 = secret([6; 32]);
    let line = RecipientLine::wrap_file_key(&k, &s1.public_key());
    assert_eq!(line.unwrap_file_key(&s1).unwrap().bytes, k.bytes);
    match line.unwrap_file_key(&s2) {
        Err(e) => assert_eq!(e, Error::DecryptionFailed),
        Ok(_) => panic!("a foreign static secret must not unwrap the line"),
    }
}

#[test]
fn tamper_sensitivity_encrypted_file_key() {
    let k = file_key([9; 16]);
    let s = secret([13; 32]);
    let line = RecipientLine::wrap_file_key(&k, &s.public_key());
    for byte in 0..32 {
        for bit in 0..8 {
            let mut tampered_ct = line.encrypted_file_key.clone();
            tampered_ct[byte] ^= 1u8 << bit;
            let tampered = RecipientLine {
                epk: line.epk.clone(),
                encrypted_file_key: tampered_ct,
            };
            assert!(tampered.unwrap_file_key(&s).is_err());
        }
    }
}

#[test]
fn tamper_sensitivity_epk() {
    let k = file_key([9; 16]);
    let s = secret([14; 32]);
    let line = RecipientLine::wrap_file_key(&k, &s.public_key());
    for byte in 0..32 {
        for bit in 0..8 {
            let mut tampered_epk = line.epk.clone();
            tampered_epk[byte] ^= 1u8 << bit;
            let tampered = RecipientLine {
                epk: tampered_epk,
                encrypted_file_key: line.encrypted_file_key.clone(),
            };
            assert!(tampered.unwrap_file_key(&s).is_err());
        }
    }
}

#[test]
fn fresh_ephemeral_key_each_call() {
    let k = file_key([1; 16]);
    let s = secret([3; 32]);
    let pk = s.public_key();
    let a = RecipientLine::wrap_file_key(&k, &pk);
    let b = RecipientLine::wrap_file_key(&k, &pk);
    assert_ne!(a.epk, b.epk);
    assert_ne!(a.encrypted_file_key, b.encrypted_file_key);
    assert_ne!(&a.encrypted_file_key[..16], &k.bytes[..]);
}

#[test]
fn wrap_matches_direct_primitives() {
    // Recompute a deterministic wrap directly on the underlying crates and
    // compare byte for byte.
    let fk = file_key([7; 16]);
    let sk = secret([21; 32]);
    let pk = sk.public_key();
    let esk = [99u8; 32];

    let line = RecipientLine::wrap_file_key_with(&fk, &pk, &esk.to_vec());

    let mut pk_arr = [0u8; 32];
    pk_arr.copy_from_slice(&pk.bytes);
    let epk = x25519_dalek::x25519(esk, x25519_dalek::X25519_BASEPOINT_BYTES);
    assert_eq!(line.epk, epk.to_vec());

    let shared = x25519_dalek::x25519(esk, pk_arr);
    let mut salt = Vec::new();
    salt.extend_from_slice(&epk);
    salt.extend_from_slice(&pk_arr);
    let mut key = [0u8; 32];
    hkdf::Hkdf::<sha2::Sha256>::new(Some(&salt), &shared)
        .expand(b"age-encryption.org/v1/X25519", &mut key)
        .unwrap();

    let cipher = chacha20poly1305::ChaCha20Poly1305::new_from_slice(&key).unwrap();
    let nonce = chacha20poly1305::Nonce::default();
    let expected_ct = cipher.encrypt(&nonce, &fk.bytes[..]).unwrap();
    assert_eq!(line.encrypted_file_key, expected_ct);
}

#[test]
fn public_key_is_deterministic_and_not_the_secret() {
    let s = secret([77; 32]);
    let first = s.public_key();
    let again = s.public_key();
    assert_eq!(first.bytes, again.bytes);
    assert_ne!(first.bytes, s.bytes);
    let expected = x25519_dalek::x25519([77; 32], x25519_dalek::X25519_BASEPOINT_BYTES);
    assert_eq!(first.bytes, expected.to_vec());
}
