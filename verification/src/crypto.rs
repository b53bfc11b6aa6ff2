//! The cryptographic primitives behind the wrapping scheme: X25519 key
//! agreement, HKDF-SHA-256 key derivation, and ChaCha20-Poly1305 authenticated
//! encryption, each reached through a trusted wrapper, together with the
//! spec-level model of the whole derivation.

use vstd::prelude::*;
use chacha20poly1305::aead::Aead;
use chacha20poly1305::KeyInit;
use rand::RngCore;

verus! {

/// The shared secret that X25519 computes from a scalar and a curve point,
/// as a function of the two 32-byte strings alone.
pub uninterp spec fn spec_dh(scalar: Seq<u8>, point: Seq<u8>) -> Seq<u8>;

/// The 32 bytes that HKDF-SHA-256 derives from a salt, an info label and
/// input keying material.
pub uninterp spec fn hkdf_of(salt: Seq<u8>, label: Seq<u8>, ikm: Seq<u8>) -> Seq<u8>;

/// The ciphertext (plaintext followed by a 16-byte tag) that ChaCha20-Poly1305
/// produces from a key, a nonce and a plaintext.
pub uninterp spec fn aead_seal(key: Seq<u8>, nonce: Seq<u8>, pt: Seq<u8>) -> Seq<u8>;

/// What ChaCha20-Poly1305 decryption returns for a key, a nonce and a
/// ciphertext: the plaintext when the tag verifies, nothing otherwise.
pub uninterp spec fn aead_open(key: Seq<u8>, nonce: Seq<u8>, ct: Seq<u8>) -> Option<Seq<u8>>;

/// The u-coordinate of the X25519 base point: 9 followed by 31 zero bytes.
pub open spec fn base_point() -> Seq<u8> {
    Seq::new(32, |i: int| if i == 0 { 9u8 } else { 0u8 })
}

/// The public key that belongs to a 32-byte static secret.
pub open spec fn spec_public(sk: Seq<u8>) -> Seq<u8> {
    spec_dh(sk, base_point())
}

/// The domain-separation label under which the wrapping key is derived.
pub open spec fn kdf_label() -> Seq<u8> {
    // "age-encryption.org/v1/X25519"
    seq![
        97u8, 103u8, 101u8, 45u8, 101u8, 110u8, 99u8, 114u8, 121u8, 112u8, 116u8, 105u8,
        111u8, 110u8, 46u8, 111u8, 114u8, 103u8, 47u8, 118u8, 49u8, 47u8, 88u8, 50u8,
        53u8, 53u8, 49u8, 57u8,
    ]
}

/// The all-zero nonce under which the single-use wrapping key encrypts.
pub open spec fn zero_nonce() -> Seq<u8> {
    Seq::new(12, |i: int| 0u8)
}

/// The symmetric key that wraps a file key: derived from the shared secret
/// with the salt epk || pk, under the fixed label.
pub open spec fn spec_wrap_key(epk: Seq<u8>, pk: Seq<u8>, shared: Seq<u8>) -> Seq<u8> {
    hkdf_of(epk + pk, kdf_label(), shared)
}

/// What wrapping a file key under a recipient public key computes from a
/// given ephemeral secret: the ephemeral public key and the sealed file key.
pub open spec fn spec_wrap(fk: Seq<u8>, pk: Seq<u8>, esk: Seq<u8>) -> (Seq<u8>, Seq<u8>) {
    let epk = spec_public(esk);
    (epk, aead_seal(spec_wrap_key(epk, pk, spec_dh(esk, pk)), zero_nonce(), fk))
}

/// What unwrapping computes from a received ephemeral public key, a sealed
/// file key and the local static secret: the file key, or nothing when the
/// tag does not verify.
pub open spec fn spec_unwrap(epk: Seq<u8>, ct: Seq<u8>, sk: Seq<u8>) -> Option<Seq<u8>> {
    aead_open(spec_wrap_key(epk, spec_public(sk), spec_dh(sk, epk)), zero_nonce(), ct)
}

/// Relies on x25519_dalek::x25519, the bare byte-oriented X25519 function: its
/// result depends on the two arguments alone, is 32 bytes, and obeys the
/// Diffie-Hellman key-agreement property (RFC 7748): when the point is the
/// public key of some secret s, both parties compute the same shared secret.
#[verifier::external_body]
pub(crate) fn dh(scalar: &Vec<u8>, point: &Vec<u8>) -> (r: Vec<u8>)
    requires
        scalar@.len() == 32,
        point@.len() == 32,
    ensures
        r@.len() == 32,
        r@ == spec_dh(scalar@, point@),
        forall|s: Seq<u8>|
            s.len() == 32 && point@ == #[trigger] spec_dh(s, base_point()) ==> r@ == spec_dh(
                s,
                spec_dh(scalar@, base_point()),
            ),
{
    let mut k = [0u8; 32];
    k.copy_from_slice(scalar.as_slice());
    let mut u = [0u8; 32];
    u.copy_from_slice(point.as_slice());
    x25519_dalek::x25519(k, u).to_vec()
}

/// Relies on hkdf::Hkdf::<sha2::Sha256> (extract then expand, RFC 5869): the
/// 32-byte output depends on the salt, the info label and the input keying
/// material alone; a 32-byte output length is always valid.
#[verifier::external_body]
pub(crate) fn hkdf_derive(salt: &Vec<u8>, label: &Vec<u8>, ikm: &Vec<u8>) -> (r: Vec<u8>)
    ensures
        r@.len() == 32,
        r@ == hkdf_of(salt@, label@, ikm@),
{
    let mut okm = [0u8; 32];
    hkdf::Hkdf::<sha2::Sha256>::new(Some(salt.as_slice()), ikm.as_slice())
        .expand(label.as_slice(), &mut okm)
        .expect("32 bytes is a valid HKDF-SHA-256 output length");
    okm.to_vec()
}

/// Relies on chacha20poly1305::ChaCha20Poly1305::encrypt: deterministic in key,
/// nonce and plaintext; the ciphertext is the plaintext length plus a 16-byte
/// tag, and decrypting it under the same key and nonce returns the plaintext.
#[verifier::external_body]
pub(crate) fn aead_encrypt(key: &Vec<u8>, nonce: &Vec<u8>, pt: &Vec<u8>) -> (r: Vec<u8>)
    requires
        key@.len() == 32,
        nonce@.len() == 12,
        pt@.len() <= 0xFFFF_FFFF,
    ensures
        r@ == aead_seal(key@, nonce@, pt@),
        r@.len() == pt@.len() + 16,
        aead_open(key@, nonce@, r@) == Some(pt@),
{
    let cipher = chacha20poly1305::ChaCha20Poly1305::new_from_slice(key.as_slice())
        .expect("the key is 32 bytes");
    let n = chacha20poly1305::Nonce::try_from(nonce.as_slice()).expect("the nonce is 12 bytes");
    cipher.encrypt(&n, pt.as_slice()).expect("the plaintext is far below the cipher's limit")
}

/// Relies on chacha20poly1305::ChaCha20Poly1305::decrypt: verifies the trailing
/// 16-byte tag; on success the plaintext is 16 bytes shorter than the
/// ciphertext, and a ciphertext sealed under the same key and nonce always
/// decrypts to the plaintext it sealed.
#[verifier::external_body]
pub(crate) fn aead_decrypt(key: &Vec<u8>, nonce: &Vec<u8>, ct: &Vec<u8>) -> (r: Option<Vec<u8>>)
    requires
        key@.len() == 32,
        nonce@.len() == 12,
    ensures
        r is Some ==> aead_open(key@, nonce@, ct@) == Some(r->Some_0@) && r->Some_0@.len() + 16
            == ct@.len(),
        r is None ==> aead_open(key@, nonce@, ct@) is None,
        forall|pt: Seq<u8>|
            ct@ == #[trigger] aead_seal(key@, nonce@, pt) ==> r is Some && r->Some_0@ == pt,
{
    let cipher = chacha20poly1305::ChaCha20Poly1305::new_from_slice(key.as_slice())
        .expect("the key is 32 bytes");
    let n = chacha20poly1305::Nonce::try_from(nonce.as_slice()).expect("the nonce is 12 bytes");
    cipher.decrypt(&n, ct.as_slice()).ok()
}

/// Relies on rand::rngs::OsRng (RngCore::fill_bytes): 32 bytes drawn from the
/// operating system's secure random source; nothing is promised of their
/// values. A failure of the source panics inside fill_bytes: fatal and never
/// defaulted, as a randomness failure must be.
#[verifier::external_body]
pub(crate) fn fresh_secret_bytes() -> (r: Vec<u8>)
    ensures
        r@.len() == 32,
{
    let mut buf = [0u8; 32];
    rand::rngs::OsRng.fill_bytes(&mut buf);
    buf.to_vec()
}

/// The base point as bytes, for deriving a public key from a secret.
pub(crate) fn base_point_bytes() -> (r: Vec<u8>)
    ensures
        r@ == base_point(),
{
    let mut v: Vec<u8> = Vec::new();
    v.push(9u8);
    while v.len() < 32
        invariant
            1 <= v@.len() <= 32,
            forall|i: int| 0 <= i < v@.len() ==> v@[i] == base_point()[i],
        decreases 32 - v@.len(),
    {
        v.push(0u8);
    }
    proof {
        assert(v@ =~= base_point());
    }
    v
}

/// The domain-separation label as bytes.
pub(crate) fn kdf_label_bytes() -> (r: Vec<u8>)
    ensures
        r@ == kdf_label(),
{
    let mut v: Vec<u8> = Vec::new();
    v.push(97u8);
    v.push(103u8);
    v.push(101u8);
    v.push(45u8);
    v.push(101u8);
    v.push(110u8);
    v.push(99u8);
    v.push(114u8);
    v.push(121u8);
    v.push(112u8);
    v.push(116u8);
    v.push(105u8);
    v.push(111u8);
    v.push(110u8);
    v.push(46u8);
    v.push(111u8);
    v.push(114u8);
    v.push(103u8);
    v.push(47u8);
    v.push(118u8);
    v.push(49u8);
    v.push(47u8);
    v.push(88u8);
    v.push(50u8);
    v.push(53u8);
    v.push(53u8);
    v.push(49u8);
    v.push(57u8);
    proof {
        assert(v@ =~= kdf_label());
    }
    v
}

/// The all-zero nonce as bytes.
pub(crate) fn zero_nonce_bytes() -> (r: Vec<u8>)
    ensures
        r@ == zero_nonce(),
{
    let mut v: Vec<u8> = Vec::new();
    while v.len() < 12
        invariant
            v@.len() <= 12,
            forall|i: int| 0 <= i < v@.len() ==> v@[i] == 0u8,
        decreases 12 - v@.len(),
    {
        v.push(0u8);
    }
    proof {
        assert(v@ =~= zero_nonce());
    }
    v
}

} // verus!
