//! Wrapping and unwrapping of a file key for one X25519 recipient: the
//! security-critical core of the module.

use vstd::prelude::*;
use crate::bytes::concat_bytes;
use crate::crypto::{
    aead_decrypt, aead_encrypt, base_point_bytes, dh, fresh_secret_bytes, hkdf_derive,
    kdf_label_bytes, spec_dh, spec_public, spec_unwrap, spec_wrap, spec_wrap_key,
    zero_nonce_bytes, base_point, aead_seal,
};
use crate::keys::{Error, FileKey, PublicKey, StaticSecret};

verus! {

/// The wrapped artifact: exactly a 32-byte ephemeral public key and a 32-byte
/// sealed file key (16 bytes of plaintext plus a 16-byte tag).
pub struct RecipientLine {
    pub epk: Vec<u8>,
    pub encrypted_file_key: Vec<u8>,
}

impl RecipientLine {
    pub open spec fn wf(&self) -> bool {
        self.epk@.len() == 32 && self.encrypted_file_key@.len() == 32
    }

    /// The deterministic core of wrapping: seals `file_key` for the holder of
    /// `pk`, using the given fresh ephemeral secret. The ephemeral public key
    /// is derived from the secret, the shared secret is computed against
    /// `pk`, the wrapping key is derived over the salt epk || pk under the
    /// fixed label, and the file key is sealed under the all-zero nonce.
    pub fn wrap_file_key_with(
        file_key: &FileKey,
        pk: &PublicKey,
        ephemeral_secret: &Vec<u8>,
    ) -> (r: RecipientLine)
        requires
            file_key.wf(),
            pk.wf(),
            ephemeral_secret@.len() == 32,
        ensures
            r.wf(),
            r.epk@ == spec_wrap(file_key.bytes@, pk.bytes@, ephemeral_secret@).0,
            r.encrypted_file_key@ == spec_wrap(file_key.bytes@, pk.bytes@, ephemeral_secret@).1,
    {
        let base = base_point_bytes();
        let epk = dh(ephemeral_secret, &base);
        let shared = dh(ephemeral_secret, &pk.bytes);
        let salt = concat_bytes(&epk, &pk.bytes);
        let label = kdf_label_bytes();
        let key = hkdf_derive(&salt, &label, &shared);
        let nonce = zero_nonce_bytes();
        let encrypted_file_key = aead_encrypt(&key, &nonce, &file_key.bytes);
        RecipientLine { epk, encrypted_file_key }
    }

    /// Wraps `file_key` for the holder of `pk` with a fresh ephemeral secret
    /// drawn from the secure random source; one draw per call, never reused.
    pub fn wrap_file_key(file_key: &FileKey, pk: &PublicKey) -> (r: RecipientLine)
        requires
            file_key.wf(),
            pk.wf(),
        ensures
            r.wf(),
            exists|esk: Seq<u8>|
                esk.len() == 32 && r.epk@ == (#[trigger] spec_wrap(
                    file_key.bytes@,
                    pk.bytes@,
                    esk,
                )).0 && r.encrypted_file_key@ == spec_wrap(file_key.bytes@, pk.bytes@, esk).1,
    {
        let ephemeral_secret = fresh_secret_bytes();
        let r = Self::wrap_file_key_with(file_key, pk, &ephemeral_secret);
        proof {
            assert(r.epk@ == spec_wrap(file_key.bytes@, pk.bytes@, ephemeral_secret@).0);
        }
        r
    }

    /// Recovers the file key from this line with the local static secret.
    ///
    /// The result is exact: it is `Ok` precisely when authenticated
    /// decryption under the recomputed wrapping key verifies, and the one
    /// error is opaque — "not addressed to me" and "tampered with" are
    /// deliberately the same failure.
    ///
    /// The last clause is the round-trip law: a line wrapped to this
    /// recipient's own public key always unwraps to the file key it sealed.
    pub fn unwrap_file_key(&self, sk: &StaticSecret) -> (r: Result<FileKey, Error>)
        requires
            self.wf(),
            sk.wf(),
        ensures
            (r is Ok) <==> spec_unwrap(self.epk@, self.encrypted_file_key@, sk.bytes@) is Some,
            r is Ok ==> r->Ok_0.wf() && r->Ok_0.bytes@ == spec_unwrap(
                self.epk@,
                self.encrypted_file_key@,
                sk.bytes@,
            )->Some_0,
            r is Err ==> r->Err_0 == Error::DecryptionFailed,
            forall|fk: Seq<u8>, esk: Seq<u8>|
                esk.len() == 32 && self.epk@ == (#[trigger] spec_wrap(
                    fk,
                    spec_public(sk.bytes@),
                    esk,
                )).0 && self.encrypted_file_key@ == spec_wrap(fk, spec_public(sk.bytes@), esk).1
                    ==> r is Ok && r->Ok_0.bytes@ == fk,
    {
        let base = base_point_bytes();
        let pk = dh(&sk.bytes, &base);
        let shared = dh(&sk.bytes, &self.epk);
        let salt = concat_bytes(&self.epk, &pk);
        let label = kdf_label_bytes();
        let key = hkdf_derive(&salt, &label, &shared);
        let nonce = zero_nonce_bytes();
        let dec = aead_decrypt(&key, &nonce, &self.encrypted_file_key);
        proof {
            assert(key@ == spec_wrap_key(
                self.epk@,
                spec_public(sk.bytes@),
                spec_dh(sk.bytes@, self.epk@),
            ));
            assert forall|fk: Seq<u8>, esk: Seq<u8>|
                esk.len() == 32 && self.epk@ == (#[trigger] spec_wrap(
                    fk,
                    spec_public(sk.bytes@),
                    esk,
                )).0 && self.encrypted_file_key@ == spec_wrap(fk, spec_public(sk.bytes@), esk).1
                    implies dec is Some && dec->Some_0@ == fk by {
                assert(self.epk@ == spec_dh(esk, base_point()));
                assert(shared@ == spec_dh(esk, spec_dh(sk.bytes@, base_point())));
                assert(shared@ == spec_dh(esk, spec_public(sk.bytes@)));
                assert(key@ == spec_wrap_key(
                    self.epk@,
                    spec_public(sk.bytes@),
                    spec_dh(esk, spec_public(sk.bytes@)),
                ));
                assert(self.encrypted_file_key@ == aead_seal(key@, nonce@, fk));
            }
        }
        match dec {
            Some(pt) => Ok(FileKey { bytes: pt }),
            None => Err(Error::DecryptionFailed),
        }
    }
}

} // verus!
