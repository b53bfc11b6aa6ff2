use vstd::prelude::*;
use crate::crypto::{base_point_bytes, dh, spec_public};

verus! {

/// The short symmetric key that protects the bulk file contents; wrapped
/// separately for each recipient. Always exactly 16 bytes.
pub struct FileKey {
    pub bytes: Vec<u8>,
}

impl FileKey {
    pub open spec fn wf(&self) -> bool {
        self.bytes@.len() == 16
    }
}

/// A recipient's 32-byte X25519 public key, distributed openly.
pub struct PublicKey {
    pub bytes: Vec<u8>,
}

impl PublicKey {
    pub open spec fn wf(&self) -> bool {
        self.bytes@.len() == 32
    }
}

/// A recipient's long-lived 32-byte X25519 static secret.
pub struct StaticSecret {
    pub bytes: Vec<u8>,
}

impl StaticSecret {
    pub open spec fn wf(&self) -> bool {
        self.bytes@.len() == 32
    }

    /// The public key that belongs to this static secret.
    pub fn public_key(&self) -> (r: PublicKey)
        requires
            self.wf(),
        ensures
            r.wf(),
            r.bytes@ == spec_public(self.bytes@),
    {
        let base = base_point_bytes();
        PublicKey { bytes: dh(&self.bytes, &base) }
    }
}

/// The one failure a caller can see from unwrapping: the line was not
/// addressed to this recipient, or it was tampered with; the two are
/// deliberately indistinguishable.
#[derive(Clone, Copy, Debug, PartialEq, Eq, Structural)]
pub enum Error {
    DecryptionFailed,
}

} // verus!
