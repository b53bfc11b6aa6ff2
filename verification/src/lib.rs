//! X25519 recipient support for an age-style file-encryption header: wraps a
//! 16-byte file key to a recipient's public key with fresh-ephemeral X25519,
//! HKDF-SHA-256 and ChaCha20-Poly1305, unwraps it with the matching static
//! secret, and converts the wrapped value to and from its one-stanza wire
//! form.

pub mod b64;
pub mod bytes;
pub mod crypto;
pub mod keys;
pub mod recipient;
pub mod stanza;
