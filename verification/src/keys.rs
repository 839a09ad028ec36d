//! X25519 key agreement, as both ends of a session use it: a fresh key
//! pair on each side, and the secret the two sides share.

use vstd::prelude::*;

verus! {

/// The length of an X25519 public key and of a shared secret, in bytes.
pub const KEY_LEN: usize = 32;

/// The secret half of an X25519 key pair of x25519-dalek, usable once.
/// Nothing of its content is visible here.
#[verifier::external_type_specification]
#[verifier::external_body]
pub struct ExEphemeralSecret(x25519_dalek::EphemeralSecret);

/// `EphemeralSecret::random_from_rng` with the operating system's generator
/// and `PublicKey::from` of x25519-dalek: a fresh secret with its public
/// key. The pair is random; what holds of every outcome is that the public
/// key is 32 bytes long.
#[verifier::external_body]
pub(crate) fn fresh_keypair() -> (pair: (x25519_dalek::EphemeralSecret, Vec<u8>))
    ensures
        pair.1@.len() == KEY_LEN,
{
    let secret = x25519_dalek::EphemeralSecret::random_from_rng(rand::rngs::OsRng);
    let public = x25519_dalek::PublicKey::from(&secret);
    (secret, public.as_bytes().to_vec())
}

/// `EphemeralSecret::diffie_hellman` of x25519-dalek against the other
/// side's public key: the shared secret, 32 bytes long. The secret is not
/// visible, so the result is not named.
#[verifier::external_body]
pub(crate) fn agree(secret: x25519_dalek::EphemeralSecret, their_public: &[u8]) -> (shared: Vec<u8>)
    requires
        their_public@.len() == KEY_LEN,
    ensures
        shared@.len() == KEY_LEN,
{
    let mut bytes = [0u8; 32];
    bytes.copy_from_slice(their_public);
    secret.diffie_hellman(&x25519_dalek::PublicKey::from(bytes)).as_bytes().to_vec()
}

} // verus!
