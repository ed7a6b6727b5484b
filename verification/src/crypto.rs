//! Trusted bindings to the outside collaborators: the `ed25519-dalek`
//! signature scheme, the operating-system randomness source, and the
//! monotonic clock. Each binding wraps one outside call; its contract states
//! only what that crate's source shows.

use vstd::prelude::*;

use ed25519_dalek::Signer;
use ed25519_dalek::Verifier;

verus! {

#[verifier::external_type_specification]
#[verifier::external_body]
pub struct ExPublicKey(ed25519_dalek::PublicKey);

#[verifier::external_type_specification]
#[verifier::external_body]
pub struct ExSignature(ed25519_dalek::Signature);

#[verifier::external_type_specification]
#[verifier::external_body]
pub struct ExKeypair(ed25519_dalek::Keypair);

#[verifier::external_type_specification]
#[verifier::external_body]
pub struct ExOsRng(rand::rngs::OsRng);

#[verifier::external_type_specification]
#[verifier::external_body]
pub struct ExInstant(std::time::Instant);

/// Whether 32 bytes decompress to an Edwards curve point, so that
/// `PublicKey::from_bytes` accepts them; a fixed property of the byte string.
pub uninterp spec fn key_decodes(key_bytes: Seq<u8>) -> bool;

/// Whether the Ed25519 scheme accepts the triple: the 32 key bytes and the
/// 64 signature bytes decode, and the signature verifies for the message
/// under the key. A fixed function of the three byte strings alone.
pub uninterp spec fn verifies(key_bytes: Seq<u8>, message: Seq<u8>, sig_bytes: Seq<u8>) -> bool;

/// Relies on `ed25519_dalek::PublicKey::from_bytes`,
/// `ed25519_dalek::Signature::from_bytes` and `Verifier::verify`: whether
/// the scheme accepts the triple (`verifies`); a triple whose key or
/// signature does not decode is not accepted. For timed measurement use the
/// pre-decoded form instead, so decoding stays outside the timed region.
#[verifier::external_body]
pub(crate) fn verify_bytes(key_bytes: &Vec<u8>, message: &[u8], sig_bytes: &Vec<u8>) -> (r: bool)
    requires
        key_bytes@.len() == 32,
        sig_bytes@.len() == 64,
    ensures
        r == verifies(key_bytes@, message@, sig_bytes@),
{
    match (
        ed25519_dalek::PublicKey::from_bytes(key_bytes.as_slice()),
        ed25519_dalek::Signature::from_bytes(sig_bytes.as_slice()),
    ) {
        (Ok(pk), Ok(sig)) => pk.verify(message, &sig).is_ok(),
        _ => false,
    }
}

/// Relies on `ed25519_dalek::Keypair::generate` and `Signer::sign`: draws a
/// fresh keypair from the operating-system randomness source, signs the
/// message with it, and returns the public-key and signature bytes. A
/// correctly produced Ed25519 signature verifies under its own public key,
/// so every outcome satisfies `verifies`; the signature's scalar half is
/// reduced, so the top three bits of its last byte are clear.
#[verifier::external_body]
pub(crate) fn generate_signed_bytes(csprng: &mut rand::rngs::OsRng, message: &[u8]) -> (r: (
    Vec<u8>,
    Vec<u8>,
))
    ensures
        r.0@.len() == 32,
        r.1@.len() == 64,
        r.1@[63] < 32,
        verifies(r.0@, message@, r.1@),
{
    let keypair = ed25519_dalek::Keypair::generate(csprng);
    let signature = keypair.sign(message);
    (keypair.public.as_bytes().to_vec(), signature.to_bytes().to_vec())
}

/// Relies on `ed25519_dalek::Keypair::generate`: a fresh keypair drawn from
/// the operating-system randomness source. Nothing is promised of the value.
#[verifier::external_body]
pub(crate) fn generate_keypair(csprng: &mut rand::rngs::OsRng) -> ed25519_dalek::Keypair {
    ed25519_dalek::Keypair::generate(csprng)
}

/// Relies on `Signer::sign` for `ed25519_dalek::Keypair`: an Ed25519
/// signature over the message by this keypair.
#[verifier::external_body]
pub(crate) fn sign_message(kp: &ed25519_dalek::Keypair, message: &[u8]) -> ed25519_dalek::Signature {
    kp.sign(message)
}

/// Relies on `ed25519_dalek::PublicKey::from_bytes`: on a 32-byte input it
/// returns `Ok` exactly when the bytes decompress to a curve point
/// (`key_decodes`).
#[verifier::external_body]
pub(crate) fn public_key_from_bytes(bytes: &Vec<u8>) -> (r: Option<ed25519_dalek::PublicKey>)
    requires
        bytes@.len() == 32,
    ensures
        (r is Some) <==> key_decodes(bytes@),
{
    ed25519_dalek::PublicKey::from_bytes(bytes.as_slice()).ok()
}

/// Relies on `ed25519_dalek::Signature::from_bytes`: on a 64-byte input it
/// returns `Ok` exactly when the last byte has its top three bits clear (the
/// partial scalar-reduction check).
#[verifier::external_body]
pub(crate) fn signature_from_bytes(bytes: &Vec<u8>) -> (r: Option<ed25519_dalek::Signature>)
    requires
        bytes@.len() == 64,
    ensures
        (r is Some) <==> bytes@[63] < 32,
{
    ed25519_dalek::Signature::from_bytes(bytes.as_slice()).ok()
}

/// Relies on `Verifier::verify` for `ed25519_dalek::PublicKey`: whether the
/// signature is valid for the message under the key. By design the harness
/// only discards or records this outcome; no contract is placed on it.
#[verifier::external_body]
pub(crate) fn verify_once(
    pk: &ed25519_dalek::PublicKey,
    message: &[u8],
    sig: &ed25519_dalek::Signature,
) -> bool {
    pk.verify(message, sig).is_ok()
}

/// Relies on `std::time::Instant::now`: a stamp of the monotonic
/// high-resolution clock.
#[verifier::external_body]
pub(crate) fn monotonic_now() -> std::time::Instant {
    std::time::Instant::now()
}

/// Relies on `std::time::Instant::elapsed`: the wall-clock time since the
/// stamp, converted to microseconds and truncated to 32 bits. Nothing is
/// promised of the value.
#[verifier::external_body]
pub(crate) fn elapsed_micros(since: &std::time::Instant) -> u32 {
    since.elapsed().as_micros() as u32
}

/// Relies on `std::time::Instant::elapsed`: the wall-clock time since the
/// stamp, converted to nanoseconds and truncated to 32 bits. Nothing is
/// promised of the value.
#[verifier::external_body]
pub(crate) fn elapsed_nanos(since: &std::time::Instant) -> u32 {
    since.elapsed().as_nanos() as u32
}

/// Relies on `rand::random`: one byte from the thread-local generator.
/// Nothing is promised of the value.
#[verifier::external_body]
pub(crate) fn random_byte() -> u8 {
    rand::random()
}

/// Relies on `std::hint::black_box`: observes the byte so that the eviction
/// scan cannot be optimised away.
#[verifier::external_body]
pub(crate) fn sink_byte(b: u8) {
    std::hint::black_box(b);
}

} // verus!
