//! Ed25519 signatures.

use ed25519_dalek::{Signer, Verifier};
use vstd::prelude::*;

verus! {

/// The public key of a signing key.
pub uninterp spec fn ed25519_public(seed: Seq<u8>) -> Seq<u8>;

/// The signature of a message under a signing key.
pub uninterp spec fn ed25519_signature(seed: Seq<u8>, message: Seq<u8>) -> Seq<u8>;

/// Whether bytes are a public key.
pub uninterp spec fn ed25519_is_key(public: Seq<u8>) -> bool;

/// Whether a signature of a message is accepted under a public key.
pub uninterp spec fn ed25519_accepts(public: Seq<u8>, message: Seq<u8>, signature: Seq<u8>) -> bool;

/// Whether a signature verifies: the key is one, and it accepts the signature of the message.
pub open spec fn verifies(public: Seq<u8>, message: Seq<u8>, signature: Seq<u8>) -> bool {
    signature.len() == 64 && ed25519_is_key(public) && ed25519_accepts(public, message, signature)
}

/// What became of a verification.
#[derive(Debug)]
pub enum VerifyOutcome {
    Accepted,
    /// The public key is none; the text says why.
    BadKey(String),
    /// The signature is not one of the message; the text says so.
    BadSignature(String),
}

/// The public key of the signing key `seed`.
///
/// Calls `ed25519_dalek::SigningKey::verifying_key`, whose result is named by
/// `ed25519_public`. It is a public key.
#[verifier::external_body]
pub(crate) fn public_key_of(seed: &[u8; 32]) -> (r: [u8; 32])
    ensures
        r@ == ed25519_public(seed@),
        ed25519_is_key(r@),
{
    ed25519_dalek::SigningKey::from_bytes(seed).verifying_key().to_bytes()
}

/// The signature of `message` under the signing key `seed`.
///
/// Calls `ed25519_dalek::SigningKey::sign`, which draws no random numbers; its result is named
/// by `ed25519_signature`. It verifies under the public key of `seed`.
#[verifier::external_body]
pub(crate) fn sign_with(seed: &[u8; 32], message: &[u8]) -> (r: [u8; 64])
    ensures
        r@ == ed25519_signature(seed@, message@),
        verifies(ed25519_public(seed@), message@, r@),
{
    ed25519_dalek::SigningKey::from_bytes(seed).sign(message).to_bytes()
}

/// Verifies a signature.
///
/// Calls `ed25519_dalek::VerifyingKey::from_bytes`, whose success is named by `ed25519_is_key`,
/// and then `verify`, whose success is named by `ed25519_accepts`.
#[verifier::external_body]
pub(crate) fn verify_with(
    public: &[u8; 32],
    message: &[u8],
    signature: &[u8; 64],
) -> (r: VerifyOutcome)
    ensures
        (r is BadKey) == !ed25519_is_key(public@),
        (r is Accepted) == (ed25519_is_key(public@) && ed25519_accepts(public@, message@, signature@)),
{
    let sig = ed25519_dalek::Signature::from_bytes(signature);
    match ed25519_dalek::VerifyingKey::from_bytes(public) {
        Err(e) => VerifyOutcome::BadKey(e.to_string()),
        Ok(key) => match key.verify(message, &sig) {
            Ok(()) => VerifyOutcome::Accepted,
            Err(e) => VerifyOutcome::BadSignature(e.to_string()),
        },
    }
}

/// Whether a signing key was drawn at random.
pub closed spec fn drawn_key(seed: [u8; 32]) -> bool {
    call_ensures(draw_signing_key, (), seed)
}

/// A new signing key.
pub(crate) fn new_signing_key() -> (r: [u8; 32])
    ensures
        drawn_key(r),
{
    draw_signing_key()
}

/// A new signing key.
///
/// Calls `ed25519_dalek::SigningKey::generate` with the operating system's random numbers.
/// Nothing is promised of the key, which rests on chance.
#[verifier::external_body]
fn draw_signing_key() -> [u8; 32] {
    ed25519_dalek::SigningKey::generate(&mut rand::rngs::OsRng).to_bytes()
}

} // verus!
