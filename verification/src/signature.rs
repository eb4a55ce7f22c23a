//! Signing and verifying in the name of a device.

use vstd::prelude::*;

use crate::error::{crypto_error, crypto_refusal, is_crypto_error, CoreError, CoreResult};
use crate::identity::DeviceIdentity;
use crate::octets::array64;
use crate::signing::{
    ed25519_is_key, ed25519_public, ed25519_signature, sign_with, verifies, verify_with,
    VerifyOutcome,
};

verus! {

/// Signs a message with the key of a device. The signature verifies under its public
/// key.
pub fn sign(identity: &DeviceIdentity, message: &[u8]) -> (r: [u8; 64])
    ensures
        r@ == ed25519_signature(identity.seed(), message@),
        verifies(ed25519_public(identity.seed()), message@, r@),
{
    sign_with(identity.signing_key(), message)
}

/// Verifies a signature under an Ed25519 public key.
pub fn verify(message: &[u8], signature: &[u8], pubkey: &[u8; 32]) -> (r: CoreResult<()>)
    ensures
        match r {
            Ok(_) => verifies(pubkey@, message@, signature@),
            Err(e) => {
                &&& !verifies(pubkey@, message@, signature@)
                &&& if signature@.len() != 64 {
                    is_crypto_error(e, "签名长度必须为 64 字节"@)
                } else if !ed25519_is_key(pubkey@) {
                    crypto_refusal(e, "无效公钥: "@)
                } else {
                    crypto_refusal(e, "验签失败: "@)
                }
            },
        },
{
    if signature.len() != 64 {
        return Err(CoreError::Crypto("签名长度必须为 64 字节".to_owned()));
    }
    let sig = array64(signature, 0);
    assert(signature@.subrange(0, 64) =~= signature@);
    match verify_with(pubkey, message, &sig) {
        VerifyOutcome::Accepted => Ok(()),
        VerifyOutcome::BadKey(why) => Err(crypto_error("无效公钥: ", why.as_str())),
        VerifyOutcome::BadSignature(why) => Err(crypto_error("验签失败: ", why.as_str())),
    }
}

/// What a device signs is accepted under its public key.
pub proof fn law_own_signature_is_accepted(
    identity: &DeviceIdentity,
    message: &[u8],
    signature: [u8; 64],
    given: &[u8],
    public: [u8; 32],
    r: CoreResult<()>,
)
    requires
        call_ensures(sign, (identity, message), signature),
        given@ == signature@,
        call_ensures(DeviceIdentity::public_key, (identity,), public),
        call_ensures(verify, (message, given, &public), r),
    ensures
        r is Ok,
{
}

/// A signature is accepted just where the key is one and accepts it for this very message; one of another
/// length than sixty-four bytes never is.
pub proof fn law_only_signatures_are_accepted(
    message: &[u8],
    signature: &[u8],
    pubkey: &[u8; 32],
    r: CoreResult<()>,
)
    requires
        call_ensures(verify, (message, signature, pubkey), r),
    ensures
        r is Ok <==> signature@.len() == 64 && ed25519_is_key(pubkey@)
            && crate::signing::ed25519_accepts(pubkey@, message@, signature@),
        r matches Err(e) ==> e is Crypto,
{
}

} // verus!
