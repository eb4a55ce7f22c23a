//! The identity of a device.
//!
//! A device has an Ed25519 key pair, by which it is known and with which it signs, and an X25519
//! key pair for handshakes. A binding proof, the signature of the X25519 public key, shows that
//! both belong to the same device.

use vstd::prelude::*;
use vstd::string::*;
use vstd::utf8::*;

use crate::digest::{hex_bytes, hex_decode, hex_encode, hex_error_text, is_hex, law_hex_roundtrip};
use crate::error::{crypto_error, crypto_refusal, is_crypto_error, CoreError, CoreResult};
use crate::ids::PeerId;
use crate::noise::{
    draw_keypair, drawn_keypair, noise_params, undrawn_keypair, x25519_public, NOISE_PARAMS,
};
use crate::octets::{append_bytes, array32, array64};
use crate::secret_storage::wipe_key;
use crate::signing::{
    drawn_key, ed25519_is_key, ed25519_public, ed25519_signature, new_signing_key, public_key_of,
    sign_with, verifies, verify_with, VerifyOutcome,
};
use crate::text::{decimal, hex_chars, join2, lemma_hex_chars_index, push_decimal};

verus! {

/// What is signed is this, then the X25519 public key.
pub open spec fn binding_domain() -> Seq<u8> {
    seq![
        0x74u8, 0x61, 0x63, 0x69, 0x74, 0x2d, 0x73, 0x74, 0x61, 0x74, 0x69, 0x63, 0x2d, 0x62, 0x69,
        0x6e, 0x64, 0x69, 0x6e, 0x67, 0x2d, 0x76, 0x31,
    ]
}

/// The message that a binding proof signs.
pub open spec fn binding_text(x25519_public: Seq<u8>) -> Seq<u8> {
    binding_domain() + x25519_public
}

/// The message that a binding proof signs: the ASCII text `tacit-static-binding-v1`, then the key.
fn binding_message(x25519_pubkey: &[u8; 32]) -> (r: Vec<u8>)
    ensures
        r@ == binding_text(x25519_pubkey@),
{
    let domain: [u8; 23] = [
        0x74, 0x61, 0x63, 0x69, 0x74, 0x2d, 0x73, 0x74, 0x61, 0x74, 0x69, 0x63, 0x2d, 0x62, 0x69,
        0x6e, 0x64, 0x69, 0x6e, 0x67, 0x2d, 0x76, 0x31,
    ];
    let mut msg: Vec<u8> = Vec::new();
    append_bytes(&mut msg, domain.as_slice());
    append_bytes(&mut msg, x25519_pubkey.as_slice());
    assert(domain@ =~= binding_domain());
    assert(msg@ =~= binding_text(x25519_pubkey@));
    msg
}

/// A peer's Ed25519 public key.
#[derive(Debug, Clone, Copy, PartialEq, Eq)]
pub struct PeerPubkey(pub [u8; 32]);

impl PeerPubkey {
    /// The key with these bytes. There must be thirty-two.
    pub fn from_bytes(bytes: &[u8]) -> (r: CoreResult<Self>)
        ensures
            match r {
                Ok(k) => k.0@ == bytes@,
                Err(e) => bytes@.len() != 32 && is_crypto_error(e, "公钥长度必须为 32 字节"@),
            },
    {
        if bytes.len() != 32 {
            return Err(CoreError::Crypto("公钥长度必须为 32 字节".to_owned()));
        }
        let key = PeerPubkey(array32(bytes, 0));
        assert(bytes@.subrange(0, 32) =~= bytes@);
        Ok(key)
    }

    pub fn as_bytes(&self) -> (r: &[u8; 32])
        ensures
            *r == self.0,
    {
        &self.0
    }

    /// The key in hexadecimal.
    pub fn to_hex(&self) -> (r: String)
        ensures
            r@ == hex_chars(self.0@),
    {
        hex_encode(self.0.as_slice())
    }

    /// The key that a text writes in hexadecimal.
    pub fn from_hex(s: &str) -> (r: CoreResult<Self>)
        ensures
            match r {
                Ok(k) => is_hex(s@) && k.0@ == hex_bytes(s@),
                Err(e) => e matches CoreError::Crypto(m) && (if is_hex(s@) {
                    hex_bytes(s@).len() != 32 && m@ == "公钥长度必须为 32 字节"@
                } else {
                    m@ == "hex 解码失败: "@ + hex_error_text(s@)
                }),
            },
    {
        match hex_decode(s) {
            Ok(bytes) => PeerPubkey::from_bytes(bytes.as_slice()),
            Err(why) => Err(CoreError::Crypto(join2("hex 解码失败: ", why.as_str()))),
        }
    }

    /// The identifier of the peer: the first thirty-two hexadecimal digits of its key.
    pub fn to_peer_id(&self) -> (r: PeerId)
        ensures
            r@ == peer_id_of(self.0@),
    {
        let digits = hex_encode(self.0.as_slice());
        proof {
            lemma_hex_chars_index(self.0@);
        }
        PeerId(digits.as_str().substring_char(0, 32).to_owned())
    }
}

/// The identifier of the peer with a public key.
pub open spec fn peer_id_of(public: Seq<u8>) -> Seq<char> {
    hex_chars(public).subrange(0, 32)
}

/// A key reads back from its hexadecimal notation.
pub proof fn law_pubkey_hex_roundtrip(key: PeerPubkey)
    ensures
        is_hex(hex_chars(key.0@)),
        hex_bytes(hex_chars(key.0@)) == key.0@,
{
    law_hex_roundtrip(key.0@);
}

/// An X25519 key pair.
#[derive(Debug)]
pub struct StaticKeypair {
    pub private: [u8; 32],
    pub public: [u8; 32],
}

impl Clone for StaticKeypair {
    fn clone(&self) -> (r: Self)
        ensures
            r == *self,
    {
        StaticKeypair { private: self.private, public: self.public }
    }
}

/// The private key is wiped where the pair is dropped.
impl Drop for StaticKeypair {
    fn drop(&mut self)
        opens_invariants none
        no_unwind
    {
        wipe_key(&mut self.private);
    }
}

/// The keys of a device and its binding proof.
pub struct DeviceIdentity {
    signing_key: [u8; 32],
    static_kp: StaticKeypair,
    binding_proof: [u8; 64],
}

/// The signing key is wiped where the identity is dropped.
impl Drop for DeviceIdentity {
    fn drop(&mut self)
        opens_invariants none
        no_unwind
    {
        wipe_key(&mut self.signing_key);
    }
}

impl DeviceIdentity {
    /// The Ed25519 signing key.
    pub closed spec fn seed(&self) -> Seq<u8> {
        self.signing_key@
    }

    /// The X25519 key pair.
    pub closed spec fn statics(&self) -> StaticKeypair {
        self.static_kp
    }

    /// The binding proof.
    pub closed spec fn proof_bytes(&self) -> Seq<u8> {
        self.binding_proof@
    }

    /// Whether the proof binds the X25519 key to the Ed25519 key: it passes
    /// `verify_static_binding` under the device's own public keys.
    pub open spec fn bound(&self) -> bool {
        verifies(
            ed25519_public(self.seed()),
            binding_text(self.statics().public@),
            self.proof_bytes(),
        )
    }

    /// The identity of given keys, with a new binding proof.
    pub fn from_parts(signing_key: [u8; 32], static_kp: StaticKeypair) -> (r: Self)
        ensures
            r.seed() == signing_key@,
            r.statics() == static_kp,
            r.proof_bytes() == ed25519_signature(
                signing_key@,
                binding_text(static_kp.public@),
            ),
            r.bound(),
    {
        let msg = binding_message(&static_kp.public);
        let binding_proof = sign_with(&signing_key, msg.as_slice());
        DeviceIdentity { signing_key, static_kp, binding_proof }
    }

    /// A new identity. It fails only where the system cannot make an X25519 key pair.
    pub fn generate() -> (r: CoreResult<Self>)
        ensures
            match r {
                Ok(id) => {
                    &&& exists|seed: [u8; 32]| #[trigger] drawn_key(seed) && id.seed() == seed@
                    &&& id.bound()
                    &&& id.proof_bytes() == ed25519_signature(
                        id.seed(),
                        binding_text(id.statics().public@),
                    )
                    &&& id.statics().public@ == x25519_public(id.statics().private@)
                    &&& drawn_keypair(id.statics().private@, id.statics().public@)
                },
                Err(e) => exists|why: Seq<char>| #[trigger]
                    undrawn_keypair(why) && is_crypto_error(e, "生成 X25519 密钥对失败: "@ + why),
            },
    {
        let signing_key = new_signing_key();
        let params = match noise_params(NOISE_PARAMS) {
            Ok(p) => p,
            Err(why) => {
                return Err(crypto_error("解析 Noise 参数失败: ", why.as_str()));
            },
        };
        let (private, public) = match draw_keypair(params) {
            Ok(kp) => kp,
            Err(why) => {
                return Err(crypto_error("生成 X25519 密钥对失败: ", why.as_str()));
            },
        };
        let static_kp = StaticKeypair {
            private: array32(private.as_slice(), 0),
            public: array32(public.as_slice(), 0),
        };
        assert(static_kp.private@ =~= private@);
        assert(static_kp.public@ =~= public@);
        Ok(DeviceIdentity::from_parts(signing_key, static_kp))
    }

    /// The identity of stored keys. An empty proof is made anew; one of sixty-four bytes is
    /// kept as it is.
    pub fn from_keys(
        signing_key_bytes: &[u8],
        static_kp: StaticKeypair,
        binding_proof: &[u8],
    ) -> (r: CoreResult<Self>)
        ensures
            match r {
                Ok(id) => {
                    &&& id.seed() == signing_key_bytes@
                    &&& id.statics() == static_kp
                    &&& binding_proof@.len() == 0 ==> id.bound() && id.proof_bytes()
                        == ed25519_signature(id.seed(), binding_text(static_kp.public@))
                    &&& binding_proof@.len() != 0 ==> id.proof_bytes() == binding_proof@
                },
                Err(e) => e matches CoreError::Crypto(m) && (if signing_key_bytes@.len() != 32 {
                    m@ == "签名密钥长度必须为 32 字节"@
                } else {
                    binding_proof@.len() != 0 && binding_proof@.len() != 64 && m@
                        == "无效的绑定证明长度：期望 64 字节，实际 "@ + decimal(
                        binding_proof@.len(),
                    ) + " 字节"@
                }),
            },
    {
        if signing_key_bytes.len() != 32 {
            return Err(CoreError::Crypto("签名密钥长度必须为 32 字节".to_owned()));
        }
        let signing_key = array32(signing_key_bytes, 0);
        assert(signing_key_bytes@.subrange(0, 32) =~= signing_key_bytes@);
        if binding_proof.len() == 0 {
            return Ok(DeviceIdentity::from_parts(signing_key, static_kp));
        }
        if binding_proof.len() != 64 {
            let mut m = "无效的绑定证明长度：期望 64 字节，实际 ".to_owned();
            push_decimal(&mut m, binding_proof.len() as u64);
            m.append(" 字节");
            return Err(CoreError::Crypto(m));
        }
        let proof64 = array64(binding_proof, 0);
        assert(binding_proof@.subrange(0, 64) =~= binding_proof@);
        Ok(DeviceIdentity { signing_key, static_kp, binding_proof: proof64 })
    }

    /// The Ed25519 public key.
    pub fn verifying_key(&self) -> (r: PeerPubkey)
        ensures
            r.0@ == ed25519_public(self.seed()),
            ed25519_is_key(r.0@),
    {
        PeerPubkey(public_key_of(&self.signing_key))
    }

    /// The bytes of the Ed25519 public key.
    pub fn public_key(&self) -> (r: [u8; 32])
        ensures
            r@ == ed25519_public(self.seed()),
            ed25519_is_key(r@),
    {
        public_key_of(&self.signing_key)
    }

    /// The identifier of the device.
    pub fn peer_id(&self) -> (r: PeerId)
        ensures
            r@ == peer_id_of(ed25519_public(self.seed())),
    {
        self.verifying_key().to_peer_id()
    }

    /// The Ed25519 signing key.
    pub fn signing_key(&self) -> (r: &[u8; 32])
        ensures
            r@ == self.seed(),
    {
        &self.signing_key
    }

    /// The X25519 key pair.
    pub fn static_keypair(&self) -> (r: &StaticKeypair)
        ensures
            *r == self.statics(),
    {
        &self.static_kp
    }

    /// The binding proof.
    pub fn binding_proof(&self) -> (r: &[u8; 64])
        ensures
            r@ == self.proof_bytes(),
    {
        &self.binding_proof
    }

    /// The bytes of the signing key, to be stored.
    pub fn signing_key_bytes(&self) -> (r: [u8; 32])
        ensures
            r@ == self.seed(),
    {
        self.signing_key
    }
}

/// Verifies that an X25519 key, such as a handshake yields, belongs to an Ed25519 identity.
pub fn verify_static_binding(
    ed25519_pubkey: &[u8; 32],
    x25519_pubkey: &[u8; 32],
    binding_proof: &[u8],
) -> (r: CoreResult<()>)
    ensures
        match r {
            Ok(_) => verifies(ed25519_pubkey@, binding_text(x25519_pubkey@), binding_proof@),
            Err(e) => {
                &&& !verifies(ed25519_pubkey@, binding_text(x25519_pubkey@), binding_proof@)
                &&& if binding_proof@.len() != 64 {
                    is_crypto_error(
                        e,
                        "绑定证明长度必须为 64 字节，实际 "@ + decimal(binding_proof@.len()),
                    )
                } else if !ed25519_is_key(ed25519_pubkey@) {
                    crypto_refusal(e, "无效 Ed25519 公钥: "@)
                } else {
                    crypto_refusal(
                        e,
                        "绑定验证失败：X25519 公钥与 Ed25519 身份不匹配，可能存在 MITM: "@,
                    )
                }
            },
        },
{
    if binding_proof.len() != 64 {
        let mut m = "绑定证明长度必须为 64 字节，实际 ".to_owned();
        push_decimal(&mut m, binding_proof.len() as u64);
        return Err(CoreError::Crypto(m));
    }
    let sig = array64(binding_proof, 0);
    assert(binding_proof@.subrange(0, 64) =~= binding_proof@);
    let msg = binding_message(x25519_pubkey);
    match verify_with(ed25519_pubkey, msg.as_slice(), &sig) {
        VerifyOutcome::Accepted => Ok(()),
        VerifyOutcome::BadKey(why) => Err(crypto_error("无效 Ed25519 公钥: ", why.as_str())),
        VerifyOutcome::BadSignature(why) => Err(
            crypto_error(
                "绑定验证失败：X25519 公钥与 Ed25519 身份不匹配，可能存在 MITM: ",
                why.as_str(),
            ),
        ),
    }
}

/// The proof of a device shows that its two keys belong together: it is accepted under them.
pub proof fn law_own_binding_is_accepted(
    signing_key: [u8; 32],
    static_kp: StaticKeypair,
    identity: DeviceIdentity,
    public: [u8; 32],
    binding_proof: &[u8; 64],
    given: &[u8],
    r: CoreResult<()>,
)
    requires
        call_ensures(DeviceIdentity::from_parts, (signing_key, static_kp), identity),
        call_ensures(DeviceIdentity::public_key, (&identity,), public),
        call_ensures(DeviceIdentity::binding_proof, (&identity,), binding_proof),
        given@ == binding_proof@,
        call_ensures(verify_static_binding, (&public, &static_kp.public, given), r),
    ensures
        r is Ok,
        identity.seed() == signing_key@,
        identity.statics() == static_kp,
{
}

/// A new device proves that its keys belong together, and its X25519 public key is that of its private key.
pub proof fn law_new_device_is_bound(
    made: CoreResult<DeviceIdentity>,
    public: [u8; 32],
    pair: &StaticKeypair,
    binding_proof: &[u8; 64],
    given: &[u8],
    r: CoreResult<()>,
)
    requires
        call_ensures(DeviceIdentity::generate, (), made),
        made matches Ok(identity) && call_ensures(DeviceIdentity::public_key, (&identity,), public)
            && call_ensures(DeviceIdentity::static_keypair, (&identity,), pair) && call_ensures(
            DeviceIdentity::binding_proof,
            (&identity,),
            binding_proof,
        ),
        given@ == binding_proof@,
        call_ensures(verify_static_binding, (&public, &pair.public, given), r),
    ensures
        r is Ok,
        pair.public@ == x25519_public(pair.private@),
{
}

/// A binding is accepted just where the proof is a signature of the X25519 key, behind the text that says
/// what is signed, under the Ed25519 key: a signature made for anything else is none.
pub proof fn law_binding_is_a_signature_for_binding(
    ed25519_pubkey: &[u8; 32],
    x25519_pubkey: &[u8; 32],
    binding_proof: &[u8],
    bound: CoreResult<()>,
    message: &[u8],
    signed: CoreResult<()>,
)
    requires
        message@ == encode_utf8("tacit-static-binding-v1"@) + x25519_pubkey@,
        call_ensures(
            verify_static_binding,
            (ed25519_pubkey, x25519_pubkey, binding_proof),
            bound,
        ),
        call_ensures(
            crate::signature::verify,
            (message, binding_proof, ed25519_pubkey),
            signed,
        ),
    ensures
        bound is Ok <==> signed is Ok,
        binding_proof@.len() != 64 ==> bound is Err,
        bound matches Err(e) ==> e is Crypto,
{
    lemma_binding_domain();
}

proof fn lemma_binding_domain()
    ensures
        encode_utf8("tacit-static-binding-v1"@) == binding_domain(),
{
    let s = "tacit-static-binding-v1"@;
    reveal_strlit("tacit-static-binding-v1");
    vstd::utf8::is_ascii_chars_encode_utf8(s);
    assert(encode_utf8(s) =~= binding_domain());
}

/// A device is known by the first half of its public key, in hexadecimal.
pub proof fn law_device_is_known_by_its_key(
    identity: &DeviceIdentity,
    key: PeerPubkey,
    hex: String,
    of_key: PeerId,
    of_device: PeerId,
)
    requires
        call_ensures(DeviceIdentity::verifying_key, (identity,), key),
        call_ensures(PeerPubkey::to_hex, (&key,), hex),
        call_ensures(PeerPubkey::to_peer_id, (&key,), of_key),
        call_ensures(DeviceIdentity::peer_id, (identity,), of_device),
    ensures
        of_device@ == of_key@,
        hex@.len() == 64,
        of_key@ == hex@.take(32),
{
    lemma_hex_chars_index(key.0@);
    assert(hex@.subrange(0, 32) =~= hex@.take(32));
}

/// A public key is read back from its hexadecimal notation and from its bytes; other lengths are refused.
pub proof fn law_public_key_is_read_back(
    key: PeerPubkey,
    hex: String,
    text: &str,
    from_hex: CoreResult<PeerPubkey>,
    bytes: &[u8],
    from_bytes: CoreResult<PeerPubkey>,
)
    requires
        call_ensures(PeerPubkey::to_hex, (&key,), hex),
        text@ == hex@,
        call_ensures(PeerPubkey::from_hex, (text,), from_hex),
        call_ensures(PeerPubkey::from_bytes, (bytes,), from_bytes),
    ensures
        from_hex matches Ok(k) && k.0@ == key.0@,
        from_bytes is Ok <==> bytes@.len() == 32,
        from_bytes matches Ok(k) ==> k.0@ == bytes@,
{
    law_pubkey_hex_roundtrip(key);
}

/// Stored keys are taken as they are. A proof that is there is kept, one that is not is made anew, and
/// keys or proofs of other lengths are refused.
pub proof fn law_stored_keys_are_taken(
    signing_key_bytes: &[u8],
    static_kp: StaticKeypair,
    binding_proof: &[u8],
    r: CoreResult<DeviceIdentity>,
)
    requires
        call_ensures(DeviceIdentity::from_keys, (signing_key_bytes, static_kp, binding_proof), r),
    ensures
        signing_key_bytes@.len() == 32 && (binding_proof@.len() == 0 || binding_proof@.len() == 64)
            ==> r is Ok,
        r matches Ok(id) ==> {
            &&& id.seed() == signing_key_bytes@
            &&& id.statics() == static_kp
            &&& binding_proof@.len() > 0 ==> id.proof_bytes() == binding_proof@
            &&& binding_proof@.len() == 0 ==> verifies(
                ed25519_public(signing_key_bytes@),
                binding_text(static_kp.public@),
                id.proof_bytes(),
            )
        },
        r matches Err(e) ==> e is Crypto,
{
}

} // verus!
