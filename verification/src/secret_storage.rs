//! Where secrets are kept, and how an identity is written down.

use vstd::prelude::*;
use vstd::string::*;

use crate::error::{is_crypto_error, CoreError, CoreResult};
use crate::identity::{DeviceIdentity, StaticKeypair};
use crate::octets::{append_bytes, array32, copy_range};
use crate::text::{decimal, push_decimal};
use crate::text_map::TextMap;

verus! {

/// How many bytes a written identity has.
pub const IDENTITY_LEN: usize = 160;

/// A store of secrets, such as a platform's key chain. Platforms implement it.
pub trait SecretStorage {
    /// Keeps a secret, in place of the one that had its name.
    fn store_secret(&mut self, key: &str, value: &[u8]) -> CoreResult<()>;

    /// The secret with a name; `None` where there is none.
    fn load_secret(&self, key: &str) -> CoreResult<Option<Vec<u8>>>;

    /// Forgets the secret with a name, where there is one.
    fn delete_secret(&mut self, key: &str) -> CoreResult<()>;
}

/// A store of secrets in memory, for tests and development.
#[derive(Debug)]
pub struct InMemoryStorage {
    data: TextMap<Vec<u8>>,
}

impl Default for InMemoryStorage {
    fn default() -> (r: Self)
        ensures
            r.secrets() == Map::<Seq<char>, Seq<u8>>::empty(),
    {
        InMemoryStorage::new()
    }
}

impl InMemoryStorage {
    /// The secrets, by name.
    pub closed spec fn secrets(&self) -> Map<Seq<char>, Seq<u8>> {
        byte_views(self.data@)
    }

    /// The names are kept in order, each once.
    #[verifier::type_invariant]
    spec fn storage_wf(&self) -> bool {
        self.data.wf()
    }

    pub fn new() -> (r: Self)
        ensures
            r.secrets() == Map::<Seq<char>, Seq<u8>>::empty(),
    {
        let r = InMemoryStorage { data: TextMap::new() };
        assert(r.secrets() =~= Map::<Seq<char>, Seq<u8>>::empty());
        r
    }
}

/// A map of byte vectors, each taken as its bytes.
pub open spec fn byte_views(m: Map<Seq<char>, Vec<u8>>) -> Map<Seq<char>, Seq<u8>> {
    m.map_values(|v: Vec<u8>| v@)
}

impl SecretStorage for InMemoryStorage {
    fn store_secret(&mut self, key: &str, value: &[u8]) -> (r: CoreResult<()>)
        ensures
            r is Ok,
            final(self).secrets() == old(self).secrets().insert(key@, value@),
    {
        proof {
            use_type_invariant(&*self);
        }
        let bytes = copy_range(value, 0, value.len());
        assert(bytes@ =~= value@);
        let mut data = TextMap::new();
        std::mem::swap(&mut data, &mut self.data);
        data.insert(key.to_owned(), bytes);
        self.data = data;
        assert(self.secrets() =~= old(self).secrets().insert(key@, value@));
        Ok(())
    }

    fn load_secret(&self, key: &str) -> (r: CoreResult<Option<Vec<u8>>>)
        ensures
            r is Ok,
            match r->Ok_0 {
                Some(v) => self.secrets().dom().contains(key@) && v@ == self.secrets()[key@],
                None => !self.secrets().dom().contains(key@),
            },
    {
        proof {
            use_type_invariant(self);
        }
        match self.data.get(key) {
            Some(v) => {
                let bytes = copy_range(v.as_slice(), 0, v.len());
                assert(bytes@ =~= v@);
                Ok(Some(bytes))
            },
            None => Ok(None),
        }
    }

    fn delete_secret(&mut self, key: &str) -> (r: CoreResult<()>)
        ensures
            r is Ok,
            final(self).secrets() == old(self).secrets().remove(key@),
    {
        proof {
            use_type_invariant(&*self);
        }
        let mut data = TextMap::new();
        std::mem::swap(&mut data, &mut self.data);
        let _ = data.remove(key);
        self.data = data;
        assert(self.secrets() =~= old(self).secrets().remove(key@));
        Ok(())
    }
}

/// The bytes of a written identity: signing key, X25519 private key, X25519 public key, proof.
pub open spec fn identity_bytes(id: &DeviceIdentity) -> Seq<u8> {
    id.seed() + id.statics().private@ + id.statics().public@ + id.proof_bytes()
}

/// Bytes that are wiped where they are dropped.
pub struct Secret {
    bytes: Vec<u8>,
}

impl View for Secret {
    type V = Seq<u8>;

    closed spec fn view(&self) -> Seq<u8> {
        self.bytes@
    }
}

impl Drop for Secret {
    fn drop(&mut self)
        opens_invariants none
        no_unwind
    {
        wipe(&mut self.bytes);
    }
}

impl Secret {
    pub fn new(bytes: Vec<u8>) -> (r: Self)
        ensures
            r@ == bytes@,
    {
        Secret { bytes }
    }

    pub fn as_slice(&self) -> (r: &[u8])
        ensures
            r@ == self@,
    {
        self.bytes.as_slice()
    }
}

/// Writes an identity down.
pub fn serialize_identity(identity: &DeviceIdentity) -> (r: Secret)
    ensures
        r@ == identity_bytes(identity),
        r@.len() == 160,
{
    let mut out: Vec<u8> = Vec::new();
    let seed = identity.signing_key();
    let kp = identity.static_keypair();
    let proof64 = identity.binding_proof();
    append_bytes(&mut out, seed.as_slice());
    append_bytes(&mut out, kp.private.as_slice());
    append_bytes(&mut out, kp.public.as_slice());
    append_bytes(&mut out, proof64.as_slice());
    assert(out@ =~= identity_bytes(identity));
    Secret::new(out)
}

/// Overwrites a buffer with zeros and empties it. Calls `zeroize::Zeroize::zeroize`, which does not
/// panic.
#[verifier::external_body]
pub(crate) fn wipe(bytes: &mut Vec<u8>)
    ensures
        final(bytes)@ == Seq::<u8>::empty(),
    opens_invariants none
    no_unwind
{
    zeroize::Zeroize::zeroize(bytes)
}

/// Overwrites a key with zeros. Calls `zeroize::Zeroize::zeroize`, which does not panic.
#[verifier::external_body]
pub(crate) fn wipe_key(bytes: &mut [u8; 32])
    ensures
        final(bytes)@ == Seq::new(32, |i: int| 0u8),
    opens_invariants none
    no_unwind
{
    zeroize::Zeroize::zeroize(bytes)
}

/// Reads a written identity. The buffer is wiped.
pub fn deserialize_identity(bytes: Secret) -> (r: CoreResult<DeviceIdentity>)
    ensures
        match r {
            Ok(id) => identity_bytes(&id) == bytes@,
            Err(e) => bytes@.len() != 160 && is_crypto_error(
                e,
                "身份数据长度不正确: 期望 160 字节, 实际 "@ + decimal(bytes@.len())
                    + " 字节"@,
            ),
        },
{
    let data = bytes.as_slice();
    if data.len() != IDENTITY_LEN {
        let mut m = "身份数据长度不正确: 期望 160 字节, 实际 ".to_owned();
        push_decimal(&mut m, data.len() as u64);
        m.append(" 字节");
        return Err(CoreError::Crypto(m));
    }
    let signing_key = Secret::new(copy_range(data, 0, 32));
    let static_kp = StaticKeypair { private: array32(data, 32), public: array32(data, 64) };
    let proof64 = copy_range(data, 96, 160);
    match DeviceIdentity::from_keys(signing_key.as_slice(), static_kp, proof64.as_slice()) {
        Ok(id) => {
            assert(identity_bytes(&id) =~= data@);
            Ok(id)
        },
        Err(e) => Err(e),
    }
}

/// What is written of an identity determines all that it holds.
pub proof fn law_identity_bytes_determine(a: &DeviceIdentity, b: &DeviceIdentity)
    requires
        identity_bytes(a) == identity_bytes(b),
        a.seed().len() == 32 && b.seed().len() == 32,
    ensures
        a.seed() == b.seed(),
        a.statics().private@ == b.statics().private@,
        a.statics().public@ == b.statics().public@,
        a.proof_bytes() == b.proof_bytes(),
{
    let s = identity_bytes(a);
    let t = identity_bytes(b);
    let pa = a.statics().private@;
    let pb = b.statics().private@;
    let qa = a.statics().public@;
    let qb = b.statics().public@;
    assert(pa.len() == 32 && pb.len() == 32 && qa.len() == 32 && qb.len() == 32);
    assert(s.subrange(0, 32) =~= a.seed());
    assert(t.subrange(0, 32) =~= b.seed());
    assert(s.subrange(32, 64) =~= pa);
    assert(t.subrange(32, 64) =~= pb);
    assert(s.subrange(64, 96) =~= qa);
    assert(t.subrange(64, 96) =~= qb);
    assert(s.skip(96) =~= a.proof_bytes());
    assert(t.skip(96) =~= b.proof_bytes());
}

/// A secret that was kept is loaded as it was; keeping it leaves the other secrets alone, and a secret that
/// is forgotten is loaded no more.
pub proof fn law_secrets_are_kept(
    keeping: &mut InMemoryStorage,
    key: &str,
    value: &[u8],
    kept: CoreResult<()>,
    loaded: CoreResult<Option<Vec<u8>>>,
    other: &str,
    other_before: CoreResult<Option<Vec<u8>>>,
    other_after: CoreResult<Option<Vec<u8>>>,
    forgetting: &mut InMemoryStorage,
    forgotten: CoreResult<()>,
    gone: CoreResult<Option<Vec<u8>>>,
    other_at_last: CoreResult<Option<Vec<u8>>>,
)
    requires
        other@ != key@,
        call_ensures(InMemoryStorage::store_secret, (keeping, key, value), kept),
        call_ensures(InMemoryStorage::load_secret, (&*final(keeping), key), loaded),
        call_ensures(InMemoryStorage::load_secret, (&*old(keeping), other), other_before),
        call_ensures(InMemoryStorage::load_secret, (&*final(keeping), other), other_after),
        *old(forgetting) == *final(keeping),
        call_ensures(InMemoryStorage::delete_secret, (forgetting, key), forgotten),
        call_ensures(InMemoryStorage::load_secret, (&*final(forgetting), key), gone),
        call_ensures(InMemoryStorage::load_secret, (&*final(forgetting), other), other_at_last),
    ensures
        kept is Ok && forgotten is Ok,
        loaded matches Ok(Some(v)) && v@ == value@,
        gone matches Ok(None),
        other_before is Ok && other_after is Ok && other_at_last is Ok,
        other_before->Ok_0 is Some <==> other_after->Ok_0 is Some,
        other_before->Ok_0 is Some ==> other_after->Ok_0->Some_0@ == other_before->Ok_0->Some_0@,
        other_after->Ok_0 is Some <==> other_at_last->Ok_0 is Some,
        other_after->Ok_0 is Some ==> other_at_last->Ok_0->Some_0@ == other_after->Ok_0->Some_0@,
{
}

/// A written identity is its signing key, its X25519 keys, private and public, and its proof, in this
/// order; what is read from it is what was written.
pub proof fn law_written_identity_is_read_back(
    identity: &DeviceIdentity,
    seed: &[u8; 32],
    pair: &StaticKeypair,
    proof_bytes: &[u8; 64],
    written: Secret,
    r: CoreResult<DeviceIdentity>,
    back_seed: &[u8; 32],
)
    requires
        call_ensures(DeviceIdentity::signing_key, (identity,), seed),
        call_ensures(DeviceIdentity::static_keypair, (identity,), pair),
        call_ensures(DeviceIdentity::binding_proof, (identity,), proof_bytes),
        call_ensures(serialize_identity, (identity,), written),
        call_ensures(deserialize_identity, (written,), r),
        r matches Ok(id) ==> call_ensures(DeviceIdentity::signing_key, (&id,), back_seed),
    ensures
        written@ == seed@ + pair.private@ + pair.public@ + proof_bytes@,
        r is Ok,
        r->Ok_0.seed() == identity.seed(),
        r->Ok_0.statics().private@ == identity.statics().private@,
        r->Ok_0.statics().public@ == identity.statics().public@,
        r->Ok_0.proof_bytes() == identity.proof_bytes(),
{
    law_identity_bytes_determine(&r->Ok_0, identity);
}

/// Only what has the length of a written identity is read as one.
pub proof fn law_other_lengths_are_no_identity(bytes: Secret, r: CoreResult<DeviceIdentity>)
    requires
        call_ensures(deserialize_identity, (bytes,), r),
    ensures
        bytes@.len() == 160 ==> r is Ok,
        r matches Err(e) ==> e is Crypto,
{
}

} // verus!
