//! A platform's store of secrets.

use vstd::prelude::*;
use vstd::string::*;

use crate::error::{is_crypto_error, CoreError, CoreResult};
use crate::ffi_error::{ffi_error_text, TacitFfiError};
use crate::octets::append_bytes;
use crate::secret_storage::SecretStorage;
use crate::text::join2;

verus! {

/// A platform's store of secrets. Platforms implement it.
pub trait ForeignSecretStorage {
    /// Keeps a secret, in place of the one that had its name.
    fn store_secret(&self, key: String, value: Vec<u8>) -> Result<(), TacitFfiError>;

    /// The secret with a name; `None` where there is none.
    fn load_secret(&self, key: String) -> Result<Option<Vec<u8>>, TacitFfiError>;

    /// Forgets the secret with a name, where there is one.
    fn delete_secret(&self, key: String) -> Result<(), TacitFfiError>;
}

/// A platform's store of secrets, as the library uses it.
#[derive(Debug)]
pub struct ForeignSecretStorageAdapter<S> {
    inner: S,
}

/// Whether a result is that of the platform, with its error passed on.
pub open spec fn passed_on<T>(answer: Result<T, TacitFfiError>, r: CoreResult<T>) -> bool {
    match (answer, r) {
        (Ok(a), Ok(b)) => a == b,
        (Err(cause), Err(e)) => is_crypto_error(
            e,
            "ForeignSecretStorage: "@ + ffi_error_text(cause),
        ),
        _ => false,
    }
}

/// A result of the platform's store, as the library reports it.
pub fn storage_result<T>(answer: Result<T, TacitFfiError>) -> (r: CoreResult<T>)
    ensures
        passed_on(answer, r),
{
    match answer {
        Ok(v) => Ok(v),
        Err(cause) => {
            let text = cause.message();
            Err(CoreError::Crypto(join2("ForeignSecretStorage: ", text.as_str())))
        },
    }
}

impl<S: ForeignSecretStorage> ForeignSecretStorageAdapter<S> {
    /// The platform's store.
    pub closed spec fn platform(&self) -> S {
        self.inner
    }

    pub fn new(inner: S) -> (r: Self)
        ensures
            r.platform() == inner,
    {
        ForeignSecretStorageAdapter { inner }
    }
}

impl<S: ForeignSecretStorage> SecretStorage for ForeignSecretStorageAdapter<S> {
    fn store_secret(&mut self, key: &str, value: &[u8]) -> (r: CoreResult<()>)
        ensures
            final(self).platform() == old(self).platform(),
            exists|k: String, v: Vec<u8>, answer: Result<(), TacitFfiError>|
                k@ == key@ && v@ == value@ && #[trigger] call_ensures(
                    S::store_secret,
                    (&old(self).platform(), k, v),
                    answer,
                ) && passed_on(answer, r),
    {
        let mut bytes: Vec<u8> = Vec::new();
        append_bytes(&mut bytes, value);
        assert(bytes@ =~= value@);
        let name = key.to_owned();
        let ghost (k, v) = (name, bytes);
        let answer = self.inner.store_secret(name, bytes);
        assert(call_ensures(S::store_secret, (&old(self).platform(), k, v), answer));
        storage_result(answer)
    }

    fn load_secret(&self, key: &str) -> (r: CoreResult<Option<Vec<u8>>>)
        ensures
            exists|k: String, answer: Result<Option<Vec<u8>>, TacitFfiError>|
                k@ == key@ && #[trigger] call_ensures(
                    S::load_secret,
                    (&self.platform(), k),
                    answer,
                ) && passed_on(answer, r),
    {
        let name = key.to_owned();
        let ghost k = name;
        let answer = self.inner.load_secret(name);
        assert(call_ensures(S::load_secret, (&self.platform(), k), answer));
        storage_result(answer)
    }

    fn delete_secret(&mut self, key: &str) -> (r: CoreResult<()>)
        ensures
            final(self).platform() == old(self).platform(),
            exists|k: String, answer: Result<(), TacitFfiError>|
                k@ == key@ && #[trigger] call_ensures(
                    S::delete_secret,
                    (&old(self).platform(), k),
                    answer,
                ) && passed_on(answer, r),
    {
        let name = key.to_owned();
        let ghost k = name;
        let answer = self.inner.delete_secret(name);
        assert(call_ensures(S::delete_secret, (&old(self).platform(), k), answer));
        storage_result(answer)
    }
}

/// What the platform's store answers is passed on: a value as it is, and an error as a cryptographic one
/// that says what the platform says.
pub proof fn law_platform_store_is_passed_on<T>(
    answer: Result<T, TacitFfiError>,
    r: CoreResult<T>,
    text: String,
)
    requires
        call_ensures(storage_result::<T>, (answer,), r),
        answer matches Err(cause) ==> call_ensures(TacitFfiError::message, (&cause,), text),
    ensures
        r is Ok <==> answer is Ok,
        r matches Ok(v) ==> answer == Ok::<T, TacitFfiError>(v),
        r matches Err(e) ==> (e matches CoreError::Crypto(t) && t@ == "ForeignSecretStorage: "@
            + text@),
{
}

/// A platform's store is asked to keep, load and forget a secret by the name and with the bytes that were
/// given, and what it answers is passed on.
pub proof fn law_platform_store_is_asked<S: ForeignSecretStorage>(
    adapter: &ForeignSecretStorageAdapter<S>,
    key: &str,
    loaded: CoreResult<Option<Vec<u8>>>,
    keeping: &mut ForeignSecretStorageAdapter<S>,
    value: &[u8],
    kept: CoreResult<()>,
    forgetting: &mut ForeignSecretStorageAdapter<S>,
    forgotten: CoreResult<()>,
)
    requires
        call_ensures(ForeignSecretStorageAdapter::<S>::load_secret, (adapter, key), loaded),
        call_ensures(ForeignSecretStorageAdapter::<S>::store_secret, (keeping, key, value), kept),
        call_ensures(ForeignSecretStorageAdapter::<S>::delete_secret, (forgetting, key), forgotten),
    ensures
        exists|k: String, answer: Result<Option<Vec<u8>>, TacitFfiError>|
            k@ == key@ && #[trigger] call_ensures(S::load_secret, (&adapter.platform(), k), answer)
                && (loaded is Ok <==> answer is Ok) && (loaded is Ok ==> loaded->Ok_0
                == answer->Ok_0),
        exists|k: String, v: Vec<u8>, answer: Result<(), TacitFfiError>|
            k@ == key@ && v@ == value@ && #[trigger] call_ensures(
                S::store_secret,
                (&old(keeping).platform(), k, v),
                answer,
            ) && (kept is Ok <==> answer is Ok),
        exists|k: String, answer: Result<(), TacitFfiError>|
            k@ == key@ && #[trigger] call_ensures(
                S::delete_secret,
                (&old(forgetting).platform(), k),
                answer,
            ) && (forgotten is Ok <==> answer is Ok),
        final(keeping).platform() == old(keeping).platform(),
        final(forgetting).platform() == old(forgetting).platform(),
{
}

} // verus!
