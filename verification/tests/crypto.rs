use std::cell::RefCell;
use std::time::{SystemTime, UNIX_EPOCH};

use rand::RngCore;
use tacit::error::CoreError;
use tacit::foreign_storage::{ForeignSecretStorage, ForeignSecretStorageAdapter};
use tacit::ffi_error::TacitFfiError;
use tacit::identity::{verify_static_binding, DeviceIdentity, PeerPubkey, StaticKeypair};
use tacit::noise::NoiseHandshake;
use tacit::replay::{generate_replay_payload, replay_payload_at, NonceCache, REPLAY_PAYLOAD_LEN};
use tacit::secret_storage::{
    deserialize_identity, serialize_identity, InMemoryStorage, Secret, SecretStorage,
};
use tacit::secure_session::Session;
use tacit::signature::{sign, verify};

const TEST_PROLOGUE: &[u8] = b"tacit-test-v1";

fn now_secs() -> u64 {
    SystemTime::now().duration_since(UNIX_EPOCH).map(|d| d.as_secs()).unwrap_or(0)
}

fn payload_with(ts: u64) -> Vec<u8> {
    let mut payload = vec![0u8; REPLAY_PAYLOAD_LEN];
    payload[..8].copy_from_slice(&ts.to_be_bytes());
    rand::thread_rng().fill_bytes(&mut payload[8..]);
    payload
}

#[test]
fn generate_identity() {
    let id = DeviceIdentity::generate().unwrap();
    let pid = id.peer_id();
    assert!(!pid.as_str().is_empty());
    assert_eq!(id.public_key().len(), 32);
    assert_eq!(id.binding_proof().len(), 64);
}

#[test]
fn peer_pubkey_roundtrip() {
    let id = DeviceIdentity::generate().unwrap();
    let pubkey = id.public_key();
    let peer_pub = PeerPubkey(pubkey);
    let hex = peer_pub.to_hex();
    let parsed = PeerPubkey::from_hex(&hex).unwrap();
    assert_eq!(peer_pub, parsed);
}

#[test]
fn restore_from_keys() {
    let id = DeviceIdentity::generate().unwrap();
    let sk = id.signing_key_bytes();
    let static_kp = id.static_keypair().clone();
    let proof = id.binding_proof();
    let restored = DeviceIdentity::from_keys(&sk, static_kp, proof).unwrap();
    assert_eq!(id.public_key(), restored.public_key());
    assert_eq!(id.binding_proof(), restored.binding_proof());
}

#[test]
fn restore_from_keys_recomputes_binding() {
    let id = DeviceIdentity::generate().unwrap();
    let sk = id.signing_key_bytes();
    let static_kp = id.static_keypair().clone();
    let restored = DeviceIdentity::from_keys(&sk, static_kp, &[]).unwrap();
    assert_eq!(id.binding_proof(), restored.binding_proof());
}

#[test]
fn verify_binding_accepts_valid() {
    let id = DeviceIdentity::generate().unwrap();
    let ed25519_pub = id.public_key();
    let x25519_pub = id.static_keypair().public;
    let proof = id.binding_proof();
    let result = verify_static_binding(&ed25519_pub, &x25519_pub, proof);
    assert!(result.is_ok(), "有效绑定应验证通过");
}

#[test]
fn verify_binding_rejects_wrong_x25519() {
    let id = DeviceIdentity::generate().unwrap();
    let ed25519_pub = id.public_key();
    let other = DeviceIdentity::generate().unwrap();
    let wrong_x25519 = other.static_keypair().public;
    let proof = id.binding_proof();
    let result = verify_static_binding(&ed25519_pub, &wrong_x25519, proof);
    assert!(result.is_err(), "错误的 X25519 公钥应验证失败");
}

#[test]
fn verify_binding_rejects_wrong_ed25519() {
    let id = DeviceIdentity::generate().unwrap();
    let other = DeviceIdentity::generate().unwrap();
    let wrong_ed25519 = other.public_key();
    let x25519_pub = id.static_keypair().public;
    let proof = id.binding_proof();
    let result = verify_static_binding(&wrong_ed25519, &x25519_pub, proof);
    assert!(result.is_err(), "错误的 Ed25519 公钥应验证失败");
}

#[test]
fn verify_binding_rejects_tampered_proof() {
    let id = DeviceIdentity::generate().unwrap();
    let ed25519_pub = id.public_key();
    let x25519_pub = id.static_keypair().public;
    let mut tampered = *id.binding_proof();
    tampered[0] ^= 0xFF;
    let result = verify_static_binding(&ed25519_pub, &x25519_pub, &tampered);
    assert!(result.is_err(), "篡改的绑定证明应验证失败");
}

#[test]
fn verify_binding_rejects_short_proof() {
    let id = DeviceIdentity::generate().unwrap();
    let ed25519_pub = id.public_key();
    let x25519_pub = id.static_keypair().public;
    let result = verify_static_binding(&ed25519_pub, &x25519_pub, &[0u8; 32]);
    assert!(result.is_err(), "过短的绑定证明应验证失败");
}

#[test]
fn keys_of_known_values() {
    let zeros = PeerPubkey([0u8; 32]);
    assert_eq!(zeros.to_hex(), "0".repeat(64));
    assert_eq!(zeros.to_peer_id().as_str(), "0".repeat(32));
    assert!(matches!(PeerPubkey::from_hex("zz"), Err(CoreError::Crypto(_))));
    assert!(matches!(PeerPubkey::from_hex("00"), Err(CoreError::Crypto(_))));
    assert!(PeerPubkey::from_bytes(&[1u8; 31]).is_err());

    let kp = StaticKeypair { private: [1u8; 32], public: [2u8; 32] };
    let id = DeviceIdentity::from_parts([7u8; 32], kp);
    let again = DeviceIdentity::from_parts([7u8; 32], id.static_keypair().clone());
    assert_eq!(id.binding_proof(), again.binding_proof());
    assert_ne!(id.public_key(), [7u8; 32]);
    let short = DeviceIdentity::from_keys(&[1u8; 5], id.static_keypair().clone(), &[]);
    assert_eq!(short.err().unwrap().message(), "加密错误: 签名密钥长度必须为 32 字节");
    let bad = DeviceIdentity::from_keys(&[1u8; 32], id.static_keypair().clone(), &[0u8; 3]);
    assert_eq!(
        bad.err().unwrap().message(),
        "加密错误: 无效的绑定证明长度：期望 64 字节，实际 3 字节"
    );
}

#[test]
fn full_handshake() {
    let id1 = DeviceIdentity::generate().unwrap();
    let id2 = DeviceIdentity::generate().unwrap();
    let mut cache = NonceCache::new();
    let mut init =
        NoiseHandshake::initiator(id1.static_keypair().private.as_slice(), TEST_PROLOGUE).unwrap();
    let mut resp =
        NoiseHandshake::responder(id2.static_keypair().private.as_slice(), TEST_PROLOGUE).unwrap();

    let msg1 = init.step(None, &mut cache).unwrap();
    assert!(!msg1.is_empty());
    let msg2 = resp.step(Some(&msg1), &mut cache).unwrap();
    assert!(!msg2.is_empty());
    let msg3 = init.step(Some(&msg2), &mut cache).unwrap();
    assert!(!msg3.is_empty());
    let msg4 = resp.step(Some(&msg3), &mut cache).unwrap();
    assert!(msg4.is_empty());

    assert!(init.is_finished());
    assert!(resp.is_finished());

    let result1 = init.into_transport().unwrap();
    let result2 = resp.into_transport().unwrap();
    assert_eq!(result1.remote_static_pubkey, id2.static_keypair().public);
    assert_eq!(result2.remote_static_pubkey, id1.static_keypair().public);
}

#[test]
fn handshake_messages_hold_keys_tags_and_protection() {
    let mut cache = NonceCache::new();
    let mut init = NoiseHandshake::initiator(&[7; 32], TEST_PROLOGUE).unwrap();
    let mut resp = NoiseHandshake::responder(&[9; 32], TEST_PROLOGUE).unwrap();
    let msg1 = init.step(None, &mut cache).unwrap();
    assert_eq!(msg1.len(), 32 + 24);
    let msg2 = resp.step(Some(&msg1), &mut cache).unwrap();
    assert_eq!(msg2.len(), 96);
    let msg3 = init.step(Some(&msg2), &mut cache).unwrap();
    assert_eq!(msg3.len(), 64);
    assert_eq!(resp.step(Some(&msg3), &mut cache).unwrap(), Vec::<u8>::new());
    // A handshake that has come to its end takes nothing more.
    assert_eq!(init.step(Some(&msg2), &mut cache).unwrap(), Vec::<u8>::new());
    assert!(init.is_finished());
}

#[test]
fn a_refused_answer_leaves_the_initiator_waiting() {
    let mut cache = NonceCache::new();
    let mut init = NoiseHandshake::initiator(&[7; 32], TEST_PROLOGUE).unwrap();
    let mut resp = NoiseHandshake::responder(&[9; 32], TEST_PROLOGUE).unwrap();
    let msg1 = init.step(None, &mut cache).unwrap();
    let msg2 = resp.step(Some(&msg1), &mut cache).unwrap();
    let mut wrong = msg2.clone();
    wrong[95] ^= 1;
    let refused = init.step(Some(&wrong), &mut cache).unwrap_err();
    assert!(refused.message().starts_with("加密错误: read_message 失败: "));
    assert!(!init.is_finished());
}

fn establish_session() -> (Session, Session) {
    let id1 = DeviceIdentity::generate().unwrap();
    let id2 = DeviceIdentity::generate().unwrap();
    let mut cache = NonceCache::new();
    let mut init =
        NoiseHandshake::initiator(id1.static_keypair().private.as_slice(), TEST_PROLOGUE).unwrap();
    let mut resp =
        NoiseHandshake::responder(id2.static_keypair().private.as_slice(), TEST_PROLOGUE).unwrap();
    let msg1 = init.step(None, &mut cache).unwrap();
    let msg2 = resp.step(Some(&msg1), &mut cache).unwrap();
    let msg3 = init.step(Some(&msg2), &mut cache).unwrap();
    let _ = resp.step(Some(&msg3), &mut cache).unwrap();
    let r1 = init.into_transport().unwrap();
    let r2 = resp.into_transport().unwrap();
    (r1.session, r2.session)
}

#[test]
fn encrypt_decrypt_after_handshake() {
    let (mut session1, mut session2) = establish_session();
    let plaintext = b"hello from initiator";
    let ciphertext = session1.encrypt(plaintext).unwrap();
    let decrypted = session2.decrypt(&ciphertext).unwrap();
    assert_eq!(decrypted, plaintext);

    let plaintext2 = b"hello from responder";
    let ciphertext2 = session2.encrypt(plaintext2).unwrap();
    let decrypted2 = session1.decrypt(&ciphertext2).unwrap();
    assert_eq!(decrypted2, plaintext2);
}

#[test]
fn mismatched_prologue_fails_handshake() {
    let id1 = DeviceIdentity::generate().unwrap();
    let id2 = DeviceIdentity::generate().unwrap();
    let mut cache = NonceCache::new();
    let mut init =
        NoiseHandshake::initiator(id1.static_keypair().private.as_slice(), b"group-A").unwrap();
    let mut resp =
        NoiseHandshake::responder(id2.static_keypair().private.as_slice(), b"group-B").unwrap();
    let msg1 = init.step(None, &mut cache).unwrap();
    let msg2 = resp.step(Some(&msg1), &mut cache).unwrap();
    let result = init.step(Some(&msg2), &mut cache);
    assert!(result.is_err(), "不同 prologue 应导致握手在解密阶段失败");
}

#[test]
fn a_first_message_is_taken_once() {
    let id1 = DeviceIdentity::generate().unwrap();
    let id2 = DeviceIdentity::generate().unwrap();
    let mut cache = NonceCache::new();
    let mut init =
        NoiseHandshake::initiator(id1.static_keypair().private.as_slice(), TEST_PROLOGUE).unwrap();
    let msg1 = init.step(None, &mut cache).unwrap();
    let mut first =
        NoiseHandshake::responder(id2.static_keypair().private.as_slice(), TEST_PROLOGUE).unwrap();
    assert!(first.step(Some(&msg1), &mut cache).is_ok());
    let mut second =
        NoiseHandshake::responder(id2.static_keypair().private.as_slice(), TEST_PROLOGUE).unwrap();
    assert!(second.step(Some(&msg1), &mut cache).is_err());
    assert!(!second.is_finished());
    assert!(second.into_transport().is_err());
}

#[test]
fn replay_protection_rejects_expired_timestamp() {
    let mut cache = NonceCache::new();
    let expired = payload_with(now_secs() - 120);
    let result = cache.verify_replay(&expired);
    assert!(result.is_err(), "过期握手应被拒绝");
}

#[test]
fn replay_protection_rejects_future_timestamp() {
    let mut cache = NonceCache::new();
    let future = payload_with(now_secs() + 120);
    let result = cache.verify_replay(&future);
    assert!(result.is_err(), "超前握手应被拒绝");
}

#[test]
fn replay_protection_rejects_duplicate_nonce() {
    let mut cache = NonceCache::new();
    let payload = payload_with(now_secs());
    let result1 = cache.verify_replay(&payload);
    assert!(result1.is_ok(), "首次验证应通过");
    let result2 = cache.verify_replay(&payload);
    assert!(result2.is_err(), "重复 nonce 应被拒绝");
}

#[test]
fn replay_protection_accepts_fresh_payload() {
    let mut cache = NonceCache::new();
    let payload = payload_with(now_secs());
    let result = cache.verify_replay(&payload);
    assert!(result.is_ok(), "新鲜 payload 应通过验证");
}

#[test]
fn replay_protection_rejects_empty_payload() {
    let mut cache = NonceCache::new();
    let result = cache.verify_replay(&[]);
    assert!(result.is_err(), "空 payload 应被拒绝");
}

#[test]
fn nonce_cache_independent_across_instances() {
    let mut cache1 = NonceCache::new();
    let mut cache2 = NonceCache::new();
    let payload = payload_with(now_secs());
    assert!(cache1.verify_replay(&payload).is_ok());
    assert!(cache2.verify_replay(&payload).is_ok(), "不同 NonceCache 实例应独立");
}

#[test]
fn replay_window_at_its_edges() {
    let now = 1_000_000;
    let mut cache = NonceCache::new();
    assert!(cache.verify_replay_at(&replay_payload_at(now - 60, &[1; 16]), now).is_ok());
    assert!(cache.verify_replay_at(&replay_payload_at(now - 61, &[2; 16]), now).is_err());
    assert!(cache.verify_replay_at(&replay_payload_at(now + 60, &[3; 16]), now).is_ok());
    assert!(cache.verify_replay_at(&replay_payload_at(now + 61, &[4; 16]), now).is_err());
    assert!(cache.verify_replay_at(&replay_payload_at(now - 60, &[1; 16]), now).is_err());
    let payload = replay_payload_at(1, &[9; 16]);
    assert_eq!(&payload[..8], &[0, 0, 0, 0, 0, 0, 0, 1]);
    assert_eq!(&payload[8..], &[9; 16]);
    let a = generate_replay_payload();
    let b = generate_replay_payload();
    assert_eq!(a.len(), REPLAY_PAYLOAD_LEN);
    assert_ne!(a, b);
}

#[test]
fn in_memory_store_load_delete() {
    let mut storage = InMemoryStorage::new();
    storage.store_secret("test-key", b"secret-value").unwrap();
    let loaded = storage.load_secret("test-key").unwrap();
    assert_eq!(loaded, Some(b"secret-value".to_vec()));
    let missing = storage.load_secret("nonexistent").unwrap();
    assert_eq!(missing, None);
    storage.delete_secret("test-key").unwrap();
    let after_delete = storage.load_secret("test-key").unwrap();
    assert_eq!(after_delete, None);
    storage.delete_secret("nonexistent").unwrap();
}

#[test]
fn identity_serialize_deserialize_roundtrip() {
    let identity = DeviceIdentity::generate().unwrap();
    let serialized = serialize_identity(&identity);
    assert_eq!(serialized.as_slice().len(), 160);
    let deserialized =
        deserialize_identity(Secret::new(serialized.as_slice().to_vec())).unwrap();
    assert_eq!(identity.public_key(), deserialized.public_key());
    assert_eq!(identity.static_keypair().public, deserialized.static_keypair().public);
    assert_eq!(identity.binding_proof(), deserialized.binding_proof());
}

#[test]
fn identity_storage_roundtrip() {
    let mut storage = InMemoryStorage::new();
    let identity = DeviceIdentity::generate().unwrap();
    let peer_id = identity.peer_id();
    let key = format!("identity:{}", peer_id.as_str());
    let serialized = serialize_identity(&identity);
    storage.store_secret(&key, serialized.as_slice()).unwrap();
    let loaded = storage.load_secret(&key).unwrap().unwrap();
    let restored = deserialize_identity(Secret::new(loaded)).unwrap();
    assert_eq!(identity.public_key(), restored.public_key());
    assert_eq!(peer_id, restored.peer_id());
}

#[test]
fn deserialize_wrong_length_errors() {
    let result = deserialize_identity(Secret::new(vec![0u8; 100]));
    assert!(result.is_err());
}

struct PlatformStore {
    entry: RefCell<Option<(String, Vec<u8>)>>,
    broken: bool,
}

impl ForeignSecretStorage for PlatformStore {
    fn store_secret(&self, key: String, value: Vec<u8>) -> Result<(), TacitFfiError> {
        if self.broken {
            return Err(TacitFfiError::Io("locked".into()));
        }
        *self.entry.borrow_mut() = Some((key, value));
        Ok(())
    }

    fn load_secret(&self, key: String) -> Result<Option<Vec<u8>>, TacitFfiError> {
        if self.broken {
            return Err(TacitFfiError::Io("locked".into()));
        }
        match &*self.entry.borrow() {
            Some((k, v)) if *k == key => Ok(Some(v.clone())),
            _ => Ok(None),
        }
    }

    fn delete_secret(&self, key: String) -> Result<(), TacitFfiError> {
        if self.broken {
            return Err(TacitFfiError::Io("locked".into()));
        }
        let mut entry = self.entry.borrow_mut();
        if matches!(&*entry, Some((k, _)) if *k == key) {
            *entry = None;
        }
        Ok(())
    }
}

#[test]
fn platform_store_is_used_and_its_errors_are_passed_on() {
    let mut store = ForeignSecretStorageAdapter::new(PlatformStore { entry: RefCell::new(None), broken: false });
    store.store_secret("k", b"v").unwrap();
    assert_eq!(store.load_secret("k").unwrap(), Some(b"v".to_vec()));
    store.delete_secret("k").unwrap();
    assert_eq!(store.load_secret("k").unwrap(), None);

    let mut broken = ForeignSecretStorageAdapter::new(PlatformStore { entry: RefCell::new(None), broken: true });
    let text = "加密错误: ForeignSecretStorage: IO 错误: locked";
    assert_eq!(broken.store_secret("k", b"v").unwrap_err().message(), text);
    assert_eq!(broken.load_secret("k").unwrap_err().message(), text);
    assert_eq!(broken.delete_secret("k").unwrap_err().message(), text);
}

#[test]
fn round_trip() {
    let (mut s1, mut s2) = establish_session();
    let msg = b"secret message";
    let ct = s1.encrypt(msg).unwrap();
    assert_ne!(ct, msg);
    let pt = s2.decrypt(&ct).unwrap();
    assert_eq!(pt, msg);
}

#[test]
fn bidirectional() {
    let (mut s1, mut s2) = establish_session();
    let ct1 = s1.encrypt(b"one").unwrap();
    assert_eq!(s2.decrypt(&ct1).unwrap(), b"one");
    let ct2 = s2.encrypt(b"two").unwrap();
    assert_eq!(s1.decrypt(&ct2).unwrap(), b"two");
}

#[test]
fn decrypt_rejects_tampered() {
    let (mut s1, mut s2) = establish_session();
    let mut ct = s1.encrypt(b"original").unwrap();
    if !ct.is_empty() {
        ct[0] ^= 0xff;
    }
    assert!(s2.decrypt(&ct).is_err());
}

#[test]
fn manual_rekey_preserves_communication() {
    let (mut s1, mut s2) = establish_session();
    let ct = s1.encrypt(b"before rekey").unwrap();
    assert_eq!(s2.decrypt(&ct).unwrap(), b"before rekey");

    s1.rekey().unwrap();
    s2.rekey().unwrap();

    let ct = s1.encrypt(b"after rekey").unwrap();
    assert_eq!(s2.decrypt(&ct).unwrap(), b"after rekey");
    let ct = s2.encrypt(b"reverse after rekey").unwrap();
    assert_eq!(s1.decrypt(&ct).unwrap(), b"reverse after rekey");

    assert_eq!(s1.encrypt_count(), 1);
    assert_eq!(s2.decrypt_count(), 1);
}

#[test]
fn explicit_rekey_coordination() {
    let (mut s1, mut s2) = establish_session();
    s1.set_rekey_threshold(3);
    s2.set_rekey_threshold(3);
    for i in 0..3 {
        let msg = format!("msg-{i}");
        let ct = s1.encrypt(msg.as_bytes()).unwrap();
        assert_eq!(s2.decrypt(&ct).unwrap(), msg.as_bytes());
    }
    assert!(s1.outgoing_rekey_pending());
    assert!(s2.incoming_rekey_pending());

    s1.rekey_outgoing();
    s2.rekey_incoming();
    assert!(!s1.outgoing_rekey_pending());
    assert!(!s2.incoming_rekey_pending());

    let ct = s1.encrypt(b"post-rekey").unwrap();
    assert_eq!(s2.decrypt(&ct).unwrap(), b"post-rekey");
}

#[test]
fn one_sided_rekey_is_noticed() {
    let (mut s1, mut s2) = establish_session();
    s1.rekey_outgoing();
    let ct = s1.encrypt(b"new key").unwrap();
    assert!(s2.decrypt(&ct).is_err());
}

#[test]
fn no_implicit_rekey_on_encrypt_or_decrypt() {
    let (mut s1, mut s2) = establish_session();
    s1.set_rekey_threshold(2);
    s2.set_rekey_threshold(2);
    for i in 0..3 {
        let ct = s1.encrypt(format!("msg-{i}").as_bytes()).unwrap();
        assert_eq!(s2.decrypt(&ct).unwrap(), format!("msg-{i}").as_bytes());
    }
    assert!(s1.outgoing_rekey_pending());
    assert!(s2.incoming_rekey_pending());
    assert_eq!(s1.encrypt_count(), 3);
    assert_eq!(s2.decrypt_count(), 3);

    let ct = s1.encrypt(b"msg-3").unwrap();
    assert_eq!(s2.decrypt(&ct).unwrap(), b"msg-3");
}

#[test]
fn failed_decrypt_does_not_increment_count() {
    let (mut s1, mut s2) = establish_session();
    s2.set_rekey_threshold(2);
    let ct = s1.encrypt(b"msg-1").unwrap();
    assert_eq!(s2.decrypt(&ct).unwrap(), b"msg-1");
    assert_eq!(s2.decrypt_count(), 1);
    let mut bad_ct = s1.encrypt(b"msg-2").unwrap();
    bad_ct[0] ^= 0xff;
    assert!(s2.decrypt(&bad_ct).is_err());
    assert_eq!(s2.decrypt_count(), 1, "解密失败不递增计数器");
}

#[test]
fn rekey_counter_tracks_correctly() {
    let (mut s1, s2) = establish_session();
    assert_eq!(s1.encrypt_count(), 0);
    assert_eq!(s2.decrypt_count(), 0);
    s1.encrypt(b"a").unwrap();
    s1.encrypt(b"b").unwrap();
    assert_eq!(s1.encrypt_count(), 2);
    assert_eq!(s2.decrypt_count(), 0);
}

#[test]
fn sign_and_verify() {
    let id = DeviceIdentity::generate().unwrap();
    let msg = b"hello tacit";
    let sig = sign(&id, msg);
    let pubkey = id.public_key();
    assert!(verify(msg, &sig, &pubkey).is_ok());
}

#[test]
fn verify_rejects_tampered() {
    let id = DeviceIdentity::generate().unwrap();
    let msg = b"hello tacit";
    let sig = sign(&id, msg);
    let pubkey = id.public_key();
    assert!(verify(b"hello evil", &sig, &pubkey).is_err());
}

#[test]
fn verify_rejects_wrong_key() {
    let id1 = DeviceIdentity::generate().unwrap();
    let id2 = DeviceIdentity::generate().unwrap();
    let msg = b"hello tacit";
    let sig = sign(&id1, msg);
    assert!(verify(msg, &sig, &id2.public_key()).is_err());
}

#[test]
fn first_message_carries_the_protection_in_the_clear() {
    let id = DeviceIdentity::generate().unwrap();
    let key = id.static_keypair().private;
    let mut cache = NonceCache::new();
    let mut init = NoiseHandshake::initiator(&key, TEST_PROLOGUE).unwrap();
    let msg1 = init.step(None, &mut cache).unwrap();
    assert_eq!(msg1.len(), 32 + REPLAY_PAYLOAD_LEN);
    let stamp = u64::from_be_bytes(msg1[32..40].try_into().unwrap());
    assert!(now_secs().abs_diff(stamp) <= 2);

    let mut resp = NoiseHandshake::responder(&key, TEST_PROLOGUE).unwrap();
    assert!(resp.step(Some(&msg1), &mut cache).is_ok());
    let mut again = NoiseHandshake::responder(&key, TEST_PROLOGUE).unwrap();
    let e = again.step(Some(&msg1), &mut cache).unwrap_err();
    assert!(e.message().contains("握手 nonce 重复"));
}

#[test]
fn handshake_refuses_bad_messages() {
    let id = DeviceIdentity::generate().unwrap();
    let key = id.static_keypair().private;
    let mut cache = NonceCache::new();
    let mut resp = NoiseHandshake::responder(&key, TEST_PROLOGUE).unwrap();
    assert_eq!(
        resp.step(None, &mut cache).unwrap_err().message(),
        "加密错误: responder step 0 需要收到消息"
    );
    assert!(resp.step(Some(&[1, 2, 3]), &mut cache).unwrap_err().message().contains("read_message 失败: "));
    let e = resp.step(Some(&[5u8; 32]), &mut cache).unwrap_err();
    assert_eq!(e.message(), "加密错误: 握手 payload 为空，拒绝无重放保护的握手");
    assert!(!resp.is_finished());
    assert!(matches!(resp.into_transport(), Err(CoreError::Crypto(m)) if m == "握手未完成"));
}

#[test]
fn oversized_messages_are_refused() {
    let (mut s1, mut s2) = establish_session();
    assert_eq!(s1.encrypt(&vec![0u8; 65519]).unwrap().len(), 65535);
    assert_eq!(s1.encrypt_count(), 1);
    let e = s1.encrypt(&vec![0u8; 65520]).unwrap_err();
    assert!(e.message().contains("加密失败: "));
    assert_eq!(s1.encrypt_count(), 1);
    assert!(s2.decrypt(&[0u8; 15]).unwrap_err().message().contains("解密失败: "));
    assert_eq!(s2.decrypt_count(), 0);
}
