//! Pairing two devices face to face.
//!
//! The initiator shows a code that the responder scans. Both derive a short number from what the
//! code says; the users compare the numbers and confirm. Whoever puts another code in between
//! makes the numbers differ.

use vstd::prelude::*;
use vstd::string::*;
use vstd::utf8::*;

use crate::clock::{clock_told, now_millis};
use crate::digest::{
    hex_bytes, hex_decode, hex_encode, hmac_sha256, hmac_sha256_code, is_hex, law_hex_roundtrip,
};
use crate::error::{crypto_error, crypto_refusal, is_crypto_error, CoreError, CoreResult};
use crate::json::{
    has_member, json_fault, json_int, json_int_at, json_quote, json_text, json_text_at, json_texts,
    json_texts_at, names_differ, object_begin, object_end, object_member, object_text, text_views,
    texts_notation, Json,
};
use crate::octets::{append_bytes, be_value, copy_range, lemma_pow256_values, read_be};
use crate::text::{decimal, decimal_signed_string, hex_chars, push_decimal};

verus! {

/// The length of an Ed25519 public key.
pub const ED25519_PUBKEY_LEN: usize = 32;

/// The length of a binding salt.
pub const BINDING_SALT_LEN: usize = 16;

/// The short number is below this.
pub const SAS_MODULUS: u32 = 10000;

/// For how many seconds a code is good, either way.
pub const MAX_PAIRING_AGE_SECS: i64 = 300;

/// What the scanned code says.
#[derive(Debug, PartialEq, Eq)]
pub struct PairingPayload {
    pub group_id: String,
    pub initiator_pubkey: Vec<u8>,
    pub binding_salt: Vec<u8>,
    /// Hints on how to reach the initiator.
    pub bootstrap_hints: Vec<String>,
    /// When the code was made, in milliseconds since the Unix epoch.
    pub timestamp: i64,
}

/// What a payload holds.
#[verifier::ext_equal]
pub struct PairingView {
    pub group_id: Seq<char>,
    pub initiator_pubkey: Seq<u8>,
    pub binding_salt: Seq<u8>,
    pub bootstrap_hints: Seq<Seq<char>>,
    pub timestamp: i64,
}

impl View for PairingPayload {
    type V = PairingView;

    open spec fn view(&self) -> PairingView {
        PairingView {
            group_id: self.group_id@,
            initiator_pubkey: self.initiator_pubkey@,
            binding_salt: self.binding_salt@,
            bootstrap_hints: text_views(self.bootstrap_hints@),
            timestamp: self.timestamp,
        }
    }
}

/// What is wrong with the lengths of a payload's key and salt, in words.
pub open spec fn length_error(pubkey: Seq<u8>, salt: Seq<u8>) -> Option<Seq<char>> {
    if pubkey.len() != 32 {
        Some("initiator_pubkey 长度必须为 32 字节，实际 "@ + decimal(pubkey.len()))
    } else if salt.len() != 16 {
        Some("binding_salt 长度必须为 16 字节，实际 "@ + decimal(salt.len()))
    } else {
        None
    }
}

/// The members of the object that a code holds.
pub open spec fn qr_members(p: PairingView) -> Seq<(Seq<char>, Json)> {
    seq![
        ("group_id"@, Json::Text(p.group_id)),
        ("initiator_pubkey"@, Json::Text(hex_chars(p.initiator_pubkey))),
        ("binding_salt"@, Json::Text(hex_chars(p.binding_salt))),
        ("bootstrap_hints"@, Json::Texts(p.bootstrap_hints)),
        ("timestamp"@, Json::Int(p.timestamp as int)),
    ]
}

/// The text that a code holds.
pub open spec fn qr_text(p: PairingView) -> Seq<char> {
    object_text(qr_members(p))
}

/// What a code's text says, where it says anything.
pub open spec fn qr_fields(json: Seq<char>) -> Option<PairingView> {
    match (
        json_text_at(json, "group_id"@),
        json_text_at(json, "initiator_pubkey"@),
        json_text_at(json, "binding_salt"@),
        json_texts_at(json, "bootstrap_hints"@),
        json_int_at(json, "timestamp"@),
    ) {
        (Some(group_id), Some(key), Some(salt), Some(bootstrap_hints), Some(timestamp)) => {
            if is_hex(key) && is_hex(salt) {
                Some(
                    PairingView {
                        group_id,
                        initiator_pubkey: hex_bytes(key),
                        binding_salt: hex_bytes(salt),
                        bootstrap_hints,
                        timestamp,
                    },
                )
            } else {
                None
            }
        },
        _ => None,
    }
}

proof fn lemma_qr_names(p: PairingView)
    ensures
        names_differ(qr_members(p)),
        has_member(qr_members(p), "group_id"@, Json::Text(p.group_id)),
        has_member(qr_members(p), "initiator_pubkey"@, Json::Text(hex_chars(p.initiator_pubkey))),
        has_member(qr_members(p), "binding_salt"@, Json::Text(hex_chars(p.binding_salt))),
        has_member(qr_members(p), "bootstrap_hints"@, Json::Texts(p.bootstrap_hints)),
        has_member(qr_members(p), "timestamp"@, Json::Int(p.timestamp as int)),
{
    reveal_strlit("group_id");
    reveal_strlit("initiator_pubkey");
    reveal_strlit("binding_salt");
    reveal_strlit("bootstrap_hints");
    reveal_strlit("timestamp");
    let m = qr_members(p);
    assert(m[0].0.len() == 8 && m[1].0.len() == 16 && m[2].0.len() == 12 && m[3].0.len() == 15
        && m[4].0.len() == 9);
    assert(m.contains(m[0]) && m.contains(m[1]) && m.contains(m[2]) && m.contains(m[3])
        && m.contains(m[4]));
}

fn length_fault(pubkey: &Vec<u8>, salt: &Vec<u8>) -> (r: Option<CoreError>)
    ensures
        match r {
            Some(e) => length_error(pubkey@, salt@) matches Some(m) && is_crypto_error(e, m),
            None => length_error(pubkey@, salt@) is None,
        },
{
    if pubkey.len() != ED25519_PUBKEY_LEN {
        let mut m = "initiator_pubkey 长度必须为 32 字节，实际 ".to_owned();
        push_decimal(&mut m, pubkey.len() as u64);
        return Some(CoreError::Crypto(m));
    }
    if salt.len() != BINDING_SALT_LEN {
        let mut m = "binding_salt 长度必须为 16 字节，实际 ".to_owned();
        push_decimal(&mut m, salt.len() as u64);
        return Some(CoreError::Crypto(m));
    }
    None
}

/// The error for a text that says nothing.
fn unreadable(json: &str) -> (r: CoreError)
    ensures
        crypto_refusal(r, "PairingPayload 反序列化失败: "@),
{
    let why = match json_fault(json) {
        Some(w) => w,
        None => "missing or invalid field".to_owned(),
    };
    crypto_error("PairingPayload 反序列化失败: ", why.as_str())
}

impl PairingPayload {
    /// A payload. Key and salt must have their lengths.
    pub fn new(
        group_id: String,
        initiator_pubkey: Vec<u8>,
        binding_salt: Vec<u8>,
        bootstrap_hints: Vec<String>,
        timestamp: i64,
    ) -> (r: CoreResult<Self>)
        ensures
            match r {
                Ok(p) => length_error(initiator_pubkey@, binding_salt@) is None && p == (
                PairingPayload {
                    group_id,
                    initiator_pubkey,
                    binding_salt,
                    bootstrap_hints,
                    timestamp,
                }),
                Err(e) => length_error(initiator_pubkey@, binding_salt@) matches Some(m)
                    && is_crypto_error(e, m),
            },
    {
        match length_fault(&initiator_pubkey, &binding_salt) {
            Some(e) => Err(e),
            None => Ok(
                PairingPayload {
                    group_id,
                    initiator_pubkey,
                    binding_salt,
                    bootstrap_hints,
                    timestamp,
                },
            ),
        }
    }

    /// The text of the code: a JSON object, with key and salt in hexadecimal.
    pub fn to_qr_json(&self) -> (r: CoreResult<String>)
        ensures
            r matches Ok(s) && s@ == qr_text(self@),
    {
        let ghost m = qr_members(self@);
        let mut out = object_begin();
        let group = json_quote(self.group_id.as_str());
        let key_hex = hex_encode(self.initiator_pubkey.as_slice());
        let key = json_quote(key_hex.as_str());
        let salt_hex = hex_encode(self.binding_salt.as_slice());
        let salt = json_quote(salt_hex.as_str());
        let hints = texts_notation(&self.bootstrap_hints);
        let time = decimal_signed_string(self.timestamp);
        proof {
            assert(m.take(0) =~= Seq::<(Seq<char>, Json)>::empty());
            assert(m.take(1) =~= m.take(0).push(m[0]));
            assert(m.take(2) =~= m.take(1).push(m[1]));
            assert(m.take(3) =~= m.take(2).push(m[2]));
            assert(m.take(4) =~= m.take(3).push(m[3]));
            assert(m =~= m.take(4).push(m[4]));
        }
        object_member(
            &mut out,
            true,
            "group_id",
            group.as_str(),
            Ghost(m.take(0)),
            Ghost(m[0].1),
        );
        object_member(
            &mut out,
            false,
            "initiator_pubkey",
            key.as_str(),
            Ghost(m.take(1)),
            Ghost(m[1].1),
        );
        object_member(
            &mut out,
            false,
            "binding_salt",
            salt.as_str(),
            Ghost(m.take(2)),
            Ghost(m[2].1),
        );
        object_member(
            &mut out,
            false,
            "bootstrap_hints",
            hints.as_str(),
            Ghost(m.take(3)),
            Ghost(m[3].1),
        );
        object_member(
            &mut out,
            false,
            "timestamp",
            time.as_str(),
            Ghost(m.take(4)),
            Ghost(m[4].1),
        );
        object_end(&mut out, Ghost(m));
        Ok(out)
    }

    /// What the text of a code says. The text that a payload was written as reads back.
    pub fn from_qr_json(json: &str) -> (r: CoreResult<Self>)
        ensures
            match r {
                Ok(p) => qr_fields(json@) == Some(p@) && length_error(
                    p.initiator_pubkey@,
                    p.binding_salt@,
                ) is None,
                Err(e) => match qr_fields(json@) {
                    Some(v) => length_error(v.initiator_pubkey, v.binding_salt) matches Some(m)
                        && is_crypto_error(e, m),
                    None => crypto_refusal(e, "PairingPayload 反序列化失败: "@),
                },
            },
            forall|w: PairingView|
                json@ == #[trigger] qr_text(w) && length_error(w.initiator_pubkey, w.binding_salt)
                    is None ==> (r matches Ok(p) && p@ == w),
    {
        let group_id = json_text(json, "group_id");
        let key = json_text(json, "initiator_pubkey");
        let salt = json_text(json, "binding_salt");
        let hints = json_texts(json, "bootstrap_hints");
        let time = json_int(json, "timestamp");
        proof {
            assert forall|v: PairingView| json@ == #[trigger] qr_text(v) implies qr_fields(json@)
                == Some(v) by {
                lemma_qr_names(v);
                assert(json@ == object_text(qr_members(v)));
                law_hex_roundtrip(v.initiator_pubkey);
                law_hex_roundtrip(v.binding_salt);
                assert(qr_fields(json@)->0 =~= v);
            }
        }
        match (group_id, key, salt, hints, time) {
            (
                Some(group_id),
                Some(key),
                Some(salt),
                Some(bootstrap_hints),
                Some(timestamp),
            ) => match (hex_decode(key.as_str()), hex_decode(salt.as_str())) {
                (Ok(initiator_pubkey), Ok(binding_salt)) => PairingPayload::new(
                    group_id,
                    initiator_pubkey,
                    binding_salt,
                    bootstrap_hints,
                    timestamp,
                ),
                _ => Err(unreadable(json)),
            },
            _ => Err(unreadable(json)),
        }
    }
}

/// The message that the binding digest authenticates.
pub open spec fn binding_input(group_id: Seq<char>, initiator_pubkey: Seq<u8>) -> Seq<u8> {
    encode_utf8(group_id) + initiator_pubkey
}

/// The digest that binds group and key to a salt: HMAC-SHA-256 with the salt as key.
pub open spec fn binding_digest_of(
    group_id: Seq<char>,
    initiator_pubkey: Seq<u8>,
    binding_salt: Seq<u8>,
) -> Seq<u8> {
    hmac_sha256_code(binding_salt, binding_input(group_id, initiator_pubkey))
}

/// The digest that binds group and key to a salt.
pub fn compute_binding_digest(
    group_id: &str,
    initiator_pubkey: &[u8],
    binding_salt: &[u8],
) -> (r: [u8; 32])
    ensures
        r@ == binding_digest_of(group_id@, initiator_pubkey@, binding_salt@),
{
    let mut msg: Vec<u8> = Vec::new();
    append_bytes(&mut msg, group_id.as_bytes());
    append_bytes(&mut msg, initiator_pubkey);
    assert(msg@ =~= binding_input(group_id@, initiator_pubkey@));
    hmac_sha256(binding_salt, msg.as_slice())
}

/// The short number of a digest: its first four bytes, modulo ten thousand.
pub open spec fn sas_of(digest: Seq<u8>) -> nat {
    be_value(digest.subrange(0, 4)) % 10000
}

/// The short number of a digest.
pub fn derive_sas_code(binding_digest: &[u8; 32]) -> (r: u32)
    ensures
        r == sas_of(binding_digest@),
        r < 10000,
{
    proof {
        lemma_pow256_values();
    }
    let raw: u32 = read_be(binding_digest.as_slice(), 0, 4) as u32;
    raw % SAS_MODULUS
}

/// A number below ten thousand in decimal, with zeros in front up to four digits.
pub open spec fn padded(n: nat) -> Seq<char> {
    if n < 10 {
        "000"@ + decimal(n)
    } else if n < 100 {
        "00"@ + decimal(n)
    } else if n < 1000 {
        "0"@ + decimal(n)
    } else {
        decimal(n)
    }
}

/// A short number as it is shown: its last four digits.
pub open spec fn sas_text(sas: u32) -> Seq<char> {
    padded((sas % 10000) as nat)
}

/// A short number as it is shown, with exactly four digits. Short numbers are below ten thousand;
/// of any other the last four digits are shown.
pub fn format_sas_code(sas: u32) -> (r: String)
    ensures
        r@ == sas_text(sas),
        r@.len() == 4,
        forall|i: int| 0 <= i < 4 ==> '0' <= #[trigger] r@[i] <= '9',
        sas < 10000 ==> r@ == padded(sas as nat),
{
    let sas: u32 = sas % SAS_MODULUS;
    proof {
        law_sas_has_four_digits(sas);
    }
    let mut out = if sas < 10 {
        "000".to_owned()
    } else if sas < 100 {
        "00".to_owned()
    } else if sas < 1000 {
        "0".to_owned()
    } else {
        String::new()
    };
    push_decimal(&mut out, sas as u64);
    assert(out@ =~= padded(sas as nat));
    out
}

/// A short number, whichever it is, is shown with exactly four digits.
pub proof fn law_sas_has_four_digits(sas: u32)
    ensures
        sas_text(sas).len() == 4,
        forall|i: int| 0 <= i < 4 ==> '0' <= #[trigger] sas_text(sas)[i] <= '9',
{
    let n = (sas % 10000) as nat;
    reveal_strlit("000");
    reveal_strlit("00");
    reveal_strlit("0");
    reveal_with_fuel(decimal, 4);
}

/// Compares two numbers in constant time.
///
/// Calls `subtle::ConstantTimeEq::ct_eq`, which tells whether they are equal.
#[verifier::external_body]
fn same_number(a: u32, b: u32) -> (r: bool)
    ensures
        r == (a == b),
{
    subtle::ConstantTimeEq::ct_eq(&a, &b).into()
}

/// What is said where two short numbers differ.
pub open spec fn sas_mismatch_text(local: u32, remote: u32) -> Seq<char> {
    "SAS 短码不匹配：本地 "@ + sas_text(local) + "，对端 "@ + sas_text(remote)
}

/// Compares the short numbers of both sides.
pub fn confirm_sas_code(local: u32, remote: u32) -> (r: CoreResult<()>)
    ensures
        match r {
            Ok(()) => local == remote,
            Err(e) => local != remote && is_crypto_error(e, sas_mismatch_text(local, remote)),
        },
{
    if same_number(local, remote) {
        return Ok(());
    }
    let mut m = "SAS 短码不匹配：本地 ".to_owned();
    let a = format_sas_code(local);
    m.append(a.as_str());
    m.append("，对端 ");
    let b = format_sas_code(remote);
    m.append(b.as_str());
    Err(CoreError::Crypto(m))
}

/// Which side a device is.
#[derive(Debug, Clone, Copy, PartialEq, Eq, Structural)]
pub enum PairingRole {
    /// Shows the code.
    Initiator,
    /// Scans the code.
    Responder,
}

/// Whether a payload is well formed and fresh at `now`.
pub open spec fn payload_valid(p: PairingView, now: i64) -> bool {
    &&& p.initiator_pubkey.len() == 32
    &&& p.binding_salt.len() == 16
    &&& p.group_id.len() > 0
    &&& -300_000 <= now - p.timestamp <= 300_000
}

/// Whether a payload is well formed and, at `now`, at most 300 seconds off.
pub fn validate_payload_structure_at(payload: &PairingPayload, now: i64) -> (r: bool)
    ensures
        r == payload_valid(payload@, now),
{
    if payload.initiator_pubkey.len() != ED25519_PUBKEY_LEN {
        return false;
    }
    if payload.binding_salt.len() != BINDING_SALT_LEN {
        return false;
    }
    if payload.group_id.as_str().is_empty() {
        return false;
    }
    let age: i128 = now as i128 - payload.timestamp as i128;
    let magnitude: i128 = if age < 0 {
        -age
    } else {
        age
    };
    magnitude <= MAX_PAIRING_AGE_SECS as i128 * 1000
}

/// Whether a payload is well formed and fresh.
pub fn validate_payload_structure(payload: &PairingPayload) -> (r: bool)
    ensures
        exists|now: i64| #[trigger] clock_told(now) && r == payload_valid(payload@, now),
{
    let now: i64 = now_millis();
    validate_payload_structure_at(payload, now)
}

/// A new salt.
///
/// Calls `rand::RngCore::fill_bytes` of `rand::rngs::OsRng`. Nothing is promised of the bytes,
/// which rest on chance.
#[verifier::external_body]
pub fn generate_binding_salt() -> [u8; 16] {
    let mut salt = [0u8; 16];
    rand::RngCore::fill_bytes(&mut rand::rngs::OsRng, &mut salt);
    salt
}

/// Whether a salt was drawn at random.
pub open spec fn drawn_salt(salt: [u8; 16]) -> bool {
    call_ensures(generate_binding_salt, (), salt)
}

/// A pairing under way.
pub struct PairingSession {
    role: PairingRole,
    group_id: String,
    initiator_pubkey: Vec<u8>,
    binding_salt: Vec<u8>,
    binding_digest: [u8; 32],
    sas_code: u32,
    confirmed: bool,
    bootstrap_hints: Vec<String>,
}

/// What a pairing holds.
#[verifier::ext_equal]
pub struct PairingState {
    pub role: PairingRole,
    pub group_id: Seq<char>,
    pub initiator_pubkey: Seq<u8>,
    pub binding_salt: Seq<u8>,
    pub bootstrap_hints: Seq<Seq<char>>,
    pub confirmed: bool,
}

impl View for PairingSession {
    type V = PairingState;

    closed spec fn view(&self) -> PairingState {
        PairingState {
            role: self.role,
            group_id: self.group_id@,
            initiator_pubkey: self.initiator_pubkey@,
            binding_salt: self.binding_salt@,
            bootstrap_hints: text_views(self.bootstrap_hints@),
            confirmed: self.confirmed,
        }
    }
}

/// The digest of a pairing.
pub open spec fn digest_of(s: PairingState) -> Seq<u8> {
    binding_digest_of(s.group_id, s.initiator_pubkey, s.binding_salt)
}

/// The payload of a pairing at `now`.
pub open spec fn payload_of(s: PairingState, now: i64) -> PairingView {
    PairingView {
        group_id: s.group_id,
        initiator_pubkey: s.initiator_pubkey,
        binding_salt: s.binding_salt,
        bootstrap_hints: s.bootstrap_hints,
        timestamp: now,
    }
}

/// The pairing of whoever scanned a payload.
pub open spec fn scanned(p: PairingView) -> PairingState {
    PairingState {
        role: PairingRole::Responder,
        group_id: p.group_id,
        initiator_pubkey: p.initiator_pubkey,
        binding_salt: p.binding_salt,
        bootstrap_hints: p.bootstrap_hints,
        confirmed: false,
    }
}

fn clone_texts(v: &Vec<String>) -> (r: Vec<String>)
    ensures
        text_views(r@) == text_views(v@),
{
    let mut out: Vec<String> = Vec::new();
    let mut i: usize = 0;
    while i < v.len()
        invariant
            i <= v@.len(),
            out@.len() == i,
            forall|j: int| 0 <= j < i ==> (#[trigger] out@[j])@ == v@[j]@,
        decreases v@.len() - i,
    {
        out.push(v[i].clone());
        i = i + 1;
    }
    assert(text_views(out@) =~= text_views(v@));
    out
}

/// Whether `r` begins the pairing of a code, where the text is that of a code which is valid at
/// `now`.
pub open spec fn accepts_codes(json: Seq<char>, now: i64, r: CoreResult<PairingSession>) -> bool {
    forall|v: PairingView|
        json == #[trigger] qr_text(v) && payload_valid(v, now) ==> (r matches Ok(s) && s@
            == scanned(v))
}

/// Whether `r` answers the text of a code that was scanned at `now`.
pub open spec fn answers_scan(json: Seq<char>, now: i64, r: CoreResult<PairingSession>) -> bool {
    match r {
        Ok(s) => s.wf() && (qr_fields(json) matches Some(v) && payload_valid(v, now) && s@
            == scanned(v)),
        Err(e) => match qr_fields(json) {
            None => crypto_refusal(e, "PairingPayload 反序列化失败: "@),
            Some(v) => !payload_valid(v, now) && match length_error(
                v.initiator_pubkey,
                v.binding_salt,
            ) {
                Some(m) => is_crypto_error(e, m),
                None => is_crypto_error(e, "配对 payload 校验失败：已过期或字段不合法"@),
            },
        },
    }
}

impl PairingSession {
    /// Digest and short number are those of what the pairing holds.
    pub closed spec fn wf(&self) -> bool {
        &&& self.binding_digest@ == digest_of(self@)
        &&& self.sas_code == sas_of(digest_of(self@))
    }

    fn make(
        role: PairingRole,
        group_id: String,
        initiator_pubkey: Vec<u8>,
        binding_salt: Vec<u8>,
        bootstrap_hints: Vec<String>,
    ) -> (r: Self)
        ensures
            r.wf(),
            r@ == (PairingState {
                role,
                group_id: group_id@,
                initiator_pubkey: initiator_pubkey@,
                binding_salt: binding_salt@,
                bootstrap_hints: text_views(bootstrap_hints@),
                confirmed: false,
            }),
    {
        let binding_digest = compute_binding_digest(
            group_id.as_str(),
            initiator_pubkey.as_slice(),
            binding_salt.as_slice(),
        );
        let sas_code: u32 = derive_sas_code(&binding_digest);
        PairingSession {
            role,
            group_id,
            initiator_pubkey,
            binding_salt,
            binding_digest,
            sas_code,
            confirmed: false,
            bootstrap_hints,
        }
    }

    /// Begins a pairing as initiator, with a given salt.
    pub fn initiator_with_salt(
        group_id: String,
        initiator_pubkey: Vec<u8>,
        bootstrap_hints: Vec<String>,
        salt: [u8; 16],
    ) -> (r: Self)
        ensures
            r.wf(),
            r@ == (PairingState {
                role: PairingRole::Initiator,
                group_id: group_id@,
                initiator_pubkey: initiator_pubkey@,
                binding_salt: salt@,
                bootstrap_hints: text_views(bootstrap_hints@),
                confirmed: false,
            }),
    {
        let binding_salt = copy_range(salt.as_slice(), 0, 16);
        assert(binding_salt@ =~= salt@);
        PairingSession::make(
            PairingRole::Initiator,
            group_id,
            initiator_pubkey,
            binding_salt,
            bootstrap_hints,
        )
    }

    /// Begins a pairing as initiator, with a new salt.
    pub fn initiator(
        group_id: String,
        initiator_pubkey: Vec<u8>,
        bootstrap_hints: Vec<String>,
    ) -> (r: CoreResult<Self>)
        ensures
            exists|salt: [u8; 16]| #[trigger]
                drawn_salt(salt) && (r matches Ok(s) && s.wf() && s@ == (PairingState {
                    role: PairingRole::Initiator,
                    group_id: group_id@,
                    initiator_pubkey: initiator_pubkey@,
                    binding_salt: salt@,
                    bootstrap_hints: text_views(bootstrap_hints@),
                    confirmed: false,
                })),
    {
        let salt = generate_binding_salt();
        assert(drawn_salt(salt));
        Ok(
            PairingSession::initiator_with_salt(
                group_id,
                initiator_pubkey,
                bootstrap_hints,
                salt,
            ),
        )
    }

    /// Begins a pairing as responder with a payload that was scanned at `now`.
    pub fn responder_from_payload(payload: PairingPayload, now: i64) -> (r: CoreResult<Self>)
        ensures
            match r {
                Ok(s) => payload_valid(payload@, now) && s.wf() && s@ == scanned(payload@),
                Err(e) => !payload_valid(payload@, now) && is_crypto_error(
                    e,
                    "配对 payload 校验失败：已过期或字段不合法"@,
                ),
            },
    {
        if !validate_payload_structure_at(&payload, now) {
            return Err(
                CoreError::Crypto("配对 payload 校验失败：已过期或字段不合法".to_owned()),
            );
        }
        Ok(
            PairingSession::make(
                PairingRole::Responder,
                payload.group_id,
                payload.initiator_pubkey,
                payload.binding_salt,
                payload.bootstrap_hints,
            ),
        )
    }

    /// Begins a pairing as responder with the text of a code that was scanned at `now`.
    pub fn responder_from_qr_at(qr_json: &str, now: i64) -> (r: CoreResult<Self>)
        ensures
            answers_scan(qr_json@, now, r),
            accepts_codes(qr_json@, now, r),
    {
        match PairingPayload::from_qr_json(qr_json) {
            Ok(payload) => PairingSession::responder_from_payload(payload, now),
            Err(e) => Err(e),
        }
    }

    /// Begins a pairing as responder with the text of a code that was scanned now.
    pub fn responder_from_qr(qr_json: &str) -> (r: CoreResult<Self>)
        ensures
            exists|now: i64| #[trigger]
                clock_told(now) && answers_scan(qr_json@, now, r) && accepts_codes(
                    qr_json@,
                    now,
                    r,
                ),
    {
        let now: i64 = now_millis();
        PairingSession::responder_from_qr_at(qr_json, now)
    }

    /// The payload at `now`.
    pub fn payload_at(&self, now: i64) -> (r: CoreResult<PairingPayload>)
        ensures
            match r {
                Ok(p) => p@ == payload_of(self@, now) && length_error(
                    self@.initiator_pubkey,
                    self@.binding_salt,
                ) is None,
                Err(e) => length_error(self@.initiator_pubkey, self@.binding_salt) matches Some(m)
                    && is_crypto_error(e, m),
            },
    {
        let key = copy_range(self.initiator_pubkey.as_slice(), 0, self.initiator_pubkey.len());
        let salt = copy_range(self.binding_salt.as_slice(), 0, self.binding_salt.len());
        assert(key@ =~= self.initiator_pubkey@);
        assert(salt@ =~= self.binding_salt@);
        PairingPayload::new(
            self.group_id.clone(),
            key,
            salt,
            clone_texts(&self.bootstrap_hints),
            now,
        )
    }

    /// The payload now.
    pub fn payload(&self) -> (r: CoreResult<PairingPayload>)
        ensures
            match r {
                Ok(p) => clock_told(p.timestamp) && p@ == payload_of(self@, p.timestamp) && length_error(
                    self@.initiator_pubkey,
                    self@.binding_salt,
                ) is None,
                Err(e) => length_error(self@.initiator_pubkey, self@.binding_salt) matches Some(m)
                    && is_crypto_error(e, m),
            },
    {
        self.payload_at(now_millis())
    }

    /// The text of the code at `now`.
    pub fn qr_json_at(&self, now: i64) -> (r: CoreResult<String>)
        ensures
            match r {
                Ok(s) => s@ == qr_text(payload_of(self@, now)) && length_error(
                    self@.initiator_pubkey,
                    self@.binding_salt,
                ) is None,
                Err(e) => length_error(self@.initiator_pubkey, self@.binding_salt) matches Some(m)
                    && is_crypto_error(e, m),
            },
    {
        match self.payload_at(now) {
            Ok(p) => p.to_qr_json(),
            Err(e) => Err(e),
        }
    }

    /// The text of the code now.
    pub fn qr_json(&self) -> (r: CoreResult<String>)
        ensures
            match r {
                Ok(s) => (exists|now: i64| #[trigger]
                    clock_told(now) && s@ == qr_text(payload_of(self@, now)))
                    && length_error(self@.initiator_pubkey, self@.binding_salt) is None,
                Err(e) => length_error(self@.initiator_pubkey, self@.binding_salt) matches Some(m)
                    && is_crypto_error(e, m),
            },
    {
        let now: i64 = now_millis();
        self.qr_json_at(now)
    }

    /// The short number.
    pub fn sas_code(&self) -> (r: u32)
        requires
            self.wf(),
        ensures
            r == sas_of(digest_of(self@)),
            r < 10000,
    {
        self.sas_code
    }

    /// The short number as it is shown.
    pub fn sas_display(&self) -> (r: String)
        requires
            self.wf(),
        ensures
            r@ == padded(sas_of(digest_of(self@))),
    {
        format_sas_code(self.sas_code)
    }

    /// The digest that binds group and key to the salt.
    pub fn binding_digest(&self) -> (r: &[u8; 32])
        requires
            self.wf(),
        ensures
            r@ == digest_of(self@),
    {
        &self.binding_digest
    }

    /// Which side this is.
    pub fn role(&self) -> (r: PairingRole)
        ensures
            r == self@.role,
    {
        self.role
    }

    pub fn group_id(&self) -> (r: &str)
        ensures
            r@ == self@.group_id,
    {
        self.group_id.as_str()
    }

    pub fn initiator_pubkey(&self) -> (r: &[u8])
        ensures
            r@ == self@.initiator_pubkey,
    {
        self.initiator_pubkey.as_slice()
    }

    /// Confirms that the other side shows the same number. Once confirmed, a pairing stays
    /// confirmed.
    pub fn confirm(&mut self, remote_sas: u32) -> (r: CoreResult<()>)
        requires
            old(self).wf(),
        ensures
            final(self).wf(),
            final(self)@ == (PairingState {
                confirmed: old(self)@.confirmed || remote_sas == sas_of(digest_of(old(self)@)),
                ..old(self)@
            }),
            match r {
                Ok(()) => final(self)@.confirmed,
                Err(e) => !final(self)@.confirmed && is_crypto_error(
                    e,
                    sas_mismatch_text(sas_of(digest_of(old(self)@)) as u32, remote_sas),
                ),
            },
    {
        if self.confirmed {
            return Ok(());
        }
        match confirm_sas_code(self.sas_code, remote_sas) {
            Ok(()) => {
                self.confirmed = true;
                Ok(())
            },
            Err(e) => Err(e),
        }
    }

    /// Whether the pairing is confirmed.
    pub fn is_confirmed(&self) -> (r: bool)
        ensures
            r == self@.confirmed,
    {
        self.confirmed
    }
}

/// Whoever scans the payload of an initiator gets the initiator's digest and short number.
pub proof fn law_both_sides_agree(initiator: PairingState, now: i64)
    ensures
        digest_of(scanned(payload_of(initiator, now))) == digest_of(initiator),
        sas_of(digest_of(scanned(payload_of(initiator, now)))) == sas_of(digest_of(initiator)),
{
}

/// The code of an initiator is accepted for five minutes.
pub proof fn law_code_is_good_for_five_minutes(initiator: PairingState, made: i64, scanned_at: i64)
    requires
        initiator.group_id.len() > 0,
        length_error(initiator.initiator_pubkey, initiator.binding_salt) is None,
        made <= scanned_at <= made + 300_000,
    ensures
        payload_valid(payload_of(initiator, made), scanned_at),
{
}

/// A code that an initiator shows is accepted by whoever scans it within five minutes, either way, and
/// refused further off. The two sides then hold the same group, key and digest, and show the same number;
/// neither is confirmed yet.
pub proof fn law_scanned_code_pairs_the_sides(
    group_id: String,
    initiator_pubkey: Vec<u8>,
    hints: Vec<String>,
    salt: [u8; 16],
    initiator: PairingSession,
    made: i64,
    code: CoreResult<String>,
    text: &str,
    now: i64,
    r: CoreResult<PairingSession>,
    shown: u32,
    shown_there: u32,
    digest: &[u8; 32],
    digest_there: &[u8; 32],
)
    requires
        group_id@.len() > 0,
        initiator_pubkey@.len() == 32,
        call_ensures(
            PairingSession::initiator_with_salt,
            (group_id, initiator_pubkey, hints, salt),
            initiator,
        ),
        call_ensures(PairingSession::qr_json_at, (&initiator, made), code),
        code matches Ok(s) ==> s@ == text@,
        call_ensures(PairingSession::responder_from_qr_at, (text, now), r),
        call_ensures(PairingSession::sas_code, (&initiator,), shown),
        call_ensures(PairingSession::binding_digest, (&initiator,), digest),
        r matches Ok(s) ==> call_ensures(PairingSession::sas_code, (&s,), shown_there)
            && call_ensures(PairingSession::binding_digest, (&s,), digest_there),
    ensures
        code is Ok,
        -300_000 <= now - made <= 300_000 ==> r is Ok,
        r matches Ok(s) && -300_000 <= now - made <= 300_000 ==> {
            let s = r->Ok_0;
            &&& s@.role is Responder && initiator@.role is Initiator
            &&& s@.group_id == group_id@
            &&& s@.initiator_pubkey == initiator_pubkey@
            &&& s@.binding_salt == salt@
            &&& !s@.confirmed && !initiator@.confirmed
            &&& shown_there == shown
            &&& digest_there@ == digest@
        },
{
    let v = payload_of(initiator@, made);
    assert(text@ == qr_text(v));
    assert(length_error(initiator@.initiator_pubkey, initiator@.binding_salt) is None);
}

/// A payload is taken just where its key has thirty-two bytes and its salt sixteen, it names a group, and it
/// was made within five minutes of the scan, either way.
pub proof fn law_payload_is_checked(
    payload: PairingPayload,
    now: i64,
    valid: bool,
    r: CoreResult<PairingSession>,
)
    requires
        call_ensures(validate_payload_structure_at, (&payload, now), valid),
        call_ensures(PairingSession::responder_from_payload, (payload, now), r),
    ensures
        valid <==> payload.initiator_pubkey@.len() == 32 && payload.binding_salt@.len() == 16
            && payload.group_id@.len() > 0 && now - payload.timestamp <= 300_000
            && payload.timestamp - now <= 300_000,
        r is Ok <==> valid,
        r matches Err(e) ==> e is Crypto,
        r matches Ok(s) ==> s@.group_id == payload.group_id@ && s@.initiator_pubkey
            == payload.initiator_pubkey@ && s@.binding_salt == payload.binding_salt@ && s@.role
            is Responder && !s@.confirmed,
{
}

/// A pairing is confirmed just by the number that it shows; another number is refused, and does not undo a
/// confirmation.
pub proof fn law_same_number_confirms(
    session: &mut PairingSession,
    remote: u32,
    r: CoreResult<()>,
    shown: u32,
    confirmed_before: bool,
    confirmed_after: bool,
)
    requires
        old(session).wf(),
        call_ensures(PairingSession::confirm, (session, remote), r),
        call_ensures(PairingSession::sas_code, (&*old(session),), shown),
        call_ensures(PairingSession::is_confirmed, (&*old(session),), confirmed_before),
        call_ensures(PairingSession::is_confirmed, (&*final(session),), confirmed_after),
    ensures
        confirmed_after <==> confirmed_before || remote == shown,
        r is Ok <==> confirmed_after,
        r matches Err(e) ==> e is Crypto,
        final(session)@.group_id == old(session)@.group_id,
        final(session)@.initiator_pubkey == old(session)@.initiator_pubkey,
        final(session)@.binding_salt == old(session)@.binding_salt,
        final(session)@.role == old(session)@.role,
{
}

/// Two short numbers are confirmed just where they are equal.
pub proof fn law_numbers_are_compared(local: u32, remote: u32, r: CoreResult<()>)
    requires
        call_ensures(confirm_sas_code, (local, remote), r),
    ensures
        r is Ok <==> local == remote,
        r matches Err(e) ==> e is Crypto,
{
}

/// The digest authenticates the group and the initiator's key, one behind the other, under the salt; the
/// short number is made of its first four bytes, the first one being the most significant.
pub proof fn law_digest_binds_group_and_key(
    group_id: &str,
    initiator_pubkey: &[u8],
    binding_salt: &[u8],
    digest: [u8; 32],
    number: u32,
)
    requires
        call_ensures(compute_binding_digest, (group_id, initiator_pubkey, binding_salt), digest),
        call_ensures(derive_sas_code, (&digest,), number),
    ensures
        digest@ == hmac_sha256_code(binding_salt@, encode_utf8(group_id@) + initiator_pubkey@),
        number == (digest@[0] * 0x100_0000 + digest@[1] * 0x1_0000 + digest@[2] * 0x100
            + digest@[3]) % 10000,
{
    let s = digest@.subrange(0, 4);
    reveal_with_fuel(be_value, 5);
    assert(s.drop_last().drop_last().drop_last().drop_last() =~= Seq::<u8>::empty());
    assert(be_value(s) == s[0] * 0x100_0000 + s[1] * 0x1_0000 + s[2] * 0x100 + s[3]);
}

/// A short number is shown as four digits that write it.
pub proof fn law_shown_number_is_the_number(sas: u32, r: String)
    requires
        sas < 10000,
        call_ensures(format_sas_code, (sas,), r),
    ensures
        r@.len() == 4,
        crate::text::digits_value(r@) == sas,
{
    crate::text::lemma_decimal_value(sas as nat);
    lemma_zeros_in_front(decimal(sas as nat));
    reveal_strlit("0");
    reveal_strlit("00");
    reveal_strlit("000");
    let d = decimal(sas as nat);
    let one = seq!['0'] + d;
    let two = seq!['0'] + one;
    assert("0"@ + d =~= one);
    assert("00"@ + d =~= two);
    assert("000"@ + d =~= seq!['0'] + two);
    lemma_zeros_in_front(one);
    lemma_zeros_in_front(two);
}

proof fn lemma_zeros_in_front(s: Seq<char>)
    ensures
        crate::text::digits_value(seq!['0'] + s) == crate::text::digits_value(s),
    decreases s.len(),
{
    let t = seq!['0'] + s;
    if s.len() == 0 {
        assert(t.drop_last() =~= Seq::<char>::empty());
        assert(t.last() == '0');
        assert(crate::text::digits_value(t.drop_last()) == 0);
    } else {
        lemma_zeros_in_front(s.drop_last());
        assert(t.drop_last() =~= seq!['0'] + s.drop_last());
        assert(t.last() == s.last());
    }
}

/// The code of a payload reads back as the payload, where key and salt have their lengths.
pub proof fn law_code_is_read_back(
    payload: &PairingPayload,
    code: CoreResult<String>,
    text: &str,
    r: CoreResult<PairingPayload>,
)
    requires
        payload.initiator_pubkey@.len() == 32,
        payload.binding_salt@.len() == 16,
        call_ensures(PairingPayload::to_qr_json, (payload,), code),
        code matches Ok(s) ==> s@ == text@,
        call_ensures(PairingPayload::from_qr_json, (text,), r),
    ensures
        code is Ok,
        r matches Ok(p) && p.group_id@ == payload.group_id@ && p.initiator_pubkey@
            == payload.initiator_pubkey@ && p.binding_salt@ == payload.binding_salt@ && p.timestamp
            == payload.timestamp && text_views(p.bootstrap_hints@) == text_views(
            payload.bootstrap_hints@,
        ),
{
    assert(text@ == qr_text(payload@));
    assert(r->Ok_0@ == payload@);
}

/// What a payload is made of it holds; a key or salt of another length is refused.
pub proof fn law_payload_holds_what_it_is_made_of(
    group_id: String,
    initiator_pubkey: Vec<u8>,
    binding_salt: Vec<u8>,
    hints: Vec<String>,
    timestamp: i64,
    r: CoreResult<PairingPayload>,
)
    requires
        call_ensures(
            PairingPayload::new,
            (group_id, initiator_pubkey, binding_salt, hints, timestamp),
            r,
        ),
    ensures
        r is Ok <==> initiator_pubkey@.len() == 32 && binding_salt@.len() == 16,
        r matches Ok(p) ==> p.group_id == group_id && p.initiator_pubkey == initiator_pubkey
            && p.binding_salt == binding_salt && p.bootstrap_hints == hints && p.timestamp
            == timestamp,
        r matches Err(e) ==> e is Crypto,
{
}

/// A pairing that is begun with a new salt holds what it was begun with, shows the number and digest of that,
/// and is not confirmed.
pub proof fn law_new_pairing_shows_its_number(
    group_id: String,
    initiator_pubkey: Vec<u8>,
    hints: Vec<String>,
    r: CoreResult<PairingSession>,
    session: &PairingSession,
    shown: u32,
    display: String,
    digest: &[u8; 32],
    group: &str,
    key: &[u8],
    role: PairingRole,
    confirmed: bool,
    salt: &[u8],
    computed: [u8; 32],
    derived: u32,
    formatted: String,
)
    requires
        call_ensures(PairingSession::initiator, (group_id, initiator_pubkey, hints), r),
        r == Ok::<PairingSession, CoreError>(*session),
        call_ensures(PairingSession::sas_code, (session,), shown),
        call_ensures(PairingSession::sas_display, (session,), display),
        call_ensures(PairingSession::binding_digest, (session,), digest),
        call_ensures(PairingSession::group_id, (session,), group),
        call_ensures(PairingSession::initiator_pubkey, (session,), key),
        call_ensures(PairingSession::role, (session,), role),
        call_ensures(PairingSession::is_confirmed, (session,), confirmed),
        salt@ == session@.binding_salt,
        call_ensures(compute_binding_digest, (group, key, salt), computed),
        call_ensures(derive_sas_code, (&computed,), derived),
        call_ensures(format_sas_code, (derived,), formatted),
    ensures
        group@ == group_id@,
        key@ == initiator_pubkey@,
        role is Initiator,
        !confirmed,
        digest@ == computed@,
        shown == derived,
        display@ == formatted@,
        exists|drawn: [u8; 16]| #[trigger] drawn_salt(drawn) && salt@ == drawn@,
{
    let drawn = choose|drawn: [u8; 16]| #[trigger]
        drawn_salt(drawn) && (r matches Ok(s) && s.wf() && s@ == (PairingState {
            role: PairingRole::Initiator,
            group_id: group_id@,
            initiator_pubkey: initiator_pubkey@,
            binding_salt: drawn@,
            bootstrap_hints: text_views(hints@),
            confirmed: false,
        }));
    assert(drawn_salt(drawn));
}

/// The code that is shown now says when it was made, by the clock, and what the pairing holds; whoever scans
/// it at a time within five minutes of that pairs with it.
pub proof fn law_code_shown_now_is_good(
    session: &PairingSession,
    code: CoreResult<String>,
    payload: CoreResult<PairingPayload>,
    text: &str,
    now: i64,
    r: CoreResult<PairingSession>,
)
    requires
        session@.group_id.len() > 0,
        session@.initiator_pubkey.len() == 32,
        session@.binding_salt.len() == 16,
        call_ensures(PairingSession::qr_json, (session,), code),
        call_ensures(PairingSession::payload, (session,), payload),
        code matches Ok(s) ==> s@ == text@,
        call_ensures(PairingSession::responder_from_qr_at, (text, now), r),
    ensures
        code is Ok,
        payload is Ok,
        clock_told(payload->Ok_0.timestamp),
        payload->Ok_0.group_id@ == session@.group_id,
        payload->Ok_0.initiator_pubkey@ == session@.initiator_pubkey,
        payload->Ok_0.binding_salt@ == session@.binding_salt,
        exists|made: i64| #[trigger]
            clock_told(made) && (-300_000 <= now - made <= 300_000 ==> (r matches Ok(s)
                && s@.group_id == session@.group_id && s@.initiator_pubkey
                == session@.initiator_pubkey && s@.binding_salt == session@.binding_salt)),
{
    assert(length_error(session@.initiator_pubkey, session@.binding_salt) is None);
    assert(payload->Ok_0@.group_id == session@.group_id);
    let made = choose|made: i64| #[trigger]
        clock_told(made) && text@ == qr_text(payload_of(session@, made));
    let v = payload_of(session@, made);
    if -300_000 <= now - made <= 300_000 {
        assert(payload_valid(v, now));
        assert(text@ == qr_text(v));
    }
    assert(clock_told(made));
}

/// A code that is scanned now is judged by the clock: it is taken where it was made within five minutes,
/// either way, of a time that the clock told.
pub proof fn law_scan_now_goes_by_the_clock(
    payload: &PairingPayload,
    valid: bool,
    code: CoreResult<String>,
    text: &str,
    r: CoreResult<PairingSession>,
)
    requires
        payload.initiator_pubkey@.len() == 32,
        payload.binding_salt@.len() == 16,
        payload.group_id@.len() > 0,
        call_ensures(validate_payload_structure, (payload,), valid),
        call_ensures(PairingPayload::to_qr_json, (payload,), code),
        code matches Ok(s) ==> s@ == text@,
        call_ensures(PairingSession::responder_from_qr, (text,), r),
    ensures
        exists|now: i64| #[trigger]
            clock_told(now) && (valid <==> -300_000 <= now - payload.timestamp <= 300_000),
        exists|now: i64| #[trigger]
            clock_told(now) && (-300_000 <= now - payload.timestamp <= 300_000 ==> (r matches Ok(s)
                && s@.group_id == payload.group_id@ && s@.initiator_pubkey
                == payload.initiator_pubkey@ && s@.binding_salt == payload.binding_salt@
                && !s@.confirmed)),
{
    let a = choose|now: i64| #[trigger] clock_told(now) && valid == payload_valid(payload@, now);
    assert(clock_told(a));
    let b = choose|now: i64| #[trigger]
        clock_told(now) && answers_scan(text@, now, r) && accepts_codes(text@, now, r);
    assert(clock_told(b));
    assert(text@ == qr_text(payload@));
}

/// What a code's text says is what its members say, key and salt in hexadecimal; where a member is missing,
/// nothing is read.
pub proof fn law_code_is_read_by_its_members(json: &str, r: CoreResult<PairingPayload>)
    requires
        call_ensures(PairingPayload::from_qr_json, (json,), r),
    ensures
        r matches Ok(p) ==> {
            &&& json_text_at(json@, "group_id"@) == Some(p.group_id@)
            &&& json_text_at(json@, "initiator_pubkey"@) matches Some(key) && hex_bytes(key)
                == p.initiator_pubkey@
            &&& json_text_at(json@, "binding_salt"@) matches Some(salt) && hex_bytes(salt)
                == p.binding_salt@
            &&& json_texts_at(json@, "bootstrap_hints"@) == Some(text_views(p.bootstrap_hints@))
            &&& json_int_at(json@, "timestamp"@) == Some(p.timestamp)
            &&& p.initiator_pubkey@.len() == 32
            &&& p.binding_salt@.len() == 16
        },
        json_text_at(json@, "group_id"@) is None || json_text_at(json@, "initiator_pubkey"@) is None
            || json_text_at(json@, "binding_salt"@) is None || json_texts_at(
            json@,
            "bootstrap_hints"@,
        ) is None || json_int_at(json@, "timestamp"@) is None ==> r is Err,
        r matches Err(e) ==> e is Crypto,
{
    if r is Ok {
        let p = r->Ok_0;
        assert(qr_fields(json@)->Some_0 == p@);
    }
}

} // verus!
