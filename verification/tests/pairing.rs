use std::time::{SystemTime, UNIX_EPOCH};

use tacit::pairing::{
    compute_binding_digest, confirm_sas_code, derive_sas_code, format_sas_code,
    generate_binding_salt, validate_payload_structure, validate_payload_structure_at,
    PairingPayload, PairingRole, PairingSession, BINDING_SALT_LEN, SAS_MODULUS,
};

fn now_ms() -> i64 {
    SystemTime::now().duration_since(UNIX_EPOCH).map(|d| d.as_millis() as i64).unwrap_or(0)
}

fn test_pubkey() -> Vec<u8> {
    (0u8..32).collect()
}

fn test_payload() -> PairingPayload {
    PairingPayload::new(
        "group-123".to_string(),
        test_pubkey(),
        vec![0xA0; BINDING_SALT_LEN],
        vec!["relay://example.com".to_string()],
        now_ms(),
    )
    .unwrap()
}

#[test]
fn qr_json_roundtrip() {
    let payload = test_payload();
    let json = payload.to_qr_json().unwrap();
    let parsed = PairingPayload::from_qr_json(&json).unwrap();
    assert_eq!(payload, parsed);
}

#[test]
fn qr_json_contains_hex_fields() {
    let payload = test_payload();
    let json = payload.to_qr_json().unwrap();
    assert!(json.contains(&hex::encode(&payload.initiator_pubkey)));
    assert!(json.contains(&hex::encode(&payload.binding_salt)));
    assert!(json.contains("group-123"));
}

#[test]
fn qr_json_is_what_serde_reads() {
    let payload = PairingPayload::new(
        "a \"quoted\" group\n".to_string(),
        test_pubkey(),
        vec![1; BINDING_SALT_LEN],
        vec!["x".to_string(), "y\\z".to_string()],
        17,
    )
    .unwrap();
    let json = payload.to_qr_json().unwrap();
    let value: serde_json::Value = serde_json::from_str(&json).unwrap();
    assert_eq!(value["group_id"], "a \"quoted\" group\n");
    assert_eq!(value["timestamp"], 17);
    assert_eq!(value["bootstrap_hints"][1], "y\\z");
    assert_eq!(PairingPayload::from_qr_json(&json).unwrap(), payload);
}

#[test]
fn from_qr_json_rejects_malformed() {
    assert!(PairingPayload::from_qr_json(r#"{"group_id":"x"}"#).is_err());
    assert!(PairingPayload::from_qr_json("not json").is_err());
    let bad = r#"{"group_id":"g","initiator_pubkey":"01020300000000000000000000000000000000000000000000000000000000","binding_salt":"0102030405060708090a0b0c0d0e0f10","bootstrap_hints":[],"timestamp":0}"#;
    assert!(PairingPayload::from_qr_json(bad).is_err());
}

#[test]
fn binding_digest_consistent() {
    let group_id = "group-abc";
    let pubkey = test_pubkey();
    let salt = [0x42u8; BINDING_SALT_LEN];
    let d1 = compute_binding_digest(group_id, &pubkey, &salt);
    let d2 = compute_binding_digest(group_id, &pubkey, &salt);
    assert_eq!(d1, d2);
}

#[test]
fn binding_digest_differs_on_input_change() {
    let group_id = "group-abc";
    let pubkey = test_pubkey();
    let salt = [0x42u8; BINDING_SALT_LEN];
    let d_base = compute_binding_digest(group_id, &pubkey, &salt);

    let d_other = compute_binding_digest("group-xyz", &pubkey, &salt);
    assert_ne!(d_base, d_other);

    let mut other_pubkey = pubkey.clone();
    other_pubkey[0] ^= 0xff;
    let d_other = compute_binding_digest(group_id, &other_pubkey, &salt);
    assert_ne!(d_base, d_other);

    let other_salt = [0x43u8; BINDING_SALT_LEN];
    let d_other = compute_binding_digest(group_id, &pubkey, &other_salt);
    assert_ne!(d_base, d_other);
}

#[test]
fn sas_code_deterministic() {
    let digest = [0xABu8; 32];
    let s1 = derive_sas_code(&digest);
    let s2 = derive_sas_code(&digest);
    assert_eq!(s1, s2);
}

#[test]
fn sas_code_in_range() {
    for i in 0u8..=255u8 {
        let mut digest = [0u8; 32];
        digest[0] = i;
        digest[1] = 0xFF;
        digest[2] = 0xFF;
        digest[3] = 0xFF;
        let sas = derive_sas_code(&digest);
        assert!(sas < SAS_MODULUS, "SAS 码超出范围: {sas}");
    }
}

#[test]
fn sas_code_known_value() {
    let mut digest = [0u8; 32];
    digest[3] = 0x01;
    assert_eq!(derive_sas_code(&digest), 1);

    let mut digest = [0u8; 32];
    digest[2] = 0x27;
    digest[3] = 0x10;
    assert_eq!(derive_sas_code(&digest), 0);
}

#[test]
fn validate_payload_structure_accepts_valid() {
    let payload = test_payload();
    assert!(validate_payload_structure(&payload));
}

#[test]
fn validate_payload_structure_rejects_tampered() {
    let mut payload = test_payload();

    payload.initiator_pubkey.pop();
    assert!(!validate_payload_structure(&payload));

    payload.initiator_pubkey = test_pubkey();
    payload.binding_salt.push(0x00);
    assert!(!validate_payload_structure(&payload));

    payload.binding_salt = vec![0xA0; BINDING_SALT_LEN];
    payload.group_id.clear();
    assert!(!validate_payload_structure(&payload));

    let expired_payload = PairingPayload::new(
        "group-expired".to_string(),
        test_pubkey(),
        vec![0xA0; BINDING_SALT_LEN],
        vec![],
        now_ms() - 600_000,
    )
    .unwrap();
    assert!(!validate_payload_structure(&expired_payload));
}

#[test]
fn a_code_is_good_for_five_minutes() {
    let payload = PairingPayload::new(
        "g".to_string(),
        test_pubkey(),
        vec![0; BINDING_SALT_LEN],
        vec![],
        1_000_000,
    )
    .unwrap();
    assert!(validate_payload_structure_at(&payload, 1_000_000));
    assert!(validate_payload_structure_at(&payload, 1_300_000));
    assert!(!validate_payload_structure_at(&payload, 1_300_001));
    assert!(validate_payload_structure_at(&payload, 700_000));
    assert!(!validate_payload_structure_at(&payload, 699_999));
}

#[test]
fn generate_binding_salt_produces_distinct_values() {
    let salt1 = generate_binding_salt();
    let salt2 = generate_binding_salt();
    assert_eq!(salt1.len(), BINDING_SALT_LEN);
    assert_eq!(salt2.len(), BINDING_SALT_LEN);
    assert_ne!(salt1, salt2, "两次生成的绑定盐不应相等");
}

#[test]
fn end_to_end_pairing_flow() {
    let group_id = "e2e-group".to_string();
    let salt = generate_binding_salt();
    let pubkey = test_pubkey();
    let payload =
        PairingPayload::new(group_id.clone(), pubkey.clone(), salt.to_vec(), vec![], now_ms())
            .unwrap();

    let qr = payload.to_qr_json().unwrap();

    let parsed = PairingPayload::from_qr_json(&qr).unwrap();
    assert!(validate_payload_structure(&parsed));

    let digest_init = compute_binding_digest(&group_id, &pubkey, &salt);
    let digest_resp =
        compute_binding_digest(&parsed.group_id, &parsed.initiator_pubkey, &parsed.binding_salt);
    assert_eq!(digest_init, digest_resp);

    let sas_init = derive_sas_code(&digest_init);
    let sas_resp = derive_sas_code(&digest_resp);
    assert_eq!(sas_init, sas_resp);
    assert!(sas_init < SAS_MODULUS);
}

#[test]
fn format_sas_code_pads_to_four_digits() {
    assert_eq!(format_sas_code(0), "0000");
    assert_eq!(format_sas_code(1), "0001");
    assert_eq!(format_sas_code(42), "0042");
    assert_eq!(format_sas_code(999), "0999");
    assert_eq!(format_sas_code(9999), "9999");
}

#[test]
fn every_number_is_shown_with_four_digits() {
    assert_eq!(format_sas_code(10_000), "0000");
    assert_eq!(format_sas_code(123_456), "3456");
    assert_eq!(format_sas_code(u32::MAX), "7295");
}

#[test]
fn confirm_sas_code_matching() {
    assert!(confirm_sas_code(42, 42).is_ok());
    assert!(confirm_sas_code(0, 0).is_ok());
    assert!(confirm_sas_code(9999, 9999).is_ok());
}

#[test]
fn confirm_sas_code_mismatching() {
    assert!(confirm_sas_code(42, 43).is_err());
    assert!(confirm_sas_code(0, 1).is_err());
    assert!(confirm_sas_code(1234, 4321).is_err());
}

#[test]
fn pairing_session_initiator_and_responder_match() {
    let group_id = "session-group".to_string();
    let pubkey = test_pubkey();

    let initiator = PairingSession::initiator(group_id.clone(), pubkey.clone(), vec![]).unwrap();
    assert_eq!(initiator.role(), PairingRole::Initiator);
    assert!(!initiator.is_confirmed());

    let qr = initiator.qr_json().unwrap();

    let mut responder = PairingSession::responder_from_qr(&qr).unwrap();
    assert_eq!(responder.role(), PairingRole::Responder);
    assert!(!responder.is_confirmed());

    assert_eq!(initiator.sas_code(), responder.sas_code());
    assert_eq!(initiator.sas_display(), responder.sas_display());
    assert_eq!(initiator.sas_display().len(), 4);

    let sas = initiator.sas_code();
    responder.confirm(sas).unwrap();
    assert!(responder.is_confirmed());
}

#[test]
fn pairing_session_confirm_mismatch_fails() {
    let pubkey = test_pubkey();
    let initiator = PairingSession::initiator("mismatch-group".into(), pubkey, vec![]).unwrap();
    let qr = initiator.qr_json().unwrap();
    let mut responder = PairingSession::responder_from_qr(&qr).unwrap();

    let wrong_sas = (responder.sas_code() + 1) % SAS_MODULUS;
    let result = responder.confirm(wrong_sas);
    assert!(result.is_err());
    assert!(!responder.is_confirmed());
}

#[test]
fn pairing_session_confirm_is_idempotent() {
    let pubkey = test_pubkey();
    let initiator = PairingSession::initiator("idempotent-group".into(), pubkey, vec![]).unwrap();
    let qr = initiator.qr_json().unwrap();
    let mut responder = PairingSession::responder_from_qr(&qr).unwrap();

    let sas = initiator.sas_code();
    responder.confirm(sas).unwrap();
    assert!(responder.is_confirmed());

    let wrong_sas = (sas + 1) % SAS_MODULUS;
    responder.confirm(wrong_sas).unwrap();
    assert!(responder.is_confirmed());
}

#[test]
fn pairing_session_responder_rejects_expired_qr() {
    let pubkey = test_pubkey();
    let payload = PairingPayload::new(
        "expired-group".to_string(),
        pubkey,
        vec![0xA0; BINDING_SALT_LEN],
        vec![],
        now_ms() - 600_000,
    )
    .unwrap();
    let qr = payload.to_qr_json().unwrap();
    let result = PairingSession::responder_from_qr(&qr);
    assert!(result.is_err());
}

#[test]
fn pairing_session_binding_digest_consistent() {
    let group_id = "digest-group".to_string();
    let pubkey = test_pubkey();
    let session = PairingSession::initiator(group_id.clone(), pubkey.clone(), vec![]).unwrap();
    let expected_sas = derive_sas_code(session.binding_digest());
    assert_eq!(session.sas_code(), expected_sas);
}

#[test]
fn pairing_session_group_and_pubkey_accessors() {
    let group_id = "accessor-group".to_string();
    let pubkey = test_pubkey();
    let session = PairingSession::initiator(group_id.clone(), pubkey.clone(), vec![]).unwrap();
    assert_eq!(session.group_id(), "accessor-group");
    assert_eq!(session.initiator_pubkey(), &pubkey as &[u8]);
}

#[test]
fn pairing_session_full_flow_with_sas_confirmation() {
    let group_id = "full-flow-group".to_string();
    let pubkey = test_pubkey();

    let initiator =
        PairingSession::initiator(group_id, pubkey, vec!["relay://example.com".into()]).unwrap();
    let qr = initiator.qr_json().unwrap();

    let mut responder = PairingSession::responder_from_qr(&qr).unwrap();

    let initiator_sas = initiator.sas_display();
    let responder_sas = responder.sas_display();
    assert_eq!(initiator_sas, responder_sas, "两端 SAS 短码必须一致");

    responder.confirm(initiator.sas_code()).unwrap();
    assert!(responder.is_confirmed());
}

#[test]
fn pairing_session_different_pubkeys_produce_different_sas() {
    let group_id = "diff-pubkey-group".to_string();
    let pubkey_a: Vec<u8> = (0u8..32).collect();
    let pubkey_b: Vec<u8> = (1u8..33).collect();
    let session_a = PairingSession::initiator(group_id.clone(), pubkey_a, vec![]).unwrap();
    let session_b = PairingSession::initiator(group_id, pubkey_b, vec![]).unwrap();
    assert_ne!(session_a.sas_code(), session_b.sas_code(), "不同公钥不应产生相同 SAS 短码");
}
