use tacit::compression::{compress, decompress, COMPRESSED_PREFIX};
use tacit::dao::{
    best_anchor, from_millis, list_relay_candidates, load_device_identity, nat_rank,
    prefix_pattern, save_device_identity, state_hash_of, to_millis, BlockSyncStateRecord, CheckpointRecord, DocRecord,
    IdentityRow, SyncLogRecord, TransportStatsRecord,
};
use tacit::error::CoreError;
use tacit::frontier::Frontier;
use tacit::ids::{BlockId, CheckpointId, DocId, PeerId};
use tacit::model::{
    AckSummary, AnchorCapabilities, Endpoint, NatCapability, PeerRecord, SnapshotKind, TrustState,
};
use tacit::peer_row::{peer_of_row, row_of_peer, snapshot_kind_cell, snapshot_kind_in};
use tacit::rows::{
    ack_of_row, block_state_of_row, checkpoint_of_row, doc_of_row, row_of_ack, row_of_block_state,
    row_of_checkpoint, row_of_doc, row_of_stats, row_of_sync_log, stats_of_row, sync_log_of_row,
};
use tacit::snapshot_install::{check_install, installed_doc, plan_install, replaced_snapshot};

#[test]
fn compress_decompress_roundtrip_large() {
    let data = b"hello world".repeat(100);
    let compressed = compress(&data);
    assert_eq!(compressed[0], COMPRESSED_PREFIX);
    assert!(compressed.len() < data.len());
    let decompressed = decompress(&compressed).unwrap();
    assert_eq!(decompressed, data);
}

#[test]
fn small_data_not_compressed() {
    let data = b"small";
    let result = compress(data);
    assert_ne!(result[0], COMPRESSED_PREFIX);
    assert_eq!(&result, data);
    let decompressed = decompress(&result).unwrap();
    assert_eq!(decompressed, data);
}

#[test]
fn empty_data_roundtrip() {
    let data = b"";
    let compressed = compress(data);
    assert!(compressed.is_empty());
    let decompressed = decompress(&compressed).unwrap();
    assert_eq!(decompressed, data);
}

#[test]
fn backward_compatible_raw_data() {
    let raw = b"\x02\x03\x04raw data that is long enough to not be confused";
    let decompressed = decompress(raw).unwrap();
    assert_eq!(decompressed, raw);
}

#[test]
fn compress_shrinks_repetitive_data() {
    let data = b"AAAA".repeat(1000);
    let compressed = compress(&data);
    assert!(compressed.len() < 100, "高度重复数据应大幅压缩");
}

#[test]
fn broken_compressed_data_is_an_error() {
    assert!(matches!(decompress(&[COMPRESSED_PREFIX, 1, 2, 3]), Err(CoreError::Store(_))));
}

fn peer(id: &str) -> PeerRecord {
    PeerRecord {
        peer_id: PeerId::new(id),
        device_pubkey: "pk1".into(),
        capabilities: AnchorCapabilities { can_anchor: true, can_relay: false, persistent: true },
        trust_state: TrustState::Trusted,
        anchor_priority: 10,
        last_seen_at: 1_700_000_000_000,
        last_endpoint: Some(Endpoint::new("127.0.0.1", 8080)),
        nat_capability: NatCapability::Direct,
        relay_hint: None,
        success_bits: 1.0f64.to_bits(),
        rotation_seq: 0,
    }
}

#[test]
fn peer_and_anchor() {
    let got = peer_of_row(row_of_peer(&peer("1")));
    assert_eq!(got.device_pubkey, "pk1");
    assert!(got.capabilities.can_anchor);
    assert_eq!(got, peer("1"));
    let anchor = best_anchor(&vec![got]);
    assert_eq!(anchor, Some(PeerId::new("1")));
}

#[test]
fn rows_that_cannot_be_read_give_cautious_values() {
    let mut row = row_of_peer(&peer("1"));
    row.trust_state = "garbage".to_string();
    row.capabilities = "garbage".to_string();
    row.nat_capability = "garbage".to_string();
    row.last_endpoint = Some("garbage".to_string());
    let got = peer_of_row(row);
    assert_eq!(got.trust_state, TrustState::Pending);
    assert_eq!(got.capabilities, AnchorCapabilities::default());
    assert_eq!(got.nat_capability, NatCapability::Unknown);
    assert_eq!(got.last_endpoint, None);
}

#[test]
fn anchors_are_ranked() {
    let low = PeerRecord { anchor_priority: 1, ..peer("a") };
    let cone = PeerRecord { nat_capability: NatCapability::Cone, ..peer("b") };
    let flaky = PeerRecord { success_bits: 0.5f64.to_bits(), ..peer("c") };
    let earlier = PeerRecord { last_seen_at: 5, ..peer("d") };
    let untrusted = PeerRecord { trust_state: TrustState::Pending, anchor_priority: 99, ..peer("0") };
    let peers = vec![low, cone, flaky, earlier, untrusted, peer("z"), peer("y")];
    assert_eq!(best_anchor(&peers), Some(PeerId::new("y")));
    assert_eq!(best_anchor(&Vec::new()), None);
    assert_eq!(nat_rank(&NatCapability::Direct), 3);
    assert_eq!(nat_rank(&NatCapability::Cone), 2);
    assert_eq!(nat_rank(&NatCapability::Symmetric), 1);
    assert_eq!(nat_rank(&NatCapability::Unknown), 0);
}

#[test]
fn relays_are_trusted_peers_that_can_relay() {
    let relaying =
        AnchorCapabilities { can_anchor: false, can_relay: true, persistent: false };
    let a = PeerRecord { capabilities: relaying, ..peer("a") };
    let b = PeerRecord { capabilities: relaying, trust_state: TrustState::Revoked, ..peer("b") };
    let c = PeerRecord { capabilities: relaying, ..peer("c") };
    let found = list_relay_candidates(&vec![a, b, peer("x"), c]);
    assert_eq!(found, vec![PeerId::new("a"), PeerId::new("c")]);
}

#[test]
fn stored_times_and_hashes() {
    assert_eq!(to_millis(-5), 0);
    assert_eq!(to_millis(5), 5);
    assert_eq!(from_millis(-5), 0);
    assert_eq!(from_millis(7), 7);
    assert_eq!(state_hash_of(&[3u8; 32]), [3u8; 32]);
    assert_eq!(state_hash_of(&[3u8; 31]), [0u8; 32]);
}

#[test]
fn prefix_patterns_escape() {
    assert_eq!(prefix_pattern("a%b_c\\d"), "a\\%b\\_c\\\\d%");
    assert_eq!(prefix_pattern(""), "%");
}

#[test]
fn snapshot_kinds_are_written_and_read() {
    assert_eq!(snapshot_kind_cell(SnapshotKind::Full), "\"Full\"");
    assert_eq!(snapshot_kind_in("\"Shallow\""), SnapshotKind::Shallow);
    assert_eq!(snapshot_kind_in("\"Full\""), SnapshotKind::Full);
    assert_eq!(snapshot_kind_in("garbage"), SnapshotKind::Full);
}

fn identity_row(signing: usize, private: usize) -> IdentityRow {
    IdentityRow {
        signing_key: vec![0x01; signing],
        static_private: vec![0x02; private],
        static_public: vec![0x03; 32],
        binding_proof: vec![0x04; 64],
        created_at: -3,
    }
}

#[test]
fn stored_identity_is_loaded() {
    assert!(load_device_identity(None).unwrap().is_none());
    let loaded = load_device_identity(Some(identity_row(32, 32))).unwrap().unwrap();
    assert_eq!(loaded.signing_key, [0x01; 32]);
    assert_eq!(loaded.static_private, [0x02; 32]);
    assert_eq!(loaded.static_public, vec![0x03; 32]);
    assert_eq!(loaded.binding_proof, vec![0x04; 64]);
    assert_eq!(loaded.created_at, 0);
}

#[test]
fn saved_identity_is_loaded_as_it_was() {
    let rec = load_device_identity(Some(identity_row(32, 32))).unwrap().unwrap();
    let row = save_device_identity(&rec);
    assert_eq!(row.signing_key, vec![0x01; 32]);
    assert_eq!(row.static_private, vec![0x02; 32]);
    let back = load_device_identity(Some(row)).unwrap().unwrap();
    assert_eq!(back.signing_key, rec.signing_key);
    assert_eq!(back.static_private, rec.static_private);
    assert_eq!(back.static_public, rec.static_public);
    assert_eq!(back.binding_proof, rec.binding_proof);
    assert_eq!(back.created_at, rec.created_at);
}

#[test]
fn stored_keys_of_the_wrong_length_are_errors() {
    let e = load_device_identity(Some(identity_row(31, 32))).err().unwrap();
    assert!(e.message().contains("signing_key 长度不为 32 字节"));
    let e = load_device_identity(Some(identity_row(32, 33))).err().unwrap();
    assert!(e.message().contains("static_private 长度不为 32 字节"));
}

const SNAPSHOT_HASH: &str = "ba7816bf8f01cfea414140de5dae2223b00361a396177a9cb410ff61f20015ad";

#[test]
fn install_snapshot_atomically_rejects_empty() {
    assert!(plan_install("doc1", b"", SNAPSHOT_HASH, "Full").is_err());
}

#[test]
fn snapshot_is_planned_checked_and_put_in_place() {
    let plan = plan_install("doc1", b"abc", "", "Shallow").unwrap();
    assert_eq!(plan.kind, SnapshotKind::Shallow);
    assert_eq!(plan.pending_id.as_str(), format!("__pending_{}", SNAPSHOT_HASH));
    assert!(check_install(b"abc", &Some(b"abc".to_vec()), SNAPSHOT_HASH).is_ok());
    assert!(check_install(b"abc", &Some(b"abc".to_vec()), "").is_ok());
    let mut frontier = Frontier::new();
    frontier.set(PeerId::new("1"), 10);
    let doc = installed_doc(&plan, None, frontier, 99);
    assert_eq!(doc.doc_id.as_str(), "doc1");
    assert_eq!(doc.kind, "note");
    assert_eq!(doc.current_frontier.get(&PeerId::new("1")), Some(10));
    assert_eq!(doc.current_snapshot_id, Some(plan.pending_id.0.clone()));
    assert_eq!(doc.updated_at, 99);
    let kept = installed_doc(&plan, Some("log".to_string()), Frontier::new(), 99);
    assert_eq!(kept.kind, "log");
}

#[test]
fn snapshot_that_does_not_hold_is_refused() {
    let text = |r: Result<(), CoreError>| r.unwrap_err().message();
    assert_eq!(
        text(check_install(b"abc", &Some(b"abd".to_vec()), SNAPSHOT_HASH)),
        "存储错误: 快照校验失败: blob_ok=false, hash_ok=true"
    );
    assert_eq!(
        text(check_install(b"abc", &Some(b"abc".to_vec()), "00")),
        "存储错误: 快照校验失败: blob_ok=true, hash_ok=false"
    );
    assert_eq!(
        text(check_install(b"abc", &None, "zz")),
        "存储错误: 快照校验失败: blob_ok=false, hash_ok=false"
    );
}

#[test]
fn only_pending_snapshots_are_replaced() {
    let pending = CheckpointId::new("__pending_1");
    let next = CheckpointId::new("__pending_2");
    assert_eq!(replaced_snapshot(Some(pending.clone()), &next), Some(pending));
    assert_eq!(replaced_snapshot(Some(CheckpointId::new("cp1")), &next), None);
    assert_eq!(replaced_snapshot(Some(CheckpointId::new("__pendin")), &next), None);
    assert_eq!(replaced_snapshot(None, &next), None);
}

#[test]
fn a_snapshot_installed_twice_stays() {
    let first = plan_install("d1", b"state", "", "Full").unwrap();
    let again = plan_install("d1", b"state", "", "Full").unwrap();
    assert_eq!(replaced_snapshot(Some(first.pending_id), &again.pending_id), None);
    let doc = installed_doc(&again, None, Frontier::new(), 1);
    assert_eq!(doc.current_snapshot_id.unwrap(), again.pending_id.0);
}

#[test]
fn rates_are_compared_as_numbers() {
    let rated = |id: &str, rate: f64| PeerRecord { success_bits: rate.to_bits(), ..peer(id) };
    let elected = |peers: Vec<PeerRecord>| best_anchor(&peers).unwrap().0;
    assert_eq!(elected(vec![rated("a", -1.0), rated("b", 0.25)]), "b");
    assert_eq!(elected(vec![rated("a", -1.0), rated("b", -2.0)]), "a");
    assert_eq!(elected(vec![rated("b", 0.0), rated("a", -0.0)]), "a");
    assert_eq!(elected(vec![rated("a", 0.0), rated("b", -0.0)]), "a");
    assert_eq!(elected(vec![rated("b", 0.9), rated("a", f64::NAN)]), "a");
    assert_eq!(elected(vec![rated("b", f64::INFINITY), rated("a", 1.0)]), "b");
}

fn frontier(n: u64) -> Frontier {
    let mut f = Frontier::new();
    f.set(PeerId::new("1"), n);
    f
}

#[test]
fn records_are_stored_and_read_back() {
    let doc = doc_of_row(row_of_doc(&DocRecord {
        doc_id: DocId::new("d"),
        kind: "note".to_string(),
        current_frontier: frontier(4),
        current_snapshot_id: Some("s".to_string()),
        updated_at: 12,
    }));
    assert_eq!(doc.doc_id, DocId::new("d"));
    assert_eq!(doc.kind, "note");
    assert_eq!(doc.current_frontier, frontier(4));
    assert_eq!(doc.current_snapshot_id.as_deref(), Some("s"));
    assert_eq!(doc.updated_at, 12);

    let ack = || AckSummary {
        peer_id: PeerId::new("p"),
        doc_id: DocId::new("d"),
        ack_checkpoint: Some(CheckpointId::new("c")),
        ack_frontier: frontier(9),
        updated_at: 3,
        version_override: Some(u32::MAX),
    };
    assert_eq!(ack_of_row(row_of_ack(&ack())), ack());

    let state = block_state_of_row(row_of_block_state(&BlockSyncStateRecord {
        doc_id: DocId::new("d"),
        block_id: BlockId::new("b"),
        peer_id: PeerId::new("p"),
        expected_frontier: frontier(2),
        observed_frontier: frontier(1),
        retry_after_ms: -7,
        updated_at: 3,
    }));
    assert_eq!(state.block_id, BlockId::new("b"));
    assert_eq!(state.expected_frontier, frontier(2));
    assert_eq!(state.observed_frontier, frontier(1));
    assert_eq!(state.retry_after_ms, -7);

    let checkpoint = checkpoint_of_row(row_of_checkpoint(&CheckpointRecord {
        doc_id: DocId::new("d"),
        checkpoint_id: CheckpointId::new("c"),
        shallow_snapshot_blob: vec![0, 1, 0],
        frontier: frontier(6),
        state_hash: [7; 32],
        created_at: -1,
    }));
    assert_eq!(checkpoint.shallow_snapshot_blob, vec![0, 1, 0]);
    assert_eq!(checkpoint.frontier, frontier(6));
    assert_eq!(checkpoint.state_hash, [7; 32]);
    assert_eq!(checkpoint.created_at, 0);

    let stats = stats_of_row(row_of_stats(&TransportStatsRecord {
        peer_id: PeerId::new("p"),
        channel: "quic".to_string(),
        success_bits: 0.5f64.to_bits(),
        avg_latency_ms: 20,
        updated_at: 8,
    }));
    assert_eq!(f64::from_bits(stats.success_bits), 0.5);
    assert_eq!(stats.channel, "quic");
    assert_eq!(stats.avg_latency_ms, 20);

    let entry = sync_log_of_row(row_of_sync_log(&SyncLogRecord {
        entry_id: "e".to_string(),
        doc_id: DocId::new("d"),
        delta_id: "x".to_string(),
        recipient_peer_id: PeerId::new("p"),
        delivered_at: Some(-4),
        acknowledged_at: None,
        channel: "ble".to_string(),
    }));
    assert_eq!(entry.entry_id, "e");
    assert_eq!(entry.recipient_peer_id, PeerId::new("p"));
    assert_eq!(entry.delivered_at, Some(0));
    assert_eq!(entry.acknowledged_at, None);
}

#[test]
fn rows_without_a_frontier_get_an_empty_one() {
    let mut row = row_of_doc(&DocRecord {
        doc_id: DocId::new("d"),
        kind: "note".to_string(),
        current_frontier: frontier(4),
        current_snapshot_id: None,
        updated_at: 12,
    });
    row.frontier = None;
    assert!(doc_of_row(row).current_frontier.is_empty());
}
