use std::time::{Duration, Instant};

use tacit::frame::{
    BatchFlag, ControlFrame, ControlType, DataFrameWire, DiscoveryFrame, FrameError, Tlv,
};
use tacit::frontier::{Frontier, FrontierOps};
use tacit::hlc::{Hlc, LocalSeq};
use tacit::ids::{BlockId, DocId, PeerId, SessionId};
use tacit::model::{AnchorCapabilities, DataFrameKind};
use tacit::presence::{PresenceEntry, PresenceRegistry, PresenceState};
use tacit::telemetry::{ChannelStats, TelemetryCollector};
use tacit::version::{negotiate, NegotiationResult, ProtocolVersion};

fn p(s: &str) -> PeerId {
    PeerId(s.into())
}

fn pass_time(d: Duration) {
    let start = Instant::now();
    while start.elapsed() < d {}
}

#[test]
fn discovery_frame_roundtrip() {
    let caps = AnchorCapabilities { can_anchor: true, can_relay: false, persistent: true };
    let frame = DiscoveryFrame::from_presence("group1", "device1", caps);
    let encoded = frame.encode();
    let decoded = DiscoveryFrame::decode(&encoded).unwrap();
    assert_eq!(frame, decoded);
    assert_eq!(decoded.capabilities(), caps);
}

#[test]
fn discovery_frame_bad_magic() {
    let mut data = vec![0x00, 0x00];
    data.extend_from_slice(&[0u8; 17]);
    assert_eq!(DiscoveryFrame::decode(&data).unwrap_err(), FrameError::BadMagic);
}

#[test]
fn discovery_frame_checksum_mismatch() {
    let caps = AnchorCapabilities::default();
    let mut frame = DiscoveryFrame::from_presence("g", "d", caps);
    frame.checksum = frame.checksum.wrapping_add(1);
    let encoded = frame.encode();
    assert_eq!(DiscoveryFrame::decode(&encoded).unwrap_err(), FrameError::ChecksumMismatch);
}

#[test]
fn control_frame_roundtrip() {
    let payload = Tlv::encode(ControlType::AckSummary.as_u8(), b"ack_data");
    let frame = ControlFrame::new(ControlType::AckSummary, 12345, payload);
    let encoded = frame.encode();
    let decoded = ControlFrame::decode(&encoded).unwrap();
    assert_eq!(frame, decoded);
}

#[test]
fn data_frame_roundtrip() {
    let doc_id = DocId::new("doc1");
    let actor_id = PeerId::new("42");
    let payload = b"hello world".to_vec();
    let frame = DataFrameWire::new(
        &doc_id,
        &actor_id,
        99,
        DataFrameKind::Delta,
        payload,
        BatchFlag::BatchStart,
        [0u8; 8],
    );
    let encoded = frame.encode();
    let decoded = DataFrameWire::decode(&encoded).unwrap();
    assert_eq!(frame, decoded);
    assert_eq!(decoded.batch_flag(), BatchFlag::BatchStart);
}

#[test]
fn data_frame_names_document_and_sender_in_hexadecimal() {
    let frame = DataFrameWire::new(
        &DocId::new("doc-a"),
        &p("actor-1"),
        7,
        DataFrameKind::SnapshotChunk,
        b"abc".to_vec(),
        BatchFlag::Single,
        [9u8; 8],
    );
    let encoded = frame.encode();
    let seen = frame.to_data_frame();
    assert_eq!(seen.doc_id.as_str(), hex::encode(&encoded[4..12]));
    assert_eq!(seen.actor_id.as_str(), hex::encode(&encoded[12..20]));
    assert_eq!(seen.seq, 7);
    assert_eq!(seen.kind, DataFrameKind::SnapshotChunk);
    assert_eq!(seen.payload, b"abc");
    assert_eq!(seen.session_id, SessionId(0));
}

#[test]
fn tlv_encode_decode() {
    let entries = vec![(1u8, b"hello".to_vec()), (2u8, b"world".to_vec())];
    let encoded = Tlv::encode_all(&entries);
    let decoded = Tlv::decode_all(&encoded).unwrap();
    assert_eq!(decoded, entries);
}

#[test]
fn batch_flag_from_flags() {
    assert_eq!(BatchFlag::from_flags(0b00), BatchFlag::Single);
    assert_eq!(BatchFlag::from_flags(0b01), BatchFlag::BatchStart);
    assert_eq!(BatchFlag::from_flags(0b10), BatchFlag::BatchMiddle);
    assert_eq!(BatchFlag::from_flags(0b11), BatchFlag::BatchEnd);
    assert_eq!(BatchFlag::from_flags(0b1100), BatchFlag::Single);
}

#[test]
fn frames_are_refused_for_what_is_wrong_with_them() {
    assert_eq!(DiscoveryFrame::decode(&[0x54]).unwrap_err(), FrameError::TooShort);
    let mut frame = DiscoveryFrame::from_presence("g", "d", AnchorCapabilities::default());
    frame.version = 9;
    assert_eq!(DiscoveryFrame::decode(&frame.encode()).unwrap().version, 9);

    let control = ControlFrame::new(ControlType::AckSummary, 1, vec![1, 2, 3]);
    let mut bytes = control.encode();
    assert_eq!(&bytes[..2], &[0x54, 0x43]);
    bytes[0] = 0;
    assert_eq!(ControlFrame::decode(&bytes).unwrap_err(), FrameError::BadMagic);
    assert_eq!(ControlFrame::decode(&[]).unwrap_err(), FrameError::TooShort);
    assert_eq!(FrameError::UnknownControlType(200).message(), "未知控制类型: 200");
    assert_eq!(FrameError::VersionMismatch(9).message(), "版本不兼容: 9");
    assert_eq!(Tlv::decode_all(&[1]).unwrap_err(), FrameError::TooShort);
    assert_eq!(Tlv::decode_all(&[]).unwrap(), vec![]);
}

#[test]
fn merge_takes_max() {
    let mut a = Frontier::from_iter(vec![(p("a"), 3), (p("b"), 1)]);
    let b = Frontier::from_iter(vec![(p("b"), 5), (p("c"), 2)]);
    a.merge(&b);
    assert_eq!(a.get(&p("a")), Some(3));
    assert_eq!(a.get(&p("b")), Some(5));
    assert_eq!(a.get(&p("c")), Some(2));
}

#[test]
fn covers_and_missing() {
    let a = Frontier::from_iter(vec![(p("a"), 5), (p("b"), 2)]);
    let b = Frontier::from_iter(vec![(p("a"), 3), (p("b"), 2), (p("c"), 1)]);
    assert!(!a.covers(&b));
    let missing = a.missing_against(&b);
    assert_eq!(missing, vec![(p("c"), 1)]);

    let c = Frontier::from_iter(vec![(p("a"), 10)]);
    let d = Frontier::from_iter(vec![(p("a"), 5)]);
    assert!(c.covers(&d));
}

#[test]
fn frontiers_merge_in_any_order_and_cover_both() {
    let a = Frontier::from_iter(vec![(p("a"), 3), (p("b"), 1)]);
    let b = Frontier::from_iter(vec![(p("b"), 5), (p("c"), 2)]);
    let mut ab = a.clone();
    ab.merge(&b);
    let mut ba = b.clone();
    ba.merge(&a);
    assert!(ab.same(&ba));
    assert!(ab.covers(&a) && ab.covers(&b));
    assert!(ab.missing_against(&a).is_empty());
    let again = ab.clone();
    ab.merge(&again);
    assert!(ab.same(&again));
    assert_eq!(ab.to_canonical_string(), "a:3,b:5,c:2");
    assert!(Frontier::new().is_empty());
    assert_eq!(Frontier::new().to_canonical_string(), "");
}

#[test]
fn set_never_lowers() {
    let mut f = Frontier::new();
    f.set(p("x"), 7);
    f.set(p("x"), 3);
    assert_eq!(f.get(&p("x")), Some(7));
    assert_eq!(f.entries(), vec![("x", 7)]);
}

#[test]
fn tick_increments_logical() {
    let mut hlc = Hlc::zero();
    let t1 = hlc.tick();
    let t2 = hlc.tick();
    assert!(t2 >= t1);
    assert!(t2.logical >= t1.logical);
}

#[test]
fn receive_merges_remote() {
    let mut local = Hlc::from_millis(1000);
    let remote = Hlc::from_millis(2000);
    let merged = local.receive(&remote);
    assert!(merged.physical_ms >= 2000);
}

#[test]
fn receive_same_physical_increments_logical() {
    let fixed_ms = 1_000_000_000;
    let mut local = Hlc { physical_ms: fixed_ms, logical: 3 };
    let remote = Hlc { physical_ms: fixed_ms, logical: 5 };
    let merged = local.receive(&remote);
    assert!(merged.logical > 5);
}

#[test]
fn compact_roundtrip() {
    let hlc = Hlc { physical_ms: 123456, logical: 42 };
    let compact = hlc.to_compact();
    let restored = Hlc::from_compact(compact);
    assert_eq!(hlc, restored);
}

#[test]
fn compact_roundtrip_large_logical() {
    let hlc = Hlc { physical_ms: 123456, logical: 100_000 };
    let compact = hlc.to_compact();
    let restored = Hlc::from_compact(compact);
    assert_eq!(hlc, restored, "logical 应完整保留，不应被截断");
}

#[test]
fn compact_roundtrip_max_logical() {
    let hlc = Hlc { physical_ms: 1_700_000_000_000, logical: 0xFFFFF };
    let compact = hlc.to_compact();
    let restored = Hlc::from_compact(compact);
    assert_eq!(hlc, restored);
}

#[test]
fn local_seq_next() {
    let mut seq = LocalSeq::new();
    assert_eq!(seq.next(), 1);
    assert_eq!(seq.next(), 2);
    assert_eq!(seq.current(), 2);
    assert!(seq.is_duplicate(1));
    assert!(!seq.is_duplicate(3));
}

#[test]
fn ordering() {
    let a = Hlc { physical_ms: 1000, logical: 0 };
    let b = Hlc { physical_ms: 1000, logical: 1 };
    let c = Hlc { physical_ms: 2000, logical: 0 };
    assert!(a < b);
    assert!(b < c);
}

#[test]
fn ticks_at_given_times_only_go_forward() {
    let mut h = Hlc::from_millis(1000);
    let a = h.tick_at(1000);
    let b = h.tick_at(500);
    let c = h.tick_at(2000);
    assert!(a < b && b < c);
    assert_eq!(c.physical_ms, 2000);
    assert!(a.to_compact() < b.to_compact() && b.to_compact() < c.to_compact());
}

#[test]
fn update_and_get() {
    let mut reg = PresenceRegistry::default();
    let peer = PeerId::new("1");
    reg.update(
        peer.clone(),
        PresenceState::Editing { doc_id: DocId::new("d1"), block_id: BlockId::new("b1") },
    );
    let state = reg.get(&peer).unwrap();
    assert!(matches!(state, PresenceState::Editing { .. }));
}

#[test]
fn remove_clears_presence() {
    let mut reg = PresenceRegistry::default();
    let peer = PeerId::new("1");
    reg.update(peer.clone(), PresenceState::Online);
    assert_eq!(reg.online_count(), 1);
    reg.remove(&peer);
    assert_eq!(reg.online_count(), 0);
}

#[test]
fn gc_removes_expired() {
    let mut reg = PresenceRegistry::new(1);
    let peer = PeerId::new("1");
    reg.update(peer.clone(), PresenceState::Online);
    pass_time(Duration::from_millis(10));
    reg.gc();
    assert_eq!(reg.online_count(), 0);
    assert!(reg.get(&peer).is_none());
}

#[test]
fn list_active_excludes_expired() {
    let mut reg = PresenceRegistry::new(1);
    reg.update(PeerId::new("1"), PresenceState::Online);
    pass_time(Duration::from_millis(10));
    let active = reg.list_active();
    assert!(active.is_empty());
}

#[test]
fn presence_at_given_times() {
    let mut reg = PresenceRegistry::new(1000);
    reg.update_at(p("a"), PresenceState::Online, 1000, 5_000);
    reg.update_at(p("b"), PresenceState::Custom("away".into()), 100, 5_000);
    assert_eq!(reg.online_count_at(5_100), 2);
    assert_eq!(reg.online_count_at(5_101), 1);
    assert_eq!(reg.list_active_at(6_000).len(), 1);
    assert_eq!(reg.online_count_at(6_001), 0);
    reg.gc_at(5_500);
    assert_eq!(reg.online_count_at(5_000), 1);
}

#[test]
fn presence_lasts_longer_when_asked_or_refreshed() {
    let mut reg = PresenceRegistry::new(1);
    reg.update_with_ttl(p("a"), PresenceState::Online, 60_000);
    pass_time(Duration::from_millis(10));
    assert_eq!(reg.online_count(), 1);

    let mut entry = PresenceEntry::new_at(p("b"), PresenceState::Online, 100, 1_000);
    assert!(!entry.is_expired(1_100));
    assert!(entry.is_expired(1_101));
    entry.refresh_at(1_100);
    assert!(!entry.is_expired(1_101));
    entry.refresh();
    assert!(entry.created_at > 1_101);
    assert!(entry.is_expired(1_101));
    assert!(!entry.is_expired(entry.created_at + 100));
}

#[test]
fn newer_versions() {
    let v = ProtocolVersion::new(1, 5);
    assert!(v.is_newer_than(&ProtocolVersion::new(1, 4)));
    assert!(!v.is_newer_than(&ProtocolVersion::new(1, 5)));
    assert!(!v.is_newer_than(&ProtocolVersion::new(2, 0)));
    assert!(!ProtocolVersion::new(2, 0).is_newer_than(&v));
    assert_eq!(v.to_string(), "1.5");
}

#[test]
fn compatible_versions() {
    let v1 = ProtocolVersion::new(1, 0);
    let v2 = ProtocolVersion::new(1, 5);
    assert!(v1.is_compatible(&v2));
}

#[test]
fn incompatible_versions() {
    let v1 = ProtocolVersion::new(1, 0);
    let v2 = ProtocolVersion::new(2, 0);
    assert!(!v1.is_compatible(&v2));
}

#[test]
fn negotiate_success() {
    let local = AnchorCapabilities { can_anchor: true, can_relay: true, persistent: true };
    let remote = AnchorCapabilities { can_anchor: true, can_relay: false, persistent: true };
    let result = negotiate(ProtocolVersion::current(), ProtocolVersion::current(), local, remote);
    match result {
        NegotiationResult::Agreed(caps) => {
            assert!(caps.effective.can_anchor);
            assert!(!caps.effective.can_relay);
            assert!(caps.effective.persistent);
        }
        _ => panic!("期望协商成功"),
    }
}

#[test]
fn negotiate_version_mismatch() {
    let result = negotiate(
        ProtocolVersion::new(1, 0),
        ProtocolVersion::new(2, 0),
        AnchorCapabilities::default(),
        AnchorCapabilities::default(),
    );
    assert!(matches!(result, NegotiationResult::VersionMismatch { .. }));
}

fn averaged(stats: &ChannelStats, success: bool, latency_ms: f64, alpha: f64) -> (u64, u64) {
    let old_rate = f64::from_bits(stats.success_bits);
    let old_latency = f64::from_bits(stats.latency_bits);
    let value = if success { 1.0 } else { 0.0 };
    (
        (alpha * value + (1.0 - alpha) * old_rate).to_bits(),
        (alpha * latency_ms + (1.0 - alpha) * old_latency).to_bits(),
    )
}

#[test]
fn collector_records_and_snapshots() {
    let mut collector = TelemetryCollector::new();
    let stats = collector.channel_stats("quic");
    let (rate, latency) = averaged(&stats, true, 50.0, 0.3);
    collector.record_transport("quic", true, rate, latency, 1);
    let stats = collector.channel_stats("quic");
    let (rate, latency) = averaged(&stats, false, 100.0, 0.3);
    collector.record_transport("quic", false, rate, latency, 2);
    collector.set_sync_lag(10, 30);
    collector.set_backlog(5, 2);
    collector.set_anchor(Some(PeerId::new("anchor1")), true);

    let snap = collector.snapshot();
    assert_eq!(snap.sync_lag.seq_lag, 10);
    assert_eq!(snap.backlog.pending_actions, 5);
    assert!(snap.anchor_online);
    assert_eq!(snap.anchor_peer.as_deref(), Some("anchor1"));
    assert_eq!(snap.channels.len(), 1);
    let (name, quic) = &snap.channels[0];
    assert_eq!(name, "quic");
    assert_eq!(quic.total_sent, 2);
    assert_eq!(quic.total_success, 1);
    assert_eq!(quic.updated_at, Some(2));
    assert!((f64::from_bits(quic.success_bits) - 0.21).abs() < 0.01);
}
