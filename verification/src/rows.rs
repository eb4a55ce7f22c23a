//! How records are stored as the rows of tables, and read from them.
//!
//! A frontier is stored as JSON. A row holds the frontier that was read, or none where the text
//! could not be read.

use vstd::prelude::*;

use crate::dao::{
    from_millis, state_hash_of, stored_hash, stored_millis, to_millis, BlockSyncStateRecord,
    CheckpointRecord, DocRecord, SyncLogRecord, TransportStatsRecord,
};
use crate::frontier::Frontier;
use crate::ids::{BlockId, CheckpointId, DocId, PeerId};
use crate::model::AckSummary;
use crate::octets::append_bytes;

verus! {

/// A row of the documents.
#[derive(Debug)]
pub struct DocRow {
    pub doc_id: String,
    pub kind: String,
    pub frontier: Option<Frontier>,
    pub snapshot_id: Option<String>,
    pub updated_at: i64,
}

/// A row of what peers have acknowledged.
#[derive(Debug)]
pub struct AckRow {
    pub peer_id: String,
    pub doc_id: String,
    pub checkpoint: Option<String>,
    pub frontier: Option<Frontier>,
    pub updated_at: i64,
    pub version_override: Option<i64>,
}

/// A row of how far blocks have come with peers.
#[derive(Debug)]
pub struct BlockStateRow {
    pub doc_id: String,
    pub block_id: String,
    pub peer_id: String,
    pub expected: Option<Frontier>,
    pub observed: Option<Frontier>,
    pub retry_after_ms: i64,
    pub updated_at: i64,
}

/// A row of the checkpoints.
#[derive(Debug)]
pub struct CheckpointRow {
    pub doc_id: String,
    pub checkpoint_id: String,
    pub blob: Vec<u8>,
    pub frontier: Option<Frontier>,
    pub state_hash: Vec<u8>,
    pub created_at: i64,
}

/// A row of how well the ways to peers work.
#[derive(Debug)]
pub struct StatsRow {
    pub peer_id: String,
    pub channel: String,
    /// The average success rate as the bits of its double-precision form.
    pub success_bits: u64,
    pub avg_latency_ms: i64,
    pub updated_at: i64,
}

/// A row of the changes on their way to peers.
#[derive(Debug)]
pub struct SyncLogRow {
    pub entry_id: String,
    pub doc_id: String,
    pub delta_id: String,
    pub recipient: String,
    pub delivered_at: Option<i64>,
    pub acknowledged_at: Option<i64>,
    pub channel: String,
}

/// Whether `f` is the frontier of a row: the one that was read, or an empty one.
pub open spec fn frontier_loaded(read: Option<Frontier>, f: Frontier) -> bool {
    match read {
        Some(g) => f == g,
        None => f.wf() && f@ == Map::<Seq<char>, u64>::empty(),
    }
}

/// Whether a row holds the frontier `f`.
pub open spec fn frontier_stored(f: Frontier, held: Option<Frontier>) -> bool {
    held matches Some(g) && (f.wf() ==> g.wf() && g@ == f@)
}

fn load_frontier(read: Option<Frontier>) -> (r: Frontier)
    ensures
        frontier_loaded(read, r),
{
    match read {
        Some(f) => f,
        None => Frontier::new(),
    }
}

/// An optional point in time as it is stored.
pub open spec fn stored_moment(t: Option<i64>) -> Option<i64> {
    match t {
        Some(ms) => Some(stored_millis(ms)),
        None => None,
    }
}

fn store_moment(t: Option<i64>) -> (r: Option<i64>)
    ensures
        r == stored_moment(t),
{
    match t {
        Some(ms) => Some(to_millis(ms)),
        None => None,
    }
}

fn load_moment(t: Option<i64>) -> (r: Option<i64>)
    ensures
        r == stored_moment(t),
{
    match t {
        Some(ms) => Some(from_millis(ms)),
        None => None,
    }
}

fn copy_text(t: &Option<String>) -> (r: Option<String>)
    ensures
        r == *t,
{
    match t {
        Some(s) => Some(s.clone()),
        None => None,
    }
}

/// Whether `row` is how a document is stored.
pub open spec fn doc_stored(rec: DocRecord, row: DocRow) -> bool {
    &&& row.doc_id@ == rec.doc_id@
    &&& row.kind == rec.kind
    &&& frontier_stored(rec.current_frontier, row.frontier)
    &&& row.snapshot_id == rec.current_snapshot_id
    &&& row.updated_at == stored_millis(rec.updated_at)
}

/// Whether `rec` is the document in a row.
pub open spec fn doc_loaded(row: DocRow, rec: DocRecord) -> bool {
    &&& rec.doc_id@ == row.doc_id@
    &&& rec.kind == row.kind
    &&& frontier_loaded(row.frontier, rec.current_frontier)
    &&& rec.current_snapshot_id == row.snapshot_id
    &&& rec.updated_at == stored_millis(row.updated_at)
}

/// How a document is stored.
pub fn row_of_doc(rec: &DocRecord) -> (r: DocRow)
    ensures
        doc_stored(*rec, r),
{
    DocRow {
        doc_id: rec.doc_id.0.clone(),
        kind: rec.kind.clone(),
        frontier: Some(rec.current_frontier.clone()),
        snapshot_id: copy_text(&rec.current_snapshot_id),
        updated_at: to_millis(rec.updated_at),
    }
}

/// The document in a row.
pub fn doc_of_row(row: DocRow) -> (r: DocRecord)
    ensures
        doc_loaded(row, r),
{
    DocRecord {
        doc_id: DocId(row.doc_id),
        kind: row.kind,
        current_frontier: load_frontier(row.frontier),
        current_snapshot_id: row.snapshot_id,
        updated_at: from_millis(row.updated_at),
    }
}

/// A number as the version that it stands for: its last 32 bits.
pub open spec fn version_of(n: Option<i64>) -> Option<u32> {
    match n {
        Some(v) => Some(v as u32),
        None => None,
    }
}

/// Whether `row` is how an acknowledgement is stored.
pub open spec fn ack_stored(ack: AckSummary, row: AckRow) -> bool {
    &&& row.peer_id@ == ack.peer_id@
    &&& row.doc_id@ == ack.doc_id@
    &&& match (ack.ack_checkpoint, row.checkpoint) {
        (Some(c), Some(s)) => s@ == c@,
        (None, None) => true,
        _ => false,
    }
    &&& frontier_stored(ack.ack_frontier, row.frontier)
    &&& row.updated_at == stored_millis(ack.updated_at)
    &&& row.version_override == (match ack.version_override {
        Some(v) => Some(v as i64),
        None => None,
    })
}

/// Whether `ack` is the acknowledgement in a row.
pub open spec fn ack_loaded(row: AckRow, ack: AckSummary) -> bool {
    &&& ack.peer_id@ == row.peer_id@
    &&& ack.doc_id@ == row.doc_id@
    &&& match (row.checkpoint, ack.ack_checkpoint) {
        (Some(s), Some(c)) => c@ == s@,
        (None, None) => true,
        _ => false,
    }
    &&& frontier_loaded(row.frontier, ack.ack_frontier)
    &&& ack.updated_at == stored_millis(row.updated_at)
    &&& ack.version_override == version_of(row.version_override)
}

/// How an acknowledgement is stored.
pub fn row_of_ack(ack: &AckSummary) -> (r: AckRow)
    ensures
        ack_stored(*ack, r),
{
    AckRow {
        peer_id: ack.peer_id.0.clone(),
        doc_id: ack.doc_id.0.clone(),
        checkpoint: match &ack.ack_checkpoint {
            Some(c) => Some(c.0.clone()),
            None => None,
        },
        frontier: Some(ack.ack_frontier.clone()),
        updated_at: to_millis(ack.updated_at),
        version_override: match ack.version_override {
            Some(v) => Some(v as i64),
            None => None,
        },
    }
}

/// The acknowledgement in a row.
pub fn ack_of_row(row: AckRow) -> (r: AckSummary)
    ensures
        ack_loaded(row, r),
{
    AckSummary {
        peer_id: PeerId(row.peer_id),
        doc_id: DocId(row.doc_id),
        ack_checkpoint: match row.checkpoint {
            Some(c) => Some(CheckpointId(c)),
            None => None,
        },
        ack_frontier: load_frontier(row.frontier),
        updated_at: from_millis(row.updated_at),
        version_override: match row.version_override {
            Some(v) => Some(#[verifier::truncate] (v as u32)),
            None => None,
        },
    }
}

/// Whether `row` is how the state of a block is stored.
pub open spec fn block_state_stored(rec: BlockSyncStateRecord, row: BlockStateRow) -> bool {
    &&& row.doc_id@ == rec.doc_id@
    &&& row.block_id@ == rec.block_id@
    &&& row.peer_id@ == rec.peer_id@
    &&& frontier_stored(rec.expected_frontier, row.expected)
    &&& frontier_stored(rec.observed_frontier, row.observed)
    &&& row.retry_after_ms == rec.retry_after_ms
    &&& row.updated_at == stored_millis(rec.updated_at)
}

/// Whether `rec` is the state of the block in a row.
pub open spec fn block_state_loaded(row: BlockStateRow, rec: BlockSyncStateRecord) -> bool {
    &&& rec.doc_id@ == row.doc_id@
    &&& rec.block_id@ == row.block_id@
    &&& rec.peer_id@ == row.peer_id@
    &&& frontier_loaded(row.expected, rec.expected_frontier)
    &&& frontier_loaded(row.observed, rec.observed_frontier)
    &&& rec.retry_after_ms == row.retry_after_ms
    &&& rec.updated_at == stored_millis(row.updated_at)
}

/// How the state of a block is stored.
pub fn row_of_block_state(rec: &BlockSyncStateRecord) -> (r: BlockStateRow)
    ensures
        block_state_stored(*rec, r),
{
    BlockStateRow {
        doc_id: rec.doc_id.0.clone(),
        block_id: rec.block_id.0.clone(),
        peer_id: rec.peer_id.0.clone(),
        expected: Some(rec.expected_frontier.clone()),
        observed: Some(rec.observed_frontier.clone()),
        retry_after_ms: rec.retry_after_ms,
        updated_at: to_millis(rec.updated_at),
    }
}

/// The state of the block in a row.
pub fn block_state_of_row(row: BlockStateRow) -> (r: BlockSyncStateRecord)
    ensures
        block_state_loaded(row, r),
{
    BlockSyncStateRecord {
        doc_id: DocId(row.doc_id),
        block_id: BlockId(row.block_id),
        peer_id: PeerId(row.peer_id),
        expected_frontier: load_frontier(row.expected),
        observed_frontier: load_frontier(row.observed),
        retry_after_ms: row.retry_after_ms,
        updated_at: from_millis(row.updated_at),
    }
}

/// Whether `row` is how a checkpoint is stored.
pub open spec fn checkpoint_stored(rec: CheckpointRecord, row: CheckpointRow) -> bool {
    &&& row.doc_id@ == rec.doc_id@
    &&& row.checkpoint_id@ == rec.checkpoint_id@
    &&& row.blob@ == rec.shallow_snapshot_blob@
    &&& frontier_stored(rec.frontier, row.frontier)
    &&& row.state_hash@ == rec.state_hash@
    &&& row.created_at == stored_millis(rec.created_at)
}

/// Whether `rec` is the checkpoint in a row.
pub open spec fn checkpoint_loaded(row: CheckpointRow, rec: CheckpointRecord) -> bool {
    &&& rec.doc_id@ == row.doc_id@
    &&& rec.checkpoint_id@ == row.checkpoint_id@
    &&& rec.shallow_snapshot_blob@ == row.blob@
    &&& frontier_loaded(row.frontier, rec.frontier)
    &&& rec.state_hash@ == stored_hash(row.state_hash@)
    &&& rec.created_at == stored_millis(row.created_at)
}

/// How a checkpoint is stored.
pub fn row_of_checkpoint(rec: &CheckpointRecord) -> (r: CheckpointRow)
    ensures
        checkpoint_stored(*rec, r),
{
    let mut blob: Vec<u8> = Vec::new();
    append_bytes(&mut blob, rec.shallow_snapshot_blob.as_slice());
    let mut state_hash: Vec<u8> = Vec::new();
    append_bytes(&mut state_hash, rec.state_hash.as_slice());
    assert(blob@ =~= rec.shallow_snapshot_blob@);
    assert(state_hash@ =~= rec.state_hash@);
    CheckpointRow {
        doc_id: rec.doc_id.0.clone(),
        checkpoint_id: rec.checkpoint_id.0.clone(),
        blob,
        frontier: Some(rec.frontier.clone()),
        state_hash,
        created_at: to_millis(rec.created_at),
    }
}

/// The checkpoint in a row.
pub fn checkpoint_of_row(row: CheckpointRow) -> (r: CheckpointRecord)
    ensures
        checkpoint_loaded(row, r),
{
    CheckpointRecord {
        doc_id: DocId(row.doc_id),
        checkpoint_id: CheckpointId(row.checkpoint_id),
        shallow_snapshot_blob: row.blob,
        frontier: load_frontier(row.frontier),
        state_hash: state_hash_of(row.state_hash.as_slice()),
        created_at: from_millis(row.created_at),
    }
}

/// Whether `row` is how the statistics of a way are stored.
pub open spec fn stats_stored(rec: TransportStatsRecord, row: StatsRow) -> bool {
    &&& row.peer_id@ == rec.peer_id@
    &&& row.channel == rec.channel
    &&& row.success_bits == rec.success_bits
    &&& row.avg_latency_ms == rec.avg_latency_ms
    &&& row.updated_at == stored_millis(rec.updated_at)
}

/// Whether `rec` is the statistics of the way in a row.
pub open spec fn stats_loaded(row: StatsRow, rec: TransportStatsRecord) -> bool {
    &&& rec.peer_id@ == row.peer_id@
    &&& rec.channel == row.channel
    &&& rec.success_bits == row.success_bits
    &&& rec.avg_latency_ms == row.avg_latency_ms
    &&& rec.updated_at == stored_millis(row.updated_at)
}

/// How the statistics of a way are stored.
pub fn row_of_stats(rec: &TransportStatsRecord) -> (r: StatsRow)
    ensures
        stats_stored(*rec, r),
{
    StatsRow {
        peer_id: rec.peer_id.0.clone(),
        channel: rec.channel.clone(),
        success_bits: rec.success_bits,
        avg_latency_ms: rec.avg_latency_ms,
        updated_at: to_millis(rec.updated_at),
    }
}

/// The statistics of the way in a row.
pub fn stats_of_row(row: StatsRow) -> (r: TransportStatsRecord)
    ensures
        stats_loaded(row, r),
{
    TransportStatsRecord {
        peer_id: PeerId(row.peer_id),
        channel: row.channel,
        success_bits: row.success_bits,
        avg_latency_ms: row.avg_latency_ms,
        updated_at: from_millis(row.updated_at),
    }
}

/// Whether `row` is how a change on its way is stored.
pub open spec fn sync_log_stored(rec: SyncLogRecord, row: SyncLogRow) -> bool {
    &&& row.entry_id == rec.entry_id
    &&& row.doc_id@ == rec.doc_id@
    &&& row.delta_id == rec.delta_id
    &&& row.recipient@ == rec.recipient_peer_id@
    &&& row.delivered_at == stored_moment(rec.delivered_at)
    &&& row.acknowledged_at == stored_moment(rec.acknowledged_at)
    &&& row.channel == rec.channel
}

/// Whether `rec` is the change on its way in a row.
pub open spec fn sync_log_loaded(row: SyncLogRow, rec: SyncLogRecord) -> bool {
    &&& rec.entry_id == row.entry_id
    &&& rec.doc_id@ == row.doc_id@
    &&& rec.delta_id == row.delta_id
    &&& rec.recipient_peer_id@ == row.recipient@
    &&& rec.delivered_at == stored_moment(row.delivered_at)
    &&& rec.acknowledged_at == stored_moment(row.acknowledged_at)
    &&& rec.channel == row.channel
}

/// How a change on its way is stored.
pub fn row_of_sync_log(rec: &SyncLogRecord) -> (r: SyncLogRow)
    ensures
        sync_log_stored(*rec, r),
{
    SyncLogRow {
        entry_id: rec.entry_id.clone(),
        doc_id: rec.doc_id.0.clone(),
        delta_id: rec.delta_id.clone(),
        recipient: rec.recipient_peer_id.0.clone(),
        delivered_at: store_moment(rec.delivered_at),
        acknowledged_at: store_moment(rec.acknowledged_at),
        channel: rec.channel.clone(),
    }
}

/// The change on its way in a row.
pub fn sync_log_of_row(row: SyncLogRow) -> (r: SyncLogRecord)
    ensures
        sync_log_loaded(row, r),
{
    SyncLogRecord {
        entry_id: row.entry_id,
        doc_id: DocId(row.doc_id),
        delta_id: row.delta_id,
        recipient_peer_id: PeerId(row.recipient),
        delivered_at: load_moment(row.delivered_at),
        acknowledged_at: load_moment(row.acknowledged_at),
        channel: row.channel,
    }
}

/// A document that was stored is read as it was, but for a time before the epoch, which is read
/// as the epoch.
pub proof fn law_doc_is_read_back(a: DocRecord, row: DocRow, b: DocRecord)
    requires
        a.current_frontier.wf(),
        doc_stored(a, row),
        doc_loaded(row, b),
    ensures
        b.doc_id@ == a.doc_id@,
        b.kind == a.kind,
        b.current_frontier@ == a.current_frontier@,
        b.current_snapshot_id == a.current_snapshot_id,
        b.updated_at == stored_millis(a.updated_at),
{
}

/// An acknowledgement that was stored is read as it was, but for a time before the epoch.
pub proof fn law_ack_is_read_back(a: AckSummary, row: AckRow, b: AckSummary)
    requires
        a.ack_frontier.wf(),
        ack_stored(a, row),
        ack_loaded(row, b),
    ensures
        b.peer_id@ == a.peer_id@,
        b.doc_id@ == a.doc_id@,
        (b.ack_checkpoint is Some) == (a.ack_checkpoint is Some),
        b.ack_checkpoint is Some ==> b.ack_checkpoint->Some_0@ == a.ack_checkpoint->Some_0@,
        b.ack_frontier@ == a.ack_frontier@,
        b.version_override == a.version_override,
        b.updated_at == stored_millis(a.updated_at),
{
    if let Some(v) = a.version_override {
        assert((v as i64) as u32 == v) by (bit_vector);
    }
}

/// The state of a block that was stored is read as it was, but for a time before the epoch.
pub proof fn law_block_state_is_read_back(
    a: BlockSyncStateRecord,
    row: BlockStateRow,
    b: BlockSyncStateRecord,
)
    requires
        a.expected_frontier.wf(),
        a.observed_frontier.wf(),
        block_state_stored(a, row),
        block_state_loaded(row, b),
    ensures
        b.doc_id@ == a.doc_id@,
        b.block_id@ == a.block_id@,
        b.peer_id@ == a.peer_id@,
        b.expected_frontier@ == a.expected_frontier@,
        b.observed_frontier@ == a.observed_frontier@,
        b.retry_after_ms == a.retry_after_ms,
        b.updated_at == stored_millis(a.updated_at),
{
}

/// A checkpoint that was stored is read as it was, but for a time before the epoch.
pub proof fn law_checkpoint_is_read_back(
    a: CheckpointRecord,
    row: CheckpointRow,
    b: CheckpointRecord,
)
    requires
        a.frontier.wf(),
        checkpoint_stored(a, row),
        checkpoint_loaded(row, b),
    ensures
        b.doc_id@ == a.doc_id@,
        b.checkpoint_id@ == a.checkpoint_id@,
        b.shallow_snapshot_blob@ == a.shallow_snapshot_blob@,
        b.frontier@ == a.frontier@,
        b.state_hash@ == a.state_hash@,
        b.created_at == stored_millis(a.created_at),
{
}

/// The statistics of a way that were stored are read as they were, but for a time before the
/// epoch.
pub proof fn law_stats_are_read_back(
    a: TransportStatsRecord,
    row: StatsRow,
    b: TransportStatsRecord,
)
    requires
        stats_stored(a, row),
        stats_loaded(row, b),
    ensures
        b.peer_id@ == a.peer_id@,
        b.channel == a.channel,
        b.success_bits == a.success_bits,
        b.avg_latency_ms == a.avg_latency_ms,
        b.updated_at == stored_millis(a.updated_at),
{
}

/// A change on its way that was stored is read as it was, but for times before the epoch.
pub proof fn law_sync_log_is_read_back(a: SyncLogRecord, row: SyncLogRow, b: SyncLogRecord)
    requires
        sync_log_stored(a, row),
        sync_log_loaded(row, b),
    ensures
        b.entry_id == a.entry_id,
        b.doc_id@ == a.doc_id@,
        b.delta_id == a.delta_id,
        b.recipient_peer_id@ == a.recipient_peer_id@,
        b.delivered_at == stored_moment(a.delivered_at),
        b.acknowledged_at == stored_moment(a.acknowledged_at),
        b.channel == a.channel,
{
}

/// A document that was stored is found by its identifier and read as it was, but for a time before the
/// epoch.
pub proof fn law_stored_document_is_read(a: &DocRecord, row: DocRow, b: DocRecord)
    requires
        a.current_frontier.wf(),
        call_ensures(row_of_doc, (a,), row),
        call_ensures(doc_of_row, (row,), b),
    ensures
        row.doc_id@ == a.doc_id@,
        row.kind == a.kind,
        b.doc_id@ == a.doc_id@,
        b.kind == a.kind,
        b.current_frontier@ == a.current_frontier@,
        b.current_snapshot_id == a.current_snapshot_id,
        a.updated_at >= 0 ==> b.updated_at == a.updated_at,
{
}

/// An acknowledgement that was stored is found by its peer and document and read as it was, but for a time
/// before the epoch.
pub proof fn law_stored_acknowledgement_is_read(a: &AckSummary, row: AckRow, b: AckSummary)
    requires
        a.ack_frontier.wf(),
        call_ensures(row_of_ack, (a,), row),
        call_ensures(ack_of_row, (row,), b),
    ensures
        row.peer_id@ == a.peer_id@ && row.doc_id@ == a.doc_id@,
        b.peer_id@ == a.peer_id@ && b.doc_id@ == a.doc_id@,
        b.ack_checkpoint is Some <==> a.ack_checkpoint is Some,
        a.ack_checkpoint matches Some(c) ==> b.ack_checkpoint->Some_0@ == c@,
        b.ack_frontier@ == a.ack_frontier@,
        b.version_override == a.version_override,
        a.updated_at >= 0 ==> b.updated_at == a.updated_at,
{
    law_ack_is_read_back(*a, row, b);
}

/// The state of a block that was stored is found by its document, block and peer and read as it was, but for
/// a time before the epoch.
pub proof fn law_stored_block_state_is_read(
    a: &BlockSyncStateRecord,
    row: BlockStateRow,
    b: BlockSyncStateRecord,
)
    requires
        a.expected_frontier.wf() && a.observed_frontier.wf(),
        call_ensures(row_of_block_state, (a,), row),
        call_ensures(block_state_of_row, (row,), b),
    ensures
        row.doc_id@ == a.doc_id@ && row.block_id@ == a.block_id@ && row.peer_id@ == a.peer_id@,
        b.doc_id@ == a.doc_id@ && b.block_id@ == a.block_id@ && b.peer_id@ == a.peer_id@,
        b.expected_frontier@ == a.expected_frontier@,
        b.observed_frontier@ == a.observed_frontier@,
        b.retry_after_ms == a.retry_after_ms,
        a.updated_at >= 0 ==> b.updated_at == a.updated_at,
{
}

/// A checkpoint that was stored is found by its document and identifier and read as it was, but for a time
/// before the epoch.
pub proof fn law_stored_checkpoint_is_read(
    a: &CheckpointRecord,
    row: CheckpointRow,
    b: CheckpointRecord,
)
    requires
        a.frontier.wf(),
        call_ensures(row_of_checkpoint, (a,), row),
        call_ensures(checkpoint_of_row, (row,), b),
    ensures
        row.doc_id@ == a.doc_id@ && row.checkpoint_id@ == a.checkpoint_id@,
        row.blob@ == a.shallow_snapshot_blob@ && row.state_hash@ == a.state_hash@,
        b.doc_id@ == a.doc_id@ && b.checkpoint_id@ == a.checkpoint_id@,
        b.shallow_snapshot_blob@ == a.shallow_snapshot_blob@,
        b.frontier@ == a.frontier@,
        b.state_hash@ == a.state_hash@,
        a.created_at >= 0 ==> b.created_at == a.created_at,
{
}

/// The statistics of a way that were stored are found by peer and channel and read as they were, but for a
/// time before the epoch.
pub proof fn law_stored_statistics_are_read(
    a: &TransportStatsRecord,
    row: StatsRow,
    b: TransportStatsRecord,
)
    requires
        call_ensures(row_of_stats, (a,), row),
        call_ensures(stats_of_row, (row,), b),
    ensures
        row.peer_id@ == a.peer_id@ && row.channel == a.channel,
        b.peer_id@ == a.peer_id@ && b.channel == a.channel,
        b.success_bits == a.success_bits,
        b.avg_latency_ms == a.avg_latency_ms,
        a.updated_at >= 0 ==> b.updated_at == a.updated_at,
{
}

/// A change on its way that was stored is found by its entry, and read as it was, but for times before the
/// epoch: delivered where it was delivered, and acknowledged where it was acknowledged.
pub proof fn law_stored_change_is_read(a: &SyncLogRecord, row: SyncLogRow, b: SyncLogRecord)
    requires
        call_ensures(row_of_sync_log, (a,), row),
        call_ensures(sync_log_of_row, (row,), b),
    ensures
        row.entry_id == a.entry_id && row.recipient@ == a.recipient_peer_id@,
        row.doc_id@ == a.doc_id@ && row.delta_id == a.delta_id,
        b.entry_id == a.entry_id && b.doc_id@ == a.doc_id@ && b.delta_id == a.delta_id,
        b.recipient_peer_id@ == a.recipient_peer_id@,
        b.channel == a.channel,
        b.delivered_at is Some <==> a.delivered_at is Some,
        a.delivered_at matches Some(t) ==> (t >= 0 ==> b.delivered_at == Some(t)),
        b.acknowledged_at is Some <==> a.acknowledged_at is Some,
        a.acknowledged_at matches Some(t) ==> (t >= 0 ==> b.acknowledged_at == Some(t)),
{
}

/// A frontier that could not be read is taken for one that knows nothing.
pub proof fn law_unreadable_frontier_knows_nothing(row: DocRow, b: DocRecord, k: Seq<char>)
    requires
        row.frontier is None,
        call_ensures(doc_of_row, (row,), b),
    ensures
        b.current_frontier.wf(),
        !b.current_frontier@.contains_key(k),
        b.doc_id@ == row.doc_id@,
{
}

} // verus!
