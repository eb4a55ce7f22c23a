//! The data that the parts of the library share.
//!
//! Times are milliseconds since the Unix epoch.

use vstd::prelude::*;
use vstd::string::*;

use crate::frontier::Frontier;
use crate::ids::{BlockId, CheckpointId, DocId, PeerId, SessionId};
use crate::text::{decimal, push_decimal};

verus! {

/// The kinds of block.
#[derive(Debug, Clone, Copy, PartialEq, Eq, Hash, Structural)]
pub enum BlockKind {
    Text,
    Todo,
    Settings,
    /// A log that is only appended to.
    Log,
}

/// How far a peer is trusted.
#[derive(Debug, Clone, Copy, PartialEq, Eq, Hash, Structural)]
pub enum TrustState {
    /// Paired.
    Trusted,
    /// Pairing is under way.
    Pending,
    Revoked,
}

/// The kind of network at hand.
#[derive(Debug, Clone, Copy, PartialEq, Eq, Hash, Structural)]
pub enum NetworkType {
    Offline,
    Lan,
    Wan,
}

/// How urgent a message is.
#[derive(Debug, Clone, Copy, PartialEq, Eq, Hash, Structural)]
pub enum Priority {
    /// Input in the foreground, small changes to active blocks, the block list.
    High,
    /// Acknowledgements, control messages, settings.
    Medium,
    /// Checkpoints and catching up on cold documents.
    Low,
}

/// What a peer's network address translation lets through.
#[derive(Debug, Clone, Copy, PartialEq, Eq, Hash, Structural)]
pub enum NatCapability {
    Direct,
    /// Outgoing connections only.
    Cone,
    /// Only through a relay.
    Symmetric,
    Unknown,
}

/// What a device can do for the others.
#[derive(Debug, Clone, Copy, PartialEq, Eq, Structural)]
pub struct AnchorCapabilities {
    pub can_anchor: bool,
    pub can_relay: bool,
    /// Whether the device is always on.
    pub persistent: bool,
}

impl Default for AnchorCapabilities {
    fn default() -> (r: Self)
        ensures
            r == (AnchorCapabilities { can_anchor: false, can_relay: false, persistent: false }),
    {
        AnchorCapabilities { can_anchor: false, can_relay: false, persistent: false }
    }
}

/// A host name or address, and a port.
#[derive(Debug, PartialEq, Eq, Hash)]
pub struct Endpoint {
    pub host: String,
    pub port: u16,
}

impl Clone for Endpoint {
    fn clone(&self) -> (r: Self)
        ensures
            r == *self,
    {
        Endpoint { host: self.host.clone(), port: self.port }
    }
}

impl Endpoint {
    pub fn new(host: &str, port: u16) -> (r: Self)
        ensures
            r.host@ == host@,
            r.port == port,
    {
        Endpoint { host: host.to_owned(), port }
    }

    /// The endpoint as text: host, a colon, the port.
    pub fn to_string(&self) -> (r: String)
        ensures
            r@ == self.host@ + ":"@ + decimal(self.port as nat),
    {
        let mut out = self.host.clone();
        out.append(":");
        push_decimal(&mut out, self.port as u64);
        out
    }
}

/// A range of ports, both ends within it.
#[derive(Debug, Clone, Copy, PartialEq, Eq, Structural)]
pub struct PortRange {
    pub start: u16,
    pub end: u16,
}

/// Which ports to try.
#[derive(Debug, Clone, Copy, PartialEq, Eq, Structural)]
pub enum PortHint {
    Exact(u16),
    Range(PortRange),
}

/// Which way to send first.
#[derive(Debug, Clone, Copy, PartialEq, Eq, Hash, Structural)]
pub enum PathHint {
    Ble,
    LanQuic,
    WanQuic,
    Relay,
}

/// What a device announces of itself.
#[derive(Debug, Clone, PartialEq, Eq)]
pub struct PresenceHint {
    pub group_id: String,
    pub device_id: String,
    pub capabilities: AnchorCapabilities,
    pub endpoint: Option<Endpoint>,
}

/// A known peer.
#[derive(Debug, Clone, PartialEq, Eq)]
pub struct PeerRecord {
    pub peer_id: PeerId,
    /// The device's public key, in hexadecimal.
    pub device_pubkey: String,
    pub capabilities: AnchorCapabilities,
    pub trust_state: TrustState,
    pub anchor_priority: i32,
    pub last_seen_at: i64,
    pub last_endpoint: Option<Endpoint>,
    pub nat_capability: NatCapability,
    pub relay_hint: Option<PeerId>,
    /// The average success rate as the bits of its double-precision form. Rates are not
    /// negative, so that the bits are ordered as the rates are.
    pub success_bits: u64,
    /// Grows by one with each key rotation.
    pub rotation_seq: u64,
}

/// Whether a peer is online, and how far it has come.
#[derive(Debug, Clone, PartialEq, Eq)]
pub struct PeerSummary {
    pub peer_id: PeerId,
    pub online: bool,
    pub frontier: Frontier,
    pub capabilities: AnchorCapabilities,
}

/// What a peer acknowledges of a document.
#[derive(Debug, Clone, PartialEq, Eq)]
pub struct AckSummary {
    pub peer_id: PeerId,
    pub doc_id: DocId,
    pub ack_checkpoint: Option<CheckpointId>,
    pub ack_frontier: Frontier,
    pub updated_at: i64,
    pub version_override: Option<u32>,
}

/// Up to where history may be dropped.
#[derive(Debug, Clone, PartialEq, Eq)]
pub struct Watermarks {
    /// What all active devices cover.
    pub hard_frontier: Frontier,
    /// What remains once devices that stayed away too long are left out.
    pub soft_frontier: Frontier,
}

impl Default for Watermarks {
    fn default() -> (r: Self)
        ensures
            r.hard_frontier@ == Map::<Seq<char>, u64>::empty(),
            r.soft_frontier@ == Map::<Seq<char>, u64>::empty(),
            r.hard_frontier.wf(),
            r.soft_frontier.wf(),
    {
        Watermarks { hard_frontier: Frontier::new(), soft_frontier: Frontier::new() }
    }
}

/// An edit made by the user.
#[derive(Debug, Clone, PartialEq, Eq)]
pub struct UserEdit {
    pub doc_id: DocId,
    pub block_id: BlockId,
    pub edit_bytes: Vec<u8>,
}

/// What a local edit led to.
#[derive(Debug, Clone, PartialEq, Eq)]
pub struct ApplyResult {
    pub new_frontier: Frontier,
    pub has_delta: bool,
}

/// What an import led to.
#[derive(Debug, Clone, PartialEq, Eq)]
pub struct ImportResult {
    pub new_frontier: Frontier,
    /// False where everything imported was known.
    pub changed: bool,
}

/// A change on its way to other devices.
#[derive(Debug, Clone, PartialEq, Eq)]
pub struct ChangeEnvelope {
    pub doc_id: DocId,
    pub block_id: Option<BlockId>,
    pub delta: Vec<u8>,
    pub frontier: Frontier,
}

/// What a data frame carries.
#[derive(Debug, Clone, Copy, PartialEq, Eq, Hash, Structural)]
pub enum DataFrameKind {
    Delta,
    /// Part of a shallow snapshot.
    SnapshotChunk,
    /// A frame in the middle of a signed batch.
    BatchMiddle,
}

/// A data frame as the synchronisation layer sees it.
#[derive(Debug, Clone, PartialEq, Eq)]
pub struct DataFrame {
    pub doc_id: DocId,
    pub actor_id: PeerId,
    pub seq: u32,
    pub kind: DataFrameKind,
    pub payload: Vec<u8>,
    pub session_id: SessionId,
}

/// The kinds of snapshot.
#[derive(Debug, Clone, Copy, PartialEq, Eq, Hash, Structural)]
pub enum SnapshotKind {
    Full,
    /// Without history, for compaction and for new devices.
    Shallow,
}

/// What is known of a stored snapshot.
#[derive(Debug, Clone, PartialEq, Eq)]
pub struct SnapshotMeta {
    pub doc_id: DocId,
    pub checkpoint_id: CheckpointId,
    pub kind: SnapshotKind,
    pub frontier: Frontier,
    pub state_hash: [u8; 32],
    pub created_at: i64,
}

/// One part of a snapshot in transit.
#[derive(Debug, Clone, PartialEq, Eq)]
pub struct SnapshotChunk {
    pub checkpoint_id: CheckpointId,
    pub index: u32,
    pub total: u32,
    pub data: Vec<u8>,
}

/// The blocks in sight.
#[derive(Debug, Clone, Copy, PartialEq, Eq, Structural)]
pub struct Viewport {
    pub start_block: usize,
    pub block_count: usize,
}

/// An entry of a document's block list.
#[derive(Debug, PartialEq, Eq)]
pub struct BlockRecord {
    pub block_id: BlockId,
    pub kind: BlockKind,
    pub deleted: bool,
    pub updated_at: i64,
}

impl Clone for BlockRecord {
    fn clone(&self) -> (r: Self)
        ensures
            r == *self,
    {
        BlockRecord {
            block_id: self.block_id.clone(),
            kind: self.kind,
            deleted: self.deleted,
            updated_at: self.updated_at,
        }
    }
}

/// A document as the user interface reads it.
#[derive(Debug, Clone, PartialEq, Eq)]
pub struct DocumentView {
    pub doc_id: DocId,
    pub blocks: Vec<BlockRecord>,
    pub frontier: Frontier,
}

/// What the user interface needs to draw the blocks in sight.
#[derive(Debug, Clone, PartialEq, Eq)]
pub struct RenderModel {
    pub doc_id: DocId,
    pub blocks: Vec<BlockRender>,
}

/// What the user interface needs to draw one block.
#[derive(Debug, Clone, PartialEq, Eq)]
pub struct BlockRender {
    pub block_id: BlockId,
    pub kind: BlockKind,
    pub render_bytes: Vec<u8>,
}

/// An endpoint has the host and port that it was made of, and is written with a colon between them.
pub proof fn law_endpoint_is_written(host: &str, port: u16, e: Endpoint, text: String)
    requires
        call_ensures(Endpoint::new, (host, port), e),
        call_ensures(Endpoint::to_string, (&e,), text),
    ensures
        e.host@ == host@ && e.port == port,
        text@.len() > host@.len(),
        text@.take(host@.len() as int) == host@,
        text@[host@.len() as int] == ':',
        crate::text::digits_value(text@.skip((host@.len() + 1) as int)) == port,
{
    reveal_strlit(":");
    crate::text::lemma_decimal_value(port as nat);
    assert(":"@ =~= seq![':']);
    assert(text@.take(host@.len() as int) =~= host@);
    assert(text@.skip((host@.len() + 1) as int) =~= decimal(port as nat));
}

} // verus!
