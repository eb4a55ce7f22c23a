//! What passes between the synchronisation engine, the session and the transport.

use vstd::prelude::*;

use crate::event::CoreEvent;
use crate::frontier::Frontier;
use crate::ids::{BlockId, DocId, PeerId};
use crate::model::{AckSummary, AnchorCapabilities, DataFrame, Priority};

verus! {

/// The way a sender prefers.
#[derive(Debug, Clone, Copy, PartialEq, Eq, Hash, Structural)]
pub enum PathPreference {
    Any,
    Ble,
    LanQuic,
    WanQuic,
    Relay,
}

/// What a peer announces of itself.
#[derive(Debug, Clone, PartialEq, Eq)]
pub struct CapabilityAnnounce {
    pub peer_id: PeerId,
    pub frontier: Frontier,
    pub capabilities: AnchorCapabilities,
}

/// A request for changes that the sender lacks.
#[derive(Debug, Clone, PartialEq, Eq)]
pub struct NeedRanges {
    pub doc_id: DocId,
    /// Where absent, the block list is asked for.
    pub block_id: Option<String>,
    /// What the sender has. Where empty, a snapshot is asked for.
    pub since: Frontier,
}

/// A trusted peer vouches for another.
#[derive(Debug, Clone, PartialEq, Eq)]
pub struct IntroduceMsg {
    pub introducer: PeerId,
    /// The rest of the message, as the engine reads it.
    pub body: Vec<u8>,
}

/// A peer leaves or is put out.
#[derive(Debug, Clone, PartialEq, Eq)]
pub struct RevokeMsg {
    pub revoker: PeerId,
    pub revoked_peer: PeerId,
    pub reason: String,
}

/// A peer changes its key.
#[derive(Debug, Clone, PartialEq, Eq)]
pub struct KeyRotateMsg {
    pub peer_id: PeerId,
    /// The rest of the message, as the engine reads it.
    pub body: Vec<u8>,
}

/// Hints of a peer on how to reach it.
#[derive(Debug, Clone, PartialEq, Eq)]
pub struct HintsMsg {
    pub peer_id: PeerId,
    /// The rest of the message, as the transport reads it.
    pub body: Vec<u8>,
}

/// A control message.
#[derive(Debug, Clone, PartialEq, Eq)]
pub enum ControlMsg {
    Capabilities(CapabilityAnnounce),
    KnownCheckpoint { peer_id: PeerId, body: Vec<u8> },
    AckSummary(AckSummary),
    NeedRanges(NeedRanges),
    SyncIntent { peer_id: PeerId, body: Vec<u8> },
    TransportHints(HintsMsg),
    RelayHints(HintsMsg),
    Introduce(IntroduceMsg),
    Revoke(RevokeMsg),
    KeyRotate(KeyRotateMsg),
}

/// What the engine wants done.
#[derive(Debug, Clone, PartialEq, Eq)]
pub enum SyncAction {
    SendData {
        peer_id: PeerId,
        doc_id: DocId,
        block_id: Option<BlockId>,
        bytes: Vec<u8>,
        priority: Priority,
        path: PathPreference,
        /// The entry of the store-and-forward queue that this action redelivers.
        entry_id: Option<String>,
    },
    SendControl { peer_id: PeerId, msg: ControlMsg, priority: Priority },
    RequestDelta {
        peer_id: PeerId,
        doc_id: DocId,
        block_id: Option<BlockId>,
        since: Frontier,
        priority: Priority,
    },
    EmitEvent(CoreEvent),
}

/// What the transport reports.
#[derive(Debug, Clone, PartialEq, Eq)]
pub enum TransportEvent {
    PeerOnline { peer_id: PeerId },
    PeerOffline { peer_id: PeerId },
    Data { peer_id: PeerId, frame: DataFrame },
    Control { peer_id: PeerId, msg: ControlMsg },
    NetworkChanged { online: bool },
    DocSynced { peer_id: PeerId, doc_id: DocId },
}

} // verus!
