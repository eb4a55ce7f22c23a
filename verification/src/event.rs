//! What the library reports to the platform.

use vstd::prelude::*;

use crate::ids::{BlockId, DocId, PeerId};

verus! {

/// Why a synchronisation began.
#[derive(Debug, Clone, Copy, PartialEq, Eq, Hash, Structural)]
pub enum SyncReason {
    UserForeground,
    /// The network came back.
    FastResume,
    PeerOnline,
    Heartbeat,
    GapDetected,
}

/// How far a synchronisation has come.
#[derive(Debug, Clone, Copy, PartialEq, Eq, Hash, Structural)]
pub enum SyncStage {
    Negotiate,
    MetaDoc,
    PullBlocks,
    WaitDependency,
    Done,
}

/// Where an error arose.
#[derive(Debug, Clone, Copy, PartialEq, Eq, Hash, Structural)]
pub enum ErrorScope {
    Store,
    Crdt,
    Transport,
    Crypto,
    Sync,
    Config,
}

/// An event.
#[allow(inconsistent_fields)]
#[derive(Debug, PartialEq, Eq)]
pub enum CoreEvent {
    SyncStarted { peer_id: PeerId, reason: SyncReason },
    /// The progress is carried as the bits of its single-precision form.
    SyncProgress { doc_id: DocId, stage: SyncStage, progress_bits: u32 },
    SyncBlockedOnDependency { doc_id: DocId, block_id: BlockId },
    SyncCompleted { peer_id: PeerId },
    PeerStatusChanged { peer_id: PeerId, online: bool },
    AnchorChanged { old_anchor: Option<PeerId>, new_anchor: Option<PeerId> },
    ConflictMerged { doc_id: DocId, block_id: Option<BlockId> },
    ErrorRaised { scope: ErrorScope, message: String },
}

impl Clone for CoreEvent {
    fn clone(&self) -> (r: Self)
        ensures
            r == *self,
    {
        match self {
            CoreEvent::SyncStarted { peer_id, reason } => CoreEvent::SyncStarted {
                peer_id: peer_id.clone(),
                reason: *reason,
            },
            CoreEvent::SyncProgress { doc_id, stage, progress_bits } => CoreEvent::SyncProgress {
                doc_id: doc_id.clone(),
                stage: *stage,
                progress_bits: *progress_bits,
            },
            CoreEvent::SyncBlockedOnDependency { doc_id, block_id } => {
                CoreEvent::SyncBlockedOnDependency {
                    doc_id: doc_id.clone(),
                    block_id: block_id.clone(),
                }
            },
            CoreEvent::SyncCompleted { peer_id } => CoreEvent::SyncCompleted {
                peer_id: peer_id.clone(),
            },
            CoreEvent::PeerStatusChanged { peer_id, online } => CoreEvent::PeerStatusChanged {
                peer_id: peer_id.clone(),
                online: *online,
            },
            CoreEvent::AnchorChanged { old_anchor, new_anchor } => CoreEvent::AnchorChanged {
                old_anchor: clone_peer(old_anchor),
                new_anchor: clone_peer(new_anchor),
            },
            CoreEvent::ConflictMerged { doc_id, block_id } => CoreEvent::ConflictMerged {
                doc_id: doc_id.clone(),
                block_id: match block_id {
                    Some(b) => Some(b.clone()),
                    None => None,
                },
            },
            CoreEvent::ErrorRaised { scope, message } => CoreEvent::ErrorRaised {
                scope: *scope,
                message: message.clone(),
            },
        }
    }
}

fn clone_peer(p: &Option<PeerId>) -> (r: Option<PeerId>)
    ensures
        r == *p,
{
    match p {
        Some(id) => Some(id.clone()),
        None => None,
    }
}

} // verus!
