//! What crosses to the platform: texts, numbers and bytes only.

use vstd::prelude::*;

verus! {

/// A document.
#[derive(Debug)]
pub struct DocumentView {
    pub doc_id: String,
    pub kind: String,
    pub block_ids: Vec<String>,
    /// The frontier as JSON.
    pub frontier_json: String,
}

/// A block with what is shown of it.
#[derive(Debug)]
pub struct FfiBlockContent {
    pub block_id: String,
    /// One of `text`, `todo`, `settings` and `log`.
    pub kind: String,
    pub render_bytes: Vec<u8>,
}

/// A document with what is shown of its blocks.
#[derive(Debug)]
pub struct DocumentViewWithContent {
    pub doc_id: String,
    pub kind: String,
    pub block_ids: Vec<String>,
    /// The frontier as JSON.
    pub frontier_json: String,
    pub blocks: Vec<FfiBlockContent>,
}

/// How much there is left to do.
#[derive(Debug, Clone, Copy, PartialEq, Eq, Structural)]
pub struct SyncStatus {
    pub pending_actions: u32,
    /// How many changes wait for something else.
    pub pending_fetches: u32,
    pub online_peers: u32,
}

/// Data to be sent.
#[derive(Debug)]
pub struct FfiSendDataAction {
    pub peer_id: String,
    pub doc_id: String,
    pub block_id: Option<String>,
    pub data: Vec<u8>,
    /// Zero is the most urgent.
    pub priority: u8,
    /// One of `any`, `ble`, `lan_quic`, `wan_quic` and `relay`.
    pub path: String,
    /// The entry of the store-and-forward queue that this action redelivers.
    pub entry_id: Option<String>,
}

/// A control message to be sent.
#[derive(Debug)]
pub struct FfiSendControlAction {
    pub peer_id: String,
    /// The message as JSON.
    pub msg_json: String,
    /// Zero is the most urgent.
    pub priority: u8,
}

/// Changes to be asked for.
#[derive(Debug)]
pub struct FfiRequestDeltaAction {
    pub peer_id: String,
    pub doc_id: String,
    pub block_id: Option<String>,
    /// The frontier that is known, as JSON.
    pub since_json: String,
    /// Zero is the most urgent.
    pub priority: u8,
}

/// What may be known of a device.
#[derive(Debug)]
pub struct FfiDevicePublicInfo {
    pub verifying_key: Vec<u8>,
    pub static_public: Vec<u8>,
    pub peer_id: String,
}

/// What the platform is asked to do.
#[allow(inconsistent_fields)]
#[derive(Debug)]
pub enum FfiSyncAction {
    SendData { action: FfiSendDataAction },
    SendControl { action: FfiSendControlAction },
    RequestDelta { action: FfiRequestDeltaAction },
    /// An event, as JSON, that has been reported already.
    EmitEvent { event_json: String },
}

} // verus!
