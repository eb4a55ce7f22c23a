//! What the engine decides between the platform and the synchronisation of documents.

use vstd::prelude::*;
use vstd::string::*;

use crate::dao::{
    identity_loaded, identity_saved, is_store_error, law_identity_is_read_back,
    DeviceIdentityRecord, IdentityRow,
};
use crate::error::{is_crypto_error, CoreError, CoreResult};
use crate::event::CoreEvent;
use crate::identity::{DeviceIdentity, StaticKeypair};
use crate::ids::{BlockId, DocId, PeerId};
use crate::messages::{PathPreference, SyncAction};
use crate::model::{ApplyResult, BlockKind, BlockRecord, ChangeEnvelope, NetworkType, Priority};
use crate::octets::{append_bytes, array32};
use crate::text::{decimal, join2, push_decimal, same_text};
use crate::view::{
    DocumentView, FfiRequestDeltaAction, FfiSendControlAction, FfiSendDataAction, FfiSyncAction,
    SyncStatus,
};

verus! {

/// The largest edit, in bytes, that is applied at once.
pub const SYNC_EDIT_MAX_BYTES: usize = 1_048_576;

/// The number of a priority: zero is the most urgent.
pub open spec fn priority_number(p: Priority) -> u8 {
    match p {
        Priority::High => 0,
        Priority::Medium => 1,
        Priority::Low => 2,
    }
}

/// The number of a priority.
pub fn priority_to_u8(p: Priority) -> (r: u8)
    ensures
        r == priority_number(p),
{
    match p {
        Priority::High => 0,
        Priority::Medium => 1,
        Priority::Low => 2,
    }
}

/// The name of a way.
pub open spec fn path_name(p: PathPreference) -> Seq<char> {
    match p {
        PathPreference::Any => "any"@,
        PathPreference::Ble => "ble"@,
        PathPreference::LanQuic => "lan_quic"@,
        PathPreference::WanQuic => "wan_quic"@,
        PathPreference::Relay => "relay"@,
    }
}

/// The name of a way.
pub fn path_to_str(p: PathPreference) -> (r: &'static str)
    ensures
        r@ == path_name(p),
{
    match p {
        PathPreference::Any => "any",
        PathPreference::Ble => "ble",
        PathPreference::LanQuic => "lan_quic",
        PathPreference::WanQuic => "wan_quic",
        PathPreference::Relay => "relay",
    }
}

/// The kind of block that the platform names; text where it names none.
pub open spec fn platform_kind(name: Seq<char>) -> BlockKind {
    if name == "todo"@ {
        BlockKind::Todo
    } else if name == "settings"@ {
        BlockKind::Settings
    } else if name == "log"@ {
        BlockKind::Log
    } else {
        BlockKind::Text
    }
}

/// The kind of block that the platform names; text where it names none.
pub fn block_kind_of(name: &str) -> (r: BlockKind)
    ensures
        r == platform_kind(name@),
{
    if same_text(name, "todo") {
        BlockKind::Todo
    } else if same_text(name, "settings") {
        BlockKind::Settings
    } else if same_text(name, "log") {
        BlockKind::Log
    } else {
        BlockKind::Text
    }
}

/// The network that the platform names; none where it names no other.
pub open spec fn platform_network(name: Seq<char>) -> NetworkType {
    if name == "lan"@ {
        NetworkType::Lan
    } else if name == "wan"@ {
        NetworkType::Wan
    } else {
        NetworkType::Offline
    }
}

/// What is said of an edit that is too large to be applied at once.
pub open spec fn large_edit_text(len: nat) -> Seq<char> {
    "同步 API 拒绝大导入（"@ + decimal(len) + " 字节 > "@ + decimal(SYNC_EDIT_MAX_BYTES as nat)
        + " 字节），请使用 send_command(Command::ApplyUserEdit) 异步路径"@
}

/// Whether an edit can be applied at once. A larger one has to be sent as a command.
pub fn check_edit_size(edit_bytes: &[u8]) -> (r: CoreResult<()>)
    ensures
        match r {
            Ok(_) => edit_bytes@.len() <= SYNC_EDIT_MAX_BYTES,
            Err(e) => edit_bytes@.len() > SYNC_EDIT_MAX_BYTES && is_store_error(
                e,
                large_edit_text(edit_bytes@.len()),
            ),
        },
{
    if edit_bytes.len() <= SYNC_EDIT_MAX_BYTES {
        return Ok(());
    }
    let mut text = "同步 API 拒绝大导入（".to_owned();
    push_decimal(&mut text, edit_bytes.len() as u64);
    text.append(" 字节 > ");
    push_decimal(&mut text, SYNC_EDIT_MAX_BYTES as u64);
    text.append(" 字节），请使用 send_command(Command::ApplyUserEdit) 异步路径");
    Err(CoreError::Store(text))
}

/// The change that a local edit is reported as, once it was applied.
pub fn local_change(
    doc_id: DocId,
    block_id: BlockId,
    edit_bytes: Vec<u8>,
    applied: ApplyResult,
) -> (r: ChangeEnvelope)
    ensures
        r == (ChangeEnvelope {
            doc_id,
            block_id: Some(block_id),
            delta: edit_bytes,
            frontier: applied.new_frontier,
        }),
{
    ChangeEnvelope {
        doc_id,
        block_id: Some(block_id),
        delta: edit_bytes,
        frontier: applied.new_frontier,
    }
}

/// How many documents were compacted.
pub open spec fn compacted(answers: Seq<CoreResult<bool>>) -> nat
    decreases answers.len(),
{
    if answers.len() == 0 {
        0
    } else {
        compacted(answers.drop_last()) + if answers.last() matches Ok(done) && done {
            1nat
        } else {
            0nat
        }
    }
}

/// How many documents were compacted, where `answers` tells of each document whether it was due.
/// One that failed does not hold up the others.
pub fn count_compacted(answers: &Vec<CoreResult<bool>>) -> (r: usize)
    ensures
        r == compacted(answers@),
{
    let mut count: usize = 0;
    let mut i: usize = 0;
    assert(answers@.take(0) =~= Seq::<CoreResult<bool>>::empty());
    while i < answers.len()
        invariant
            i <= answers@.len(),
            count <= i,
            count == compacted(answers@.take(i as int)),
        decreases answers@.len() - i,
    {
        assert(answers@.take(i + 1).drop_last() =~= answers@.take(i as int));
        if let Ok(done) = &answers[i] {
            if *done {
                count = count + 1;
            }
        }
        i = i + 1;
    }
    assert(answers@.take(i as int) =~= answers@);
    count
}

/// The identifiers of blocks, in their order.
pub open spec fn block_names(blocks: Seq<BlockRecord>) -> Seq<Seq<char>> {
    blocks.map_values(|b: BlockRecord| b.block_id@)
}

/// A document as the platform sees it. `kind` is that of the stored document, where there is one.
pub fn document_view(
    doc_id: &DocId,
    kind: Option<String>,
    blocks: &Vec<BlockRecord>,
    frontier_json: String,
) -> (r: CoreResult<DocumentView>)
    ensures
        match r {
            Ok(v) => {
                &&& kind is Some
                &&& v.doc_id@ == doc_id@
                &&& v.kind == kind->Some_0
                &&& v.block_ids@.map_values(|s: String| s@) == block_names(blocks@)
                &&& v.frontier_json == frontier_json
            },
            Err(e) => kind is None && is_store_error(e, "文档不存在: "@ + doc_id@),
        },
{
    let kind = match kind {
        Some(kind) => kind,
        None => {
            return Err(CoreError::Store(join2("文档不存在: ", doc_id.as_str())));
        },
    };
    let mut block_ids: Vec<String> = Vec::new();
    let mut i: usize = 0;
    while i < blocks.len()
        invariant
            i <= blocks@.len(),
            block_ids@.len() == i,
            forall|j: int| 0 <= j < i ==> (#[trigger] block_ids@[j])@ == blocks@[j].block_id@,
        decreases blocks@.len() - i,
    {
        block_ids.push(blocks[i].block_id.0.clone());
        i = i + 1;
    }
    assert(block_ids@.map_values(|s: String| s@) =~= block_names(blocks@));
    Ok(DocumentView { doc_id: doc_id.0.clone(), kind, block_ids, frontier_json })
}

/// What follows from a change of the network.
#[derive(Debug)]
pub struct NetworkChange {
    /// Whether to catch up with the peers first.
    pub resume: bool,
    /// The event to report.
    pub event: CoreEvent,
}

/// Whether an event reports the status of a peer.
pub open spec fn reports_status(e: CoreEvent, peer: Seq<char>, is_online: bool) -> bool {
    e matches CoreEvent::PeerStatusChanged { peer_id, online } && peer_id@ == peer && online
        == is_online
}

/// The texts of peers' identifiers.
pub open spec fn peer_names(peers: Seq<PeerId>) -> Seq<Seq<char>> {
    peers.map_values(|p: PeerId| p@)
}

/// Who is online, and what network there is.
#[derive(Debug)]
pub struct EngineState {
    online_peers: Vec<PeerId>,
    current_net: NetworkType,
}

impl EngineState {
    /// The peers that are online, in the order in which they came.
    pub closed spec fn online(&self) -> Seq<Seq<char>> {
        peer_names(self.online_peers@)
    }

    /// The network there is.
    pub closed spec fn network(&self) -> NetworkType {
        self.current_net
    }

    /// No peer is online twice.
    pub open spec fn wf(&self) -> bool {
        self.online().no_duplicates()
    }

    /// Nobody is online, and there is no network.
    pub fn new() -> (r: Self)
        ensures
            r.wf(),
            r.online() == Seq::<Seq<char>>::empty(),
            r.network() == NetworkType::Offline,
    {
        let r = EngineState { online_peers: Vec::new(), current_net: NetworkType::Offline };
        assert(r.online() =~= Seq::<Seq<char>>::empty());
        r
    }

    /// How much there is left to do.
    pub fn sync_status(&self, pending_actions: usize, pending_fetches: usize) -> (r: SyncStatus)
        ensures
            r == (SyncStatus {
                pending_actions: pending_actions as u32,
                pending_fetches: pending_fetches as u32,
                online_peers: self.online().len() as u32,
            }),
    {
        let online: usize = self.online_peers.len();
        SyncStatus {
            pending_actions: #[verifier::truncate]
            (pending_actions as u32),
            pending_fetches: #[verifier::truncate]
            (pending_fetches as u32),
            online_peers: #[verifier::truncate]
            (online as u32),
        }
    }

    /// Takes a change of the network in. Without a network nobody is online; where one comes
    /// back, the engine catches up.
    pub fn notify_network_changed(&mut self, online: bool, net_type: &str) -> (r: NetworkChange)
        ensures
            final(self).network() == (if online {
                platform_network(net_type@)
            } else {
                NetworkType::Offline
            }),
            final(self).online() == (if online {
                old(self).online()
            } else {
                Seq::<Seq<char>>::empty()
            }),
            old(self).wf() ==> final(self).wf(),
            r.resume == (online && old(self).network() == NetworkType::Offline
                && platform_network(net_type@) != NetworkType::Offline),
            reports_status(r.event, "network"@, online),
    {
        let new_net = if same_text(net_type, "lan") {
            NetworkType::Lan
        } else if same_text(net_type, "wan") {
            NetworkType::Wan
        } else {
            NetworkType::Offline
        };
        let was_offline = matches!(self.current_net, NetworkType::Offline);
        let connected = !matches!(new_net, NetworkType::Offline);
        if online {
            self.current_net = new_net;
        } else {
            self.current_net = NetworkType::Offline;
            self.online_peers = Vec::new();
            assert(self.online() =~= Seq::<Seq<char>>::empty());
        }
        NetworkChange {
            resume: online && was_offline && connected,
            event: CoreEvent::PeerStatusChanged { peer_id: PeerId::new("network"), online },
        }
    }

    /// Takes in that a peer is online, and returns the event to report. A synchronisation with
    /// the peer is due.
    pub fn on_peer_online(&mut self, peer_id: &PeerId) -> (r: CoreEvent)
        ensures
            final(self).network() == old(self).network(),
            final(self).online() == (if old(self).online().contains(peer_id@) {
                old(self).online()
            } else {
                old(self).online().push(peer_id@)
            }),
            old(self).wf() ==> final(self).wf(),
            reports_status(r, peer_id@, true),
    {
        let ghost before = self.online();
        let mut found = false;
        let mut i: usize = 0;
        while i < self.online_peers.len()
            invariant
                i <= self.online_peers@.len(),
                self.online() == before,
                self.network() == old(self).network(),
                before == peer_names(self.online_peers@),
                found == exists|j: int| 0 <= j < i && #[trigger] before[j] == peer_id@,
            decreases self.online_peers@.len() - i,
        {
            let same = self.online_peers[i].same(peer_id);
            assert(before[i as int] == self.online_peers@[i as int]@);
            if same {
                found = true;
            }
            i = i + 1;
        }
        if !found {
            self.online_peers.push(peer_id.clone());
            assert(self.online() =~= before.push(peer_id@));
        }
        CoreEvent::PeerStatusChanged { peer_id: peer_id.clone(), online: true }
    }
}

/// Whether `r` is what the platform is asked to do for an action, where `json` is the part of it
/// that crosses as JSON.
pub open spec fn acts_as(action: SyncAction, json: Result<String, String>, r: FfiSyncAction) -> bool {
    match action {
        SyncAction::EmitEvent(_) => r matches FfiSyncAction::EmitEvent { event_json } && event_json@
            == (match json {
            Ok(text) => text@,
            Err(_) => "{}"@,
        }),
        SyncAction::SendData { peer_id, doc_id, block_id, bytes, priority, path, entry_id } => {
            &&& r matches FfiSyncAction::SendData { action: a }
            &&& a.peer_id@ == peer_id@
            &&& a.doc_id@ == doc_id@
            &&& (a.block_id is Some) == (block_id is Some)
            &&& a.block_id is Some ==> a.block_id->Some_0@ == block_id->Some_0@
            &&& a.data@ == bytes@
            &&& a.priority == priority_number(priority)
            &&& a.path@ == path_name(path)
            &&& a.entry_id == entry_id
        },
        SyncAction::SendControl { peer_id, msg, priority } => {
            &&& r matches FfiSyncAction::SendControl { action: a }
            &&& json is Ok
            &&& a.peer_id@ == peer_id@
            &&& a.msg_json@ == json->Ok_0@
            &&& a.priority == priority_number(priority)
        },
        SyncAction::RequestDelta { peer_id, doc_id, block_id, since, priority } => {
            &&& r matches FfiSyncAction::RequestDelta { action: a }
            &&& json is Ok
            &&& a.peer_id@ == peer_id@
            &&& a.doc_id@ == doc_id@
            &&& (a.block_id is Some) == (block_id is Some)
            &&& a.block_id is Some ==> a.block_id->Some_0@ == block_id->Some_0@
            &&& a.since_json@ == json->Ok_0@
            &&& a.priority == priority_number(priority)
        },
    }
}

/// Whether an action cannot be handed out: it needs JSON that could not be written.
pub open spec fn fails(action: SyncAction, json: Result<String, String>) -> bool {
    json is Err && (action is SendControl || action is RequestDelta)
}

/// Whether `e` says why JSON could not be written.
pub open spec fn says_why(e: CoreError, json: Result<String, String>) -> bool {
    json matches Err(why) && (e matches CoreError::Serialize(t) && t@ == why@)
}

/// What the platform is asked to do for an action.
pub fn ffi_action(action: &SyncAction, json: Result<String, String>) -> (r: CoreResult<
    FfiSyncAction,
>)
    ensures
        match r {
            Ok(a) => !fails(*action, json) && acts_as(*action, json, a),
            Err(e) => fails(*action, json) && says_why(e, json),
        },
{
    match action {
        SyncAction::EmitEvent(_) => {
            let event_json = match json {
                Ok(text) => text,
                Err(_) => "{}".to_owned(),
            };
            Ok(FfiSyncAction::EmitEvent { event_json })
        },
        SyncAction::SendData { peer_id, doc_id, block_id, bytes, priority, path, entry_id } => {
            let mut data: Vec<u8> = Vec::new();
            append_bytes(&mut data, bytes.as_slice());
            assert(data@ =~= bytes@);
            Ok(
                FfiSyncAction::SendData {
                    action: FfiSendDataAction {
                        peer_id: peer_id.0.clone(),
                        doc_id: doc_id.0.clone(),
                        block_id: match block_id {
                            Some(b) => Some(b.0.clone()),
                            None => None,
                        },
                        data,
                        priority: priority_to_u8(*priority),
                        path: path_to_str(*path).to_owned(),
                        entry_id: match entry_id {
                            Some(e) => Some(e.clone()),
                            None => None,
                        },
                    },
                },
            )
        },
        SyncAction::SendControl { peer_id, msg, priority } => match json {
            Ok(msg_json) => Ok(
                FfiSyncAction::SendControl {
                    action: FfiSendControlAction {
                        peer_id: peer_id.0.clone(),
                        msg_json,
                        priority: priority_to_u8(*priority),
                    },
                },
            ),
            Err(why) => Err(CoreError::Serialize(why)),
        },
        SyncAction::RequestDelta { peer_id, doc_id, block_id, since, priority } => match json {
            Ok(since_json) => Ok(
                FfiSyncAction::RequestDelta {
                    action: FfiRequestDeltaAction {
                        peer_id: peer_id.0.clone(),
                        doc_id: doc_id.0.clone(),
                        block_id: match block_id {
                            Some(b) => Some(b.0.clone()),
                            None => None,
                        },
                        since_json,
                        priority: priority_to_u8(*priority),
                    },
                },
            ),
            Err(why) => Err(CoreError::Serialize(why)),
        },
    }
}

/// The events among actions, in their order.
pub open spec fn events_of(actions: Seq<SyncAction>) -> Seq<CoreEvent>
    decreases actions.len(),
{
    if actions.len() == 0 {
        Seq::empty()
    } else {
        match actions.last() {
            SyncAction::EmitEvent(e) => events_of(actions.drop_last()).push(e),
            _ => events_of(actions.drop_last()),
        }
    }
}

/// Whether the action at `n` is the first that cannot be handed out.
pub open spec fn first_failure(
    actions: Seq<SyncAction>,
    texts: Seq<Result<String, String>>,
    n: int,
) -> bool {
    &&& 0 <= n < actions.len()
    &&& fails(actions[n], texts[n])
    &&& forall|i: int| 0 <= i < n ==> !fails(#[trigger] actions[i], texts[i])
}

/// What is handed out and reported.
#[derive(Debug)]
pub struct Drained {
    /// The events to report, in their order.
    pub events: Vec<CoreEvent>,
    /// What the platform is asked to do.
    pub actions: CoreResult<Vec<FfiSyncAction>>,
}

/// Hands actions out to the platform, where `texts` are the parts that cross as JSON. Where one
/// cannot be written, nothing is handed out, and the events before it are reported still.
pub fn drain_actions(actions: &Vec<SyncAction>, texts: Vec<Result<String, String>>) -> (r: Drained)
    requires
        actions@.len() == texts@.len(),
    ensures
        match r.actions {
            Ok(out) => {
                &&& r.events@ == events_of(actions@)
                &&& out@.len() == actions@.len()
                &&& forall|i: int|
                    0 <= i < out@.len() ==> !fails(actions@[i], texts@[i]) && acts_as(
                        actions@[i],
                        texts@[i],
                        #[trigger] out@[i],
                    )
            },
            Err(e) => exists|n: int| #[trigger]
                first_failure(actions@, texts@, n) && says_why(e, texts@[n]) && r.events@
                    == events_of(actions@.take(n)),
        },
{
    let ghost all = texts@;
    let mut forward = texts;
    let mut rest: Vec<Result<String, String>> = Vec::new();
    while forward.len() > 0
        invariant
            forward@ + rest@.reverse() == all,
        decreases forward@.len(),
    {
        let ghost t0 = forward@;
        let ghost r0 = rest@;
        let text = forward.pop().unwrap();
        rest.push(text);
        assert(t0 =~= forward@.push(text));
        assert(forward@ + rest@.reverse() =~= t0 + r0.reverse());
    }
    assert(rest@.reverse() =~= all);
    let mut events: Vec<CoreEvent> = Vec::new();
    let mut out: Vec<FfiSyncAction> = Vec::new();
    let mut i: usize = 0;
    assert(actions@.take(0) =~= Seq::<SyncAction>::empty());
    while i < actions.len()
        invariant
            i <= actions@.len(),
            all == texts@,
            all.len() == actions@.len(),
            rest@.len() == all.len() - i,
            forall|j: int| 0 <= j < rest@.len() ==> #[trigger] rest@[j] == all[all.len() - 1 - j],
            events@ == events_of(actions@.take(i as int)),
            out@.len() == i,
            forall|j: int|
                0 <= j < i ==> !fails(actions@[j], all[j]) && acts_as(
                    actions@[j],
                    all[j],
                    #[trigger] out@[j],
                ),
            forall|j: int| 0 <= j < i ==> !fails(#[trigger] actions@[j], all[j]),
        decreases actions@.len() - i,
    {
        let json = rest.pop().unwrap();
        assert(json == all[i as int]);
        proof {
            assert(actions@.take(i + 1).drop_last() =~= actions@.take(i as int));
            assert(actions@.take(i + 1).last() == actions@[i as int]);
        }
        if let SyncAction::EmitEvent(event) = &actions[i] {
            events.push(event.clone());
        }
        match ffi_action(&actions[i], json) {
            Ok(a) => {
                out.push(a);
            },
            Err(e) => {
                assert(first_failure(actions@, all, i as int));
                return Drained { events, actions: Err(e) };
            },
        }
        i = i + 1;
    }
    assert(actions@.take(i as int) =~= actions@);
    Drained { events, actions: Ok(out) }
}

/// Whether a record says what an identity holds.
pub open spec fn records_identity(rec: DeviceIdentityRecord, identity: DeviceIdentity) -> bool {
    &&& rec.signing_key@ == identity.seed()
    &&& rec.static_private@ == identity.statics().private@
    &&& rec.static_public@ == identity.statics().public@
    &&& rec.binding_proof@ == identity.proof_bytes()
}

/// How an identity is stored.
pub fn record_of_identity(identity: &DeviceIdentity, now: i64) -> (r: DeviceIdentityRecord)
    ensures
        records_identity(r, *identity),
        r.created_at == now,
{
    let kp = identity.static_keypair();
    let mut static_public: Vec<u8> = Vec::new();
    append_bytes(&mut static_public, kp.public.as_slice());
    let mut binding_proof: Vec<u8> = Vec::new();
    append_bytes(&mut binding_proof, identity.binding_proof().as_slice());
    assert(static_public@ =~= kp.public@);
    assert(binding_proof@ =~= identity.proof_bytes());
    DeviceIdentityRecord {
        signing_key: identity.signing_key_bytes(),
        static_private: kp.private,
        static_public,
        binding_proof,
        created_at: now,
    }
}

/// Whether `r` is the identity that a record stands for, where there is one. An empty proof is
/// made anew.
pub open spec fn identity_restored(
    rec: Option<DeviceIdentityRecord>,
    r: CoreResult<Option<DeviceIdentity>>,
) -> bool {
    match (rec, r) {
        (None, Ok(None)) => true,
        (Some(rec), Ok(Some(id))) => {
            &&& id.seed() == rec.signing_key@
            &&& id.statics().private@ == rec.static_private@
            &&& id.statics().public@ == rec.static_public@
            &&& rec.binding_proof@.len() == 0 ==> id.bound()
            &&& rec.binding_proof@.len() != 0 ==> id.proof_bytes() == rec.binding_proof@
        },
        (Some(rec), Err(e)) => if rec.static_public@.len() != 32 {
            is_crypto_error(e, "数据库中存储的静态公钥长度不正确"@)
        } else {
            rec.binding_proof@.len() != 0 && rec.binding_proof@.len() != 64 && is_crypto_error(
                e,
                "无效的绑定证明长度：期望 64 字节，实际 "@ + decimal(rec.binding_proof@.len())
                    + " 字节"@,
            )
        },
        _ => false,
    }
}

/// The identity that is stored, where there is one.
pub fn identity_of_record(rec: Option<DeviceIdentityRecord>) -> (r: CoreResult<
    Option<DeviceIdentity>,
>)
    ensures
        identity_restored(rec, r),
{
    let rec = match rec {
        Some(rec) => rec,
        None => {
            return Ok(None);
        },
    };
    if rec.static_public.len() != 32 {
        return Err(CoreError::Crypto("数据库中存储的静态公钥长度不正确".to_owned()));
    }
    let public = array32(rec.static_public.as_slice(), 0);
    assert(public@ =~= rec.static_public@);
    let static_kp = StaticKeypair { private: rec.static_private, public };
    match DeviceIdentity::from_keys(
        rec.signing_key.as_slice(),
        static_kp,
        rec.binding_proof.as_slice(),
    ) {
        Ok(identity) => Ok(Some(identity)),
        Err(e) => Err(e),
    }
}

/// An identity that was saved is loaded as it was.
pub proof fn law_saved_identity_is_loaded(
    identity: DeviceIdentity,
    rec: DeviceIdentityRecord,
    row: IdentityRow,
    loaded: CoreResult<Option<DeviceIdentityRecord>>,
    back: CoreResult<Option<DeviceIdentity>>,
)
    requires
        identity.proof_bytes().len() == 64,
        records_identity(rec, identity),
        identity_saved(rec, row),
        identity_loaded(Some(row), loaded),
        loaded matches Ok(found) ==> identity_restored(found, back),
    ensures
        back is Ok,
        back->Ok_0 is Some,
        ({
            let id = back->Ok_0->Some_0;
            &&& id.seed() == identity.seed()
            &&& id.statics().private@ == identity.statics().private@
            &&& id.statics().public@ == identity.statics().public@
            &&& id.proof_bytes() == identity.proof_bytes()
        }),
{
    law_identity_is_read_back(rec, row, loaded);
}

/// The more urgent a priority, the smaller its number; the most urgent has zero.
pub proof fn law_urgent_numbers_are_small(high: u8, medium: u8, low: u8)
    requires
        call_ensures(priority_to_u8, (Priority::High,), high),
        call_ensures(priority_to_u8, (Priority::Medium,), medium),
        call_ensures(priority_to_u8, (Priority::Low,), low),
    ensures
        high == 0,
        high < medium < low,
        low == 2,
{
}

/// Each way goes to the platform by a name of its own.
pub proof fn law_ways_are_named_apart(
    p: PathPreference,
    q: PathPreference,
    a: &'static str,
    b: &'static str,
)
    requires
        call_ensures(path_to_str, (p,), a),
        call_ensures(path_to_str, (q,), b),
    ensures
        a@ == b@ <==> p == q,
        p is Any ==> a@ == "any"@,
        p is Ble ==> a@ == "ble"@,
        p is LanQuic ==> a@ == "lan_quic"@,
        p is WanQuic ==> a@ == "wan_quic"@,
        p is Relay ==> a@ == "relay"@,
{
    reveal_strlit("any");
    reveal_strlit("ble");
    reveal_strlit("lan_quic");
    reveal_strlit("wan_quic");
    reveal_strlit("relay");
    assert("any"@[0] == 'a' && "ble"@[0] == 'b' && "lan_quic"@[0] == 'l' && "wan_quic"@[0] == 'w'
        && "relay"@[0] == 'r');
}

/// A block is of the kind that the platform names, and a text where it names none of the others.
pub proof fn law_named_kind_is_made(name: &str, r: BlockKind)
    requires
        call_ensures(block_kind_of, (name,), r),
    ensures
        r is Todo <==> name@ == "todo"@,
        r is Settings <==> name@ == "settings"@,
        r is Log <==> name@ == "log"@,
        r is Text <==> name@ != "todo"@ && name@ != "settings"@ && name@ != "log"@,
{
    reveal_strlit("todo");
    reveal_strlit("settings");
    reveal_strlit("log");
    assert("todo"@[0] == 't' && "settings"@[0] == 's' && "log"@[0] == 'l');
}

/// Edits of up to a mebibyte are applied at once, and no larger ones.
pub proof fn law_large_edits_are_refused(edit: &[u8], r: CoreResult<()>)
    requires
        call_ensures(check_edit_size, (edit,), r),
    ensures
        r is Ok <==> edit@.len() <= 1_048_576,
        r matches Err(e) ==> e is Store,
{
}

/// A local edit is reported with its document and block, its own bytes, and how far the block has come.
pub proof fn law_edit_is_reported(
    doc_id: DocId,
    block_id: BlockId,
    edit_bytes: Vec<u8>,
    applied: ApplyResult,
    r: ChangeEnvelope,
)
    requires
        call_ensures(local_change, (doc_id, block_id, edit_bytes, applied), r),
    ensures
        r.doc_id == doc_id,
        r.block_id == Some(block_id),
        r.delta == edit_bytes,
        r.frontier == applied.new_frontier,
{
}

/// Counted are the documents that were compacted: not those that were not due, nor those that failed.
pub proof fn law_compacted_documents_are_counted(answers: &Vec<CoreResult<bool>>, r: usize)
    requires
        call_ensures(count_compacted, (answers,), r),
    ensures
        r == answers@.filter(|a: CoreResult<bool>| a is Ok && a->Ok_0).len(),
{
    lemma_compacted(answers@);
}

proof fn lemma_compacted(answers: Seq<CoreResult<bool>>)
    ensures
        compacted(answers) == answers.filter(|a: CoreResult<bool>| a is Ok && a->Ok_0).len(),
    decreases answers.len(),
{
    reveal(Seq::filter);
    if answers.len() > 0 {
        lemma_compacted(answers.drop_last());
    }
}

/// A document that is stored is seen with its kind, its blocks in their order and its frontier; one that is
/// not stored cannot be seen.
pub proof fn law_stored_document_is_seen(
    doc_id: &DocId,
    kind: Option<String>,
    blocks: &Vec<BlockRecord>,
    frontier_json: String,
    r: CoreResult<DocumentView>,
)
    requires
        call_ensures(document_view, (doc_id, kind, blocks, frontier_json), r),
    ensures
        r is Ok <==> kind is Some,
        r matches Ok(v) ==> {
            &&& v.doc_id@ == doc_id@
            &&& v.kind == kind->Some_0
            &&& v.frontier_json == frontier_json
            &&& v.block_ids@.len() == blocks@.len()
            &&& forall|i: int|
                0 <= i < blocks@.len() ==> (#[trigger] v.block_ids@[i])@ == blocks@[i].block_id@
        },
{
    if r is Ok {
        let v = r->Ok_0;
        let ids = v.block_ids@.map_values(|s: String| s@);
        assert(ids.len() == block_names(blocks@).len());
        assert forall|i: int| 0 <= i < blocks@.len() implies (#[trigger] v.block_ids@[i])@
            == blocks@[i].block_id@ by {
            assert(ids[i] == block_names(blocks@)[i]);
        }
    }
}

/// A peer that comes online is online afterwards, once, and is reported so; the others stay.
pub proof fn law_online_peer_is_counted(
    state: &mut EngineState,
    peer_id: &PeerId,
    event: CoreEvent,
    pending_actions: usize,
    pending_fetches: usize,
    status: SyncStatus,
)
    requires
        old(state).wf(),
        call_ensures(EngineState::on_peer_online, (state, peer_id), event),
        call_ensures(
            EngineState::sync_status,
            (&*final(state), pending_actions, pending_fetches),
            status,
        ),
    ensures
        event matches CoreEvent::PeerStatusChanged { peer_id: who, online } && who@ == peer_id@
            && online,
        final(state).online().contains(peer_id@),
        final(state).online().no_duplicates(),
        forall|p: Seq<char>| #[trigger]
            old(state).online().contains(p) ==> final(state).online().contains(p),
        forall|p: Seq<char>| #[trigger]
            final(state).online().contains(p) ==> p == peer_id@ || old(state).online().contains(p),
        final(state).network() == old(state).network(),
        status.online_peers == final(state).online().len() as u32,
        status.pending_actions == pending_actions as u32,
        status.pending_fetches == pending_fetches as u32,
{
    let before = old(state).online();
    let after = final(state).online();
    if !before.contains(peer_id@) {
        assert(after[before.len() as int] == peer_id@);
        assert forall|p: Seq<char>| #[trigger] before.contains(p) implies after.contains(p) by {
            let i = choose|i: int| 0 <= i < before.len() && before[i] == p;
            assert(after[i] == p);
        }
        assert forall|p: Seq<char>| #[trigger] after.contains(p) implies p == peer_id@
            || before.contains(p) by {
            let i = choose|i: int| 0 <= i < after.len() && after[i] == p;
            if i < before.len() {
                assert(before[i] == p);
            }
        }
    }
}

/// Without a network nobody is online. The engine catches up just where a network is there that was not
/// before, and each change is reported.
pub proof fn law_engine_catches_up_with_the_network(
    state: &mut EngineState,
    online: bool,
    net_type: &str,
    r: NetworkChange,
)
    requires
        call_ensures(EngineState::notify_network_changed, (state, online, net_type), r),
    ensures
        !online ==> final(state).online().len() == 0 && final(state).network() is Offline,
        online ==> final(state).online() == old(state).online(),
        online && net_type@ == "lan"@ ==> final(state).network() is Lan,
        online && net_type@ == "wan"@ ==> final(state).network() is Wan,
        online && net_type@ != "lan"@ && net_type@ != "wan"@ ==> final(state).network() is Offline,
        r.resume <==> old(state).network() is Offline && !(final(state).network() is Offline),
        r.event matches CoreEvent::PeerStatusChanged { peer_id, online: told } && peer_id@
            == "network"@ && told == online,
{
    reveal_strlit("lan");
    reveal_strlit("wan");
    assert("lan"@[0] == 'l' && "wan"@[0] == 'w');
}

/// The platform is asked to do just what an action says. An action that needs JSON fails where that could
/// not be written; an event is then reported as empty.
pub proof fn law_platform_is_asked_for_the_action(
    action: &SyncAction,
    json: Result<String, String>,
    r: CoreResult<FfiSyncAction>,
    urgency: u8,
    way: &'static str,
)
    requires
        call_ensures(ffi_action, (action, json), r),
        *action matches SyncAction::SendData { priority, path, .. } ==> call_ensures(
            priority_to_u8,
            (priority,),
            urgency,
        ) && call_ensures(path_to_str, (path,), way),
        *action matches SyncAction::SendControl { priority, .. } ==> call_ensures(
            priority_to_u8,
            (priority,),
            urgency,
        ),
        *action matches SyncAction::RequestDelta { priority, .. } ==> call_ensures(
            priority_to_u8,
            (priority,),
            urgency,
        ),
    ensures
        r is Err <==> json is Err && (action is SendControl || action is RequestDelta),
        r matches Err(e) ==> (e matches CoreError::Serialize(t) && t@ == json->Err_0@),
        *action matches SyncAction::SendData {
            peer_id,
            doc_id,
            block_id,
            bytes,
            entry_id,
            ..
        } ==> (r matches Ok(FfiSyncAction::SendData { action: a }) && a.peer_id@ == peer_id@
            && a.doc_id@ == doc_id@ && a.data@ == bytes@ && a.entry_id == entry_id && a.priority
            == urgency && a.path@ == way@ && (a.block_id is Some <==> block_id is Some) && (block_id
            is Some ==> a.block_id->Some_0@ == block_id->Some_0@)),
        *action matches SyncAction::SendControl { peer_id, .. } && json is Ok ==> (r matches Ok(
            FfiSyncAction::SendControl { action: a },
        ) && a.peer_id@ == action->SendControl_peer_id@ && a.msg_json@ == json->Ok_0@ && a.priority
            == urgency),
        *action matches SyncAction::RequestDelta { peer_id, .. } && json is Ok ==> (r matches Ok(
            FfiSyncAction::RequestDelta { action: a },
        ) && a.peer_id@ == action->RequestDelta_peer_id@ && a.doc_id@
            == action->RequestDelta_doc_id@ && a.since_json@ == json->Ok_0@ && a.priority == urgency
            && (a.block_id is Some <==> action->RequestDelta_block_id is Some) && (a.block_id
            is Some ==> a.block_id->Some_0@ == action->RequestDelta_block_id->Some_0@)),
        action is EmitEvent ==> (r matches Ok(FfiSyncAction::EmitEvent { event_json }) && (json
            is Ok ==> event_json@ == json->Ok_0@) && (json is Err ==> event_json@ == "{}"@)),
{
}

/// All actions are handed out, one for one and in their order, and all events among them are reported in
/// their order; where one action cannot be written, none is handed out, and it fails as that one does.
pub proof fn law_actions_are_handed_out(
    actions: &Vec<SyncAction>,
    texts: Vec<Result<String, String>>,
    r: Drained,
)
    requires
        actions@.len() == texts@.len(),
        call_ensures(drain_actions, (actions, texts), r),
    ensures
        r.actions is Ok <==> forall|i: int|
            0 <= i < actions@.len() ==> texts@[i] is Ok || !(#[trigger] actions@[i] is SendControl
                || actions@[i] is RequestDelta),
        r.actions matches Ok(out) ==> {
            &&& out@.len() == actions@.len()
            &&& forall|i: int|
                0 <= i < out@.len() ==> {
                    &&& actions@[i] is SendData <==> #[trigger] out@[i] is SendData
                    &&& actions@[i] is SendControl <==> out@[i] is SendControl
                    &&& actions@[i] is RequestDelta <==> out@[i] is RequestDelta
                    &&& actions@[i] is EmitEvent <==> out@[i] is EmitEvent
                }
            &&& r.events@ == actions@.filter(|a: SyncAction| a is EmitEvent).map_values(
                |a: SyncAction| a->EmitEvent_0,
            )
        },
        r.actions is Err ==> exists|n: int|
            0 <= n < actions@.len() && texts@[n] is Err && (r.actions->Err_0 matches CoreError::Serialize(
                t,
            ) && t@ == texts@[n]->Err_0@) && r.events@ == (#[trigger] actions@.take(n)).filter(
                |a: SyncAction| a is EmitEvent,
            ).map_values(|a: SyncAction| a->EmitEvent_0),
{
    match r.actions {
        Ok(out) => {
            lemma_events(actions@);
            assert forall|i: int| 0 <= i < actions@.len() implies texts@[i] is Ok || !(
            #[trigger] actions@[i] is SendControl || actions@[i] is RequestDelta) by {
                assert(acts_as(actions@[i], texts@[i], out@[i]));
            }
        },
        Err(e) => {
            let n = choose|n: int| #[trigger]
                first_failure(actions@, texts@, n) && says_why(e, texts@[n]) && r.events@
                    == events_of(actions@.take(n));
            lemma_events(actions@.take(n));
            assert(actions@[n] is SendControl || actions@[n] is RequestDelta);
        },
    }
}

proof fn lemma_events(actions: Seq<SyncAction>)
    ensures
        events_of(actions) == actions.filter(|a: SyncAction| a is EmitEvent).map_values(
            |a: SyncAction| a->EmitEvent_0,
        ),
    decreases actions.len(),
{
    let keep = |a: SyncAction| a is EmitEvent;
    let event = |a: SyncAction| a->EmitEvent_0;
    reveal(Seq::filter);
    if actions.len() > 0 {
        let front = actions.drop_last();
        lemma_events(front);
        if actions.last() is EmitEvent {
            assert(actions.filter(keep) =~= front.filter(keep).push(actions.last()));
            assert(actions.filter(keep).map_values(event) =~= front.filter(keep).map_values(
                event,
            ).push(event(actions.last())));
        }
    } else {
        assert(actions.filter(keep).map_values(event) =~= Seq::<CoreEvent>::empty());
    }
}

/// An identity that is recorded, saved, loaded and restored is as it was.
pub proof fn law_identity_survives_storage(
    identity: &DeviceIdentity,
    now: i64,
    rec: DeviceIdentityRecord,
    row: IdentityRow,
    loaded: CoreResult<Option<DeviceIdentityRecord>>,
    back: CoreResult<Option<DeviceIdentity>>,
)
    requires
        identity.proof_bytes().len() == 64,
        call_ensures(record_of_identity, (identity, now), rec),
        call_ensures(crate::dao::save_device_identity, (&rec,), row),
        call_ensures(crate::dao::load_device_identity, (Some(row),), loaded),
        loaded matches Ok(found) ==> call_ensures(identity_of_record, (found,), back),
    ensures
        rec.created_at == now,
        back matches Ok(Some(id)) && id.seed() == identity.seed() && id.statics().private@
            == identity.statics().private@ && id.statics().public@ == identity.statics().public@
            && id.proof_bytes() == identity.proof_bytes(),
{
}

/// Where no identity is stored, none is restored; a stored public key that has the wrong length, and a
/// proof that has, are refused.
pub proof fn law_bad_identities_are_refused(
    none: CoreResult<Option<DeviceIdentity>>,
    rec: DeviceIdentityRecord,
    back: CoreResult<Option<DeviceIdentity>>,
)
    requires
        call_ensures(identity_of_record, (None,), none),
        call_ensures(identity_of_record, (Some(rec),), back),
    ensures
        none matches Ok(None),
        back is Err ==> rec.static_public@.len() != 32 || (rec.binding_proof@.len() != 0
            && rec.binding_proof@.len() != 64),
        back matches Err(e) ==> e is Crypto,
        !(back matches Ok(None)),
        rec.binding_proof@.len() == 0 && back is Ok ==> back->Ok_0->Some_0.bound(),
{
}

/// An engine begins with nobody online and without a network, so that the first network lets it catch up.
pub proof fn law_engine_begins_offline(
    made: EngineState,
    state: &mut EngineState,
    net_type: &str,
    r: NetworkChange,
)
    requires
        call_ensures(EngineState::new, (), made),
        *old(state) == made,
        net_type@ == "lan"@ || net_type@ == "wan"@,
        call_ensures(EngineState::notify_network_changed, (state, true, net_type), r),
    ensures
        made.online().len() == 0,
        made.network() is Offline,
        r.resume,
{
    reveal_strlit("lan");
    reveal_strlit("wan");
    assert("lan"@[0] == 'l' && "wan"@[0] == 'w');
}

} // verus!
