//! Peers as rows of a table.

use vstd::prelude::*;
use vstd::string::*;

use crate::dao::{stored_millis, to_millis};
use crate::ids::PeerId;
use crate::json::{
    flag_notation, has_member, json_flag, json_flag_at, json_int, json_int_at, json_quote,
    json_quoted, json_text, json_text_at, json_unquote, json_unquoted, names_differ, object_begin,
    object_end, object_member, object_text, Json,
};
use crate::model::{
    AnchorCapabilities, Endpoint, NatCapability, PeerRecord, SnapshotKind, TrustState,
};
use crate::text::{decimal_signed_string, same_text};

verus! {

/// A peer as a row: whatever is more than a text or a number is written as JSON.
#[derive(Debug)]
pub struct PeerRow {
    pub peer_id: String,
    pub device_pubkey: String,
    pub capabilities: String,
    pub trust_state: String,
    pub anchor_priority: i32,
    pub last_seen_at: i64,
    pub last_endpoint: Option<String>,
    pub nat_capability: String,
    pub relay_hint: Option<String>,
    pub success_bits: u64,
    pub rotation_seq: i64,
}

/// The name of a trust state.
pub open spec fn trust_name(t: TrustState) -> Seq<char> {
    match t {
        TrustState::Trusted => "Trusted"@,
        TrustState::Pending => "Pending"@,
        TrustState::Revoked => "Revoked"@,
    }
}

/// The trust state that a text names.
pub open spec fn trust_named(name: Seq<char>) -> Option<TrustState> {
    if name == "Trusted"@ {
        Some(TrustState::Trusted)
    } else if name == "Pending"@ {
        Some(TrustState::Pending)
    } else if name == "Revoked"@ {
        Some(TrustState::Revoked)
    } else {
        None
    }
}

/// The name of what a network address translation lets through.
pub open spec fn nat_name(n: NatCapability) -> Seq<char> {
    match n {
        NatCapability::Direct => "Direct"@,
        NatCapability::Cone => "Cone"@,
        NatCapability::Symmetric => "Symmetric"@,
        NatCapability::Unknown => "Unknown"@,
    }
}

/// What a network address translation lets through that a text names.
pub open spec fn nat_named(name: Seq<char>) -> Option<NatCapability> {
    if name == "Direct"@ {
        Some(NatCapability::Direct)
    } else if name == "Cone"@ {
        Some(NatCapability::Cone)
    } else if name == "Symmetric"@ {
        Some(NatCapability::Symmetric)
    } else if name == "Unknown"@ {
        Some(NatCapability::Unknown)
    } else {
        None
    }
}

/// The name of a kind of snapshot.
pub open spec fn snapshot_name(k: SnapshotKind) -> Seq<char> {
    match k {
        SnapshotKind::Full => "Full"@,
        SnapshotKind::Shallow => "Shallow"@,
    }
}

/// The trust state that a cell writes; pending where it writes none.
pub open spec fn trust_in(json: Seq<char>) -> TrustState {
    match json_unquoted(json) {
        Some(name) => match trust_named(name) {
            Some(t) => t,
            None => TrustState::Pending,
        },
        None => TrustState::Pending,
    }
}

/// What a network address translation lets through that a cell writes; unknown where it writes
/// none.
pub open spec fn nat_in(json: Seq<char>) -> NatCapability {
    match json_unquoted(json) {
        Some(name) => match nat_named(name) {
            Some(n) => n,
            None => NatCapability::Unknown,
        },
        None => NatCapability::Unknown,
    }
}

/// The kind of snapshot that a cell writes; full where it writes none.
pub open spec fn snapshot_in(json: Seq<char>) -> SnapshotKind {
    if json_unquoted(json) == Some("Shallow"@) {
        SnapshotKind::Shallow
    } else {
        SnapshotKind::Full
    }
}

/// The members of an object of capabilities.
pub open spec fn capability_members(c: AnchorCapabilities) -> Seq<(Seq<char>, Json)> {
    seq![
        ("can_anchor"@, Json::Flag(c.can_anchor)),
        ("can_relay"@, Json::Flag(c.can_relay)),
        ("persistent"@, Json::Flag(c.persistent)),
    ]
}

/// The capabilities that a cell writes; none where one is missing.
pub open spec fn capabilities_in(json: Seq<char>) -> AnchorCapabilities {
    match (
        json_flag_at(json, "can_anchor"@),
        json_flag_at(json, "can_relay"@),
        json_flag_at(json, "persistent"@),
    ) {
        (Some(can_anchor), Some(can_relay), Some(persistent)) => AnchorCapabilities {
            can_anchor,
            can_relay,
            persistent,
        },
        _ => AnchorCapabilities { can_anchor: false, can_relay: false, persistent: false },
    }
}

/// The members of an object of an endpoint.
pub open spec fn endpoint_members(host: Seq<char>, port: u16) -> Seq<(Seq<char>, Json)> {
    seq![("host"@, Json::Text(host)), ("port"@, Json::Int(port as int))]
}

/// The endpoint that a cell writes.
pub open spec fn endpoint_in(json: Seq<char>) -> Option<(Seq<char>, u16)> {
    match (json_text_at(json, "host"@), json_int_at(json, "port"@)) {
        (Some(host), Some(port)) => if 0 <= port <= u16::MAX {
            Some((host, port as u16))
        } else {
            None
        },
        _ => None,
    }
}

/// An endpoint taken as its parts.
pub open spec fn endpoint_view(e: Option<Endpoint>) -> Option<(Seq<char>, u16)> {
    match e {
        Some(e) => Some((e.host@, e.port)),
        None => None,
    }
}

/// The endpoint that a cell writes, where there is a cell.
pub open spec fn endpoint_cell(cell: Option<String>) -> Option<(Seq<char>, u16)> {
    match cell {
        Some(json) => endpoint_in(json@),
        None => None,
    }
}

/// Whether a record is what a row says.
pub open spec fn row_says(row: PeerRow, p: PeerRecord) -> bool {
    &&& p.peer_id@ == row.peer_id@
    &&& p.device_pubkey@ == row.device_pubkey@
    &&& p.capabilities == capabilities_in(row.capabilities@)
    &&& p.trust_state == trust_in(row.trust_state@)
    &&& p.anchor_priority == row.anchor_priority
    &&& p.last_seen_at == stored_millis(row.last_seen_at)
    &&& endpoint_view(p.last_endpoint) == endpoint_cell(row.last_endpoint)
    &&& p.nat_capability == nat_in(row.nat_capability@)
    &&& (p.relay_hint is Some) == (row.relay_hint is Some)
    &&& p.relay_hint is Some ==> p.relay_hint->Some_0@ == row.relay_hint->Some_0@
    &&& p.success_bits == row.success_bits
    &&& p.rotation_seq == row.rotation_seq as u64
}

/// Whether a row is how a record is written.
pub open spec fn row_writes(row: PeerRow, p: PeerRecord) -> bool {
    &&& row.peer_id@ == p.peer_id@
    &&& row.device_pubkey@ == p.device_pubkey@
    &&& row.capabilities@ == object_text(capability_members(p.capabilities))
    &&& row.trust_state@ == json_quoted(trust_name(p.trust_state))
    &&& row.anchor_priority == p.anchor_priority
    &&& row.last_seen_at == stored_millis(p.last_seen_at)
    &&& (row.last_endpoint is Some) == (p.last_endpoint is Some)
    &&& row.last_endpoint is Some ==> row.last_endpoint->Some_0@ == object_text(
        endpoint_members(p.last_endpoint->Some_0.host@, p.last_endpoint->Some_0.port),
    )
    &&& row.nat_capability@ == json_quoted(nat_name(p.nat_capability))
    &&& (row.relay_hint is Some) == (p.relay_hint is Some)
    &&& row.relay_hint is Some ==> row.relay_hint->Some_0@ == p.relay_hint->Some_0@
    &&& row.success_bits == p.success_bits
    &&& row.rotation_seq == p.rotation_seq as i64
}

/// Whether two records say the same, with no time before the epoch.
pub open spec fn same_peer(a: PeerRecord, b: PeerRecord) -> bool {
    &&& a.peer_id@ == b.peer_id@
    &&& a.device_pubkey@ == b.device_pubkey@
    &&& a.capabilities == b.capabilities
    &&& a.trust_state == b.trust_state
    &&& a.anchor_priority == b.anchor_priority
    &&& a.last_seen_at == stored_millis(b.last_seen_at)
    &&& endpoint_view(a.last_endpoint) == endpoint_view(b.last_endpoint)
    &&& a.nat_capability == b.nat_capability
    &&& (a.relay_hint is Some) == (b.relay_hint is Some)
    &&& a.relay_hint is Some ==> a.relay_hint->Some_0@ == b.relay_hint->Some_0@
    &&& a.success_bits == b.success_bits
    &&& a.rotation_seq == b.rotation_seq
}

/// Each trust state, and what each network address translation lets through, is named by its
/// name.
pub proof fn law_state_names_roundtrip(t: TrustState, n: NatCapability)
    ensures
        trust_named(trust_name(t)) == Some(t),
        nat_named(nat_name(n)) == Some(n),
{
    reveal_strlit("Trusted");
    reveal_strlit("Pending");
    reveal_strlit("Revoked");
    reveal_strlit("Direct");
    reveal_strlit("Cone");
    reveal_strlit("Symmetric");
    reveal_strlit("Unknown");
    assert("Trusted"@[0] == 'T' && "Pending"@[0] == 'P' && "Revoked"@[0] == 'R');
    assert("Direct"@[0] == 'D' && "Cone"@[0] == 'C' && "Symmetric"@[0] == 'S' && "Unknown"@[0]
        == 'U');
}

proof fn lemma_snapshot_names()
    ensures
        snapshot_name(SnapshotKind::Full) != snapshot_name(SnapshotKind::Shallow),
{
    reveal_strlit("Full");
    reveal_strlit("Shallow");
    assert("Full"@.len() == 4 && "Shallow"@.len() == 7);
}

proof fn lemma_capability_members(c: AnchorCapabilities)
    ensures
        has_member(capability_members(c), "can_anchor"@, Json::Flag(c.can_anchor)),
        has_member(capability_members(c), "can_relay"@, Json::Flag(c.can_relay)),
        has_member(capability_members(c), "persistent"@, Json::Flag(c.persistent)),
{
    reveal_strlit("can_anchor");
    reveal_strlit("can_relay");
    reveal_strlit("persistent");
    let m = capability_members(c);
    assert(m[0].0.len() == 10 && m[1].0.len() == 9 && m[2].0.len() == 10);
    assert(m[0].0[0] == 'c' && m[2].0[0] == 'p');
    assert(names_differ(m));
    assert(m.contains(m[0]) && m.contains(m[1]) && m.contains(m[2]));
}

proof fn lemma_endpoint_members(host: Seq<char>, port: u16)
    ensures
        has_member(endpoint_members(host, port), "host"@, Json::Text(host)),
        has_member(endpoint_members(host, port), "port"@, Json::Int(port as i64 as int)),
{
    reveal_strlit("host");
    reveal_strlit("port");
    let m = endpoint_members(host, port);
    assert(m[0].0[0] == 'h' && m[1].0[0] == 'p');
    assert(names_differ(m));
    assert(m.contains(m[0]) && m.contains(m[1]));
}

/// A kind of snapshot as a cell.
pub fn snapshot_kind_cell(kind: SnapshotKind) -> (r: String)
    ensures
        r@ == json_quoted(snapshot_name(kind)),
{
    match kind {
        SnapshotKind::Full => json_quote("Full"),
        SnapshotKind::Shallow => json_quote("Shallow"),
    }
}

/// The kind of snapshot that a cell writes. A kind that was written is read back.
pub fn snapshot_kind_in(json: &str) -> (r: SnapshotKind)
    ensures
        r == snapshot_in(json@),
        forall|k: SnapshotKind| json@ == json_quoted(#[trigger] snapshot_name(k)) ==> r == k,
{
    proof {
        lemma_snapshot_names();
    }
    match json_unquote(json) {
        Some(name) => if same_text(name.as_str(), "Shallow") {
            SnapshotKind::Shallow
        } else {
            SnapshotKind::Full
        },
        None => SnapshotKind::Full,
    }
}

fn trust_of(json: &str) -> (r: TrustState)
    ensures
        r == trust_in(json@),
        forall|t: TrustState| json@ == json_quoted(#[trigger] trust_name(t)) ==> r == t,
{
    proof {
        law_state_names_roundtrip(TrustState::Revoked, NatCapability::Unknown);
        assert forall|t: TrustState| json@ == json_quoted(#[trigger] trust_name(t)) implies
            trust_named(trust_name(t)) == Some(t) by {
            law_state_names_roundtrip(t, NatCapability::Unknown);
        }
    }
    match json_unquote(json) {
        Some(name) => {
            if same_text(name.as_str(), "Trusted") {
                TrustState::Trusted
            } else if same_text(name.as_str(), "Revoked") {
                TrustState::Revoked
            } else {
                TrustState::Pending
            }
        },
        None => TrustState::Pending,
    }
}

fn nat_of(json: &str) -> (r: NatCapability)
    ensures
        r == nat_in(json@),
        forall|n: NatCapability| json@ == json_quoted(#[trigger] nat_name(n)) ==> r == n,
{
    proof {
        assert forall|n: NatCapability| json@ == json_quoted(#[trigger] nat_name(n)) implies
            nat_named(nat_name(n)) == Some(n) by {
            law_state_names_roundtrip(TrustState::Pending, n);
        }
    }
    match json_unquote(json) {
        Some(name) => {
            if same_text(name.as_str(), "Direct") {
                NatCapability::Direct
            } else if same_text(name.as_str(), "Cone") {
                NatCapability::Cone
            } else if same_text(name.as_str(), "Symmetric") {
                NatCapability::Symmetric
            } else {
                NatCapability::Unknown
            }
        },
        None => NatCapability::Unknown,
    }
}

fn capabilities_of(json: &str) -> (r: AnchorCapabilities)
    ensures
        r == capabilities_in(json@),
        forall|c: AnchorCapabilities|
            json@ == object_text(#[trigger] capability_members(c)) ==> r == c,
{
    let can_anchor = json_flag(json, "can_anchor");
    let can_relay = json_flag(json, "can_relay");
    let persistent = json_flag(json, "persistent");
    proof {
        assert forall|c: AnchorCapabilities|
            json@ == object_text(#[trigger] capability_members(c)) implies capabilities_in(json@)
            == c by {
            lemma_capability_members(c);
            assert(can_anchor == Some(c.can_anchor));
            assert(can_relay == Some(c.can_relay));
            assert(persistent == Some(c.persistent));
        }
    }
    match (can_anchor, can_relay, persistent) {
        (Some(can_anchor), Some(can_relay), Some(persistent)) => AnchorCapabilities {
            can_anchor,
            can_relay,
            persistent,
        },
        _ => AnchorCapabilities { can_anchor: false, can_relay: false, persistent: false },
    }
}

fn endpoint_of(json: &str) -> (r: Option<Endpoint>)
    ensures
        endpoint_view(r) == endpoint_in(json@),
        forall|host: Seq<char>, port: u16|
            json@ == object_text(#[trigger] endpoint_members(host, port)) ==> endpoint_view(r)
                == Some((host, port)),
{
    let host = json_text(json, "host");
    let port = json_int(json, "port");
    proof {
        assert forall|h: Seq<char>, p: u16|
            json@ == object_text(#[trigger] endpoint_members(h, p)) implies endpoint_in(json@)
            == Some((h, p)) by {
            lemma_endpoint_members(h, p);
            assert(port == Some(p as i64));
        }
    }
    match (host, port) {
        (Some(host), Some(port)) => {
            if port >= 0 && port <= u16::MAX as i64 {
                Some(Endpoint { host, port: port as u16 })
            } else {
                None
            }
        },
        _ => None,
    }
}

fn capabilities_cell(c: &AnchorCapabilities) -> (r: String)
    ensures
        r@ == object_text(capability_members(*c)),
{
    let ghost m = capability_members(*c);
    let mut out = object_begin();
    proof {
        assert(m.take(0) =~= Seq::<(Seq<char>, Json)>::empty());
        assert(m.take(1) =~= m.take(0).push(m[0]));
        assert(m.take(2) =~= m.take(1).push(m[1]));
        assert(m =~= m.take(2).push(m[2]));
    }
    object_member(
        &mut out,
        true,
        "can_anchor",
        flag_notation(c.can_anchor),
        Ghost(m.take(0)),
        Ghost(m[0].1),
    );
    object_member(
        &mut out,
        false,
        "can_relay",
        flag_notation(c.can_relay),
        Ghost(m.take(1)),
        Ghost(m[1].1),
    );
    object_member(
        &mut out,
        false,
        "persistent",
        flag_notation(c.persistent),
        Ghost(m.take(2)),
        Ghost(m[2].1),
    );
    object_end(&mut out, Ghost(m));
    out
}

/// An endpoint as a cell.
pub fn endpoint_json(e: &Endpoint) -> (r: String)
    ensures
        r@ == object_text(endpoint_members(e.host@, e.port)),
{
    let ghost m = endpoint_members(e.host@, e.port);
    let host = json_quote(e.host.as_str());
    let port = decimal_signed_string(e.port as i64);
    let mut out = object_begin();
    proof {
        assert(m.take(0) =~= Seq::<(Seq<char>, Json)>::empty());
        assert(m.take(1) =~= m.take(0).push(m[0]));
        assert(m =~= m.take(1).push(m[1]));
    }
    object_member(&mut out, true, "host", host.as_str(), Ghost(m.take(0)), Ghost(m[0].1));
    object_member(&mut out, false, "port", port.as_str(), Ghost(m.take(1)), Ghost(m[1].1));
    object_end(&mut out, Ghost(m));
    out
}

/// A trust state as a cell.
pub fn trust_json(t: TrustState) -> (r: String)
    ensures
        r@ == json_quoted(trust_name(t)),
{
    match t {
        TrustState::Trusted => json_quote("Trusted"),
        TrustState::Pending => json_quote("Pending"),
        TrustState::Revoked => json_quote("Revoked"),
    }
}

/// The peer that a row says. A peer that was written is read back.
pub fn peer_of_row(row: PeerRow) -> (r: PeerRecord)
    ensures
        row_says(row, r),
        forall|p: PeerRecord| #[trigger] row_writes(row, p) ==> same_peer(r, p),
{
    let capabilities = capabilities_of(row.capabilities.as_str());
    let trust_state = trust_of(row.trust_state.as_str());
    let nat_capability = nat_of(row.nat_capability.as_str());
    let last_endpoint = match &row.last_endpoint {
        Some(json) => endpoint_of(json.as_str()),
        None => None,
    };
    let relay_hint = match &row.relay_hint {
        Some(id) => Some(PeerId(id.clone())),
        None => None,
    };
    let r = PeerRecord {
        peer_id: PeerId(row.peer_id.clone()),
        device_pubkey: row.device_pubkey.clone(),
        capabilities,
        trust_state,
        anchor_priority: row.anchor_priority,
        last_seen_at: to_millis(row.last_seen_at),
        last_endpoint,
        nat_capability,
        relay_hint,
        success_bits: row.success_bits,
        rotation_seq: #[verifier::truncate]
        (row.rotation_seq as u64),
    };
    proof {
        assert forall|p: PeerRecord| #[trigger] row_writes(row, p) implies same_peer(r, p) by {
            let n = p.rotation_seq;
            assert((n as i64) as u64 == n) by (bit_vector);
        }
    }
    r
}

/// How a peer is written as a row.
pub fn row_of_peer(p: &PeerRecord) -> (r: PeerRow)
    ensures
        row_writes(r, *p),
{
    let through = match p.nat_capability {
        NatCapability::Direct => "Direct",
        NatCapability::Cone => "Cone",
        NatCapability::Symmetric => "Symmetric",
        NatCapability::Unknown => "Unknown",
    };
    let last_endpoint = match &p.last_endpoint {
        Some(e) => Some(endpoint_json(e)),
        None => None,
    };
    let relay_hint = match &p.relay_hint {
        Some(id) => Some(id.0.clone()),
        None => None,
    };
    PeerRow {
        peer_id: p.peer_id.0.clone(),
        device_pubkey: p.device_pubkey.clone(),
        capabilities: capabilities_cell(&p.capabilities),
        trust_state: trust_json(p.trust_state),
        anchor_priority: p.anchor_priority,
        last_seen_at: to_millis(p.last_seen_at),
        last_endpoint,
        nat_capability: json_quote(through),
        relay_hint,
        success_bits: p.success_bits,
        rotation_seq: #[verifier::truncate]
        (p.rotation_seq as i64),
    }
}

/// A peer that was written as a row is read back as it was, but for a time before the epoch, which becomes
/// the epoch. The row is found by the peer's identifier.
pub proof fn law_peer_is_read_back(p: &PeerRecord, row: PeerRow, back: PeerRecord)
    requires
        call_ensures(row_of_peer, (p,), row),
        call_ensures(peer_of_row, (row,), back),
    ensures
        row.peer_id@ == p.peer_id@,
        row.anchor_priority == p.anchor_priority,
        row.success_bits == p.success_bits,
        back.peer_id@ == p.peer_id@,
        back.device_pubkey@ == p.device_pubkey@,
        back.capabilities == p.capabilities,
        back.trust_state == p.trust_state,
        back.anchor_priority == p.anchor_priority,
        p.last_seen_at >= 0 ==> back.last_seen_at == p.last_seen_at,
        p.last_seen_at < 0 ==> back.last_seen_at == 0,
        back.last_endpoint is Some <==> p.last_endpoint is Some,
        p.last_endpoint matches Some(e) ==> back.last_endpoint->Some_0.host@ == e.host@
            && back.last_endpoint->Some_0.port == e.port,
        back.nat_capability == p.nat_capability,
        back.relay_hint is Some <==> p.relay_hint is Some,
        p.relay_hint matches Some(h) ==> back.relay_hint->Some_0@ == h@,
        back.success_bits == p.success_bits,
        back.rotation_seq == p.rotation_seq,
{
}

/// A peer is trusted only where its row says so; a row that says nothing that can be read gives a peer that
/// is pending, whose connections are not known and that can do nothing for others.
pub proof fn law_unreadable_cells_give_no_trust(row: PeerRow, p: PeerRecord)
    requires
        call_ensures(peer_of_row, (row,), p),
    ensures
        p.trust_state is Trusted ==> json_unquoted(row.trust_state@) == Some("Trusted"@),
        json_unquoted(row.trust_state@) is None ==> p.trust_state is Pending,
        json_unquoted(row.nat_capability@) is None ==> p.nat_capability is Unknown,
        p.capabilities.can_anchor ==> json_flag_at(row.capabilities@, "can_anchor"@) == Some(true),
        p.capabilities.can_relay ==> json_flag_at(row.capabilities@, "can_relay"@) == Some(true),
        p.capabilities.persistent ==> json_flag_at(row.capabilities@, "persistent"@) == Some(true),
        row.last_endpoint is None ==> p.last_endpoint is None,
        p.peer_id@ == row.peer_id@,
{
}

/// A kind of snapshot that was written is read back, and what cannot be read is the full kind.
pub proof fn law_snapshot_kind_is_read_back(
    kind: SnapshotKind,
    cell: String,
    json: &str,
    r: SnapshotKind,
)
    requires
        call_ensures(snapshot_kind_cell, (kind,), cell),
        call_ensures(snapshot_kind_in, (json,), r),
    ensures
        json@ == cell@ ==> r == kind,
        json_unquoted(json@) is None ==> r is Full,
{
}

} // verus!
