//! What is stored of documents, peers and transfers, and what is decided from it.
//!
//! Times are milliseconds since the Unix epoch; none is stored that lies before it.

use vstd::prelude::*;
use vstd::string::*;
use vstd::utf8::*;

use crate::error::{CoreError, CoreResult};
use crate::frontier::Frontier;
use crate::ids::{BlockId, CheckpointId, DocId, PeerId};
use crate::model::{NatCapability, PeerRecord, TrustState};
use crate::octets::{array32, copy_range};
use crate::secret_storage::{wipe, wipe_key};
use crate::text::{
    lemma_lex_irreflexive, lemma_lex_total, lemma_lex_transitive,
    lemma_utf8_injective, lex_lt, text_before, text_lt,
};

verus! {

/// A stored document.
#[derive(Debug)]
pub struct DocRecord {
    pub doc_id: DocId,
    pub kind: String,
    pub current_frontier: Frontier,
    pub current_snapshot_id: Option<String>,
    pub updated_at: i64,
}

/// How far a block has come with a peer.
#[derive(Debug)]
pub struct BlockSyncStateRecord {
    pub doc_id: DocId,
    pub block_id: BlockId,
    pub peer_id: PeerId,
    pub expected_frontier: Frontier,
    pub observed_frontier: Frontier,
    pub retry_after_ms: i64,
    pub updated_at: i64,
}

/// How well a way to a peer works.
#[derive(Debug)]
pub struct TransportStatsRecord {
    pub peer_id: PeerId,
    pub channel: String,
    /// The average success rate as the bits of its double-precision form.
    pub success_bits: u64,
    pub avg_latency_ms: i64,
    pub updated_at: i64,
}

/// A stored checkpoint.
#[derive(Debug)]
pub struct CheckpointRecord {
    pub doc_id: DocId,
    pub checkpoint_id: CheckpointId,
    pub shallow_snapshot_blob: Vec<u8>,
    pub frontier: Frontier,
    pub state_hash: [u8; 32],
    pub created_at: i64,
}

/// A change on its way to a peer.
#[derive(Debug)]
pub struct SyncLogRecord {
    pub entry_id: String,
    pub doc_id: DocId,
    pub delta_id: String,
    pub recipient_peer_id: PeerId,
    pub delivered_at: Option<i64>,
    pub acknowledged_at: Option<i64>,
    pub channel: String,
}

/// The keys of this device.
pub struct DeviceIdentityRecord {
    pub signing_key: [u8; 32],
    pub static_private: [u8; 32],
    pub static_public: Vec<u8>,
    pub binding_proof: Vec<u8>,
    pub created_at: i64,
}

/// The private keys are wiped where the record is dropped.
impl Drop for DeviceIdentityRecord {
    fn drop(&mut self)
        opens_invariants none
        no_unwind
    {
        wipe_key(&mut self.signing_key);
        wipe_key(&mut self.static_private);
    }
}

/// The keys of this device as they are stored.
pub struct IdentityRow {
    pub signing_key: Vec<u8>,
    pub static_private: Vec<u8>,
    pub static_public: Vec<u8>,
    pub binding_proof: Vec<u8>,
    pub created_at: i64,
}

/// The private keys are wiped where the row is dropped.
impl Drop for IdentityRow {
    fn drop(&mut self)
        opens_invariants none
        no_unwind
    {
        wipe(&mut self.signing_key);
        wipe(&mut self.static_private);
    }
}

/// A point in time as it is stored: not before the epoch.
pub open spec fn stored_millis(ms: i64) -> i64 {
    if ms < 0 {
        0
    } else {
        ms
    }
}

/// A point in time as it is stored.
pub fn to_millis(ms: i64) -> (r: i64)
    ensures
        r == stored_millis(ms),
{
    if ms < 0 {
        0
    } else {
        ms
    }
}

/// A point in time from what is stored.
pub fn from_millis(ms: i64) -> (r: i64)
    ensures
        r == stored_millis(ms),
{
    to_millis(ms)
}

/// A hash from what is stored: zeros where that has another length.
pub open spec fn stored_hash(bytes: Seq<u8>) -> Seq<u8> {
    if bytes.len() == 32 {
        bytes
    } else {
        Seq::new(32, |i: int| 0u8)
    }
}

/// A hash from what is stored.
pub fn state_hash_of(bytes: &[u8]) -> (r: [u8; 32])
    ensures
        r@ == stored_hash(bytes@),
{
    if bytes.len() == 32 {
        let r = array32(bytes, 0);
        assert(r@ =~= bytes@);
        r
    } else {
        let r = [0u8;32];
        assert(r@ =~= stored_hash(bytes@));
        r
    }
}

/// Whether `e` is a storage error with text `m`.
pub open spec fn is_store_error(e: CoreError, m: Seq<char>) -> bool {
    e matches CoreError::Store(t) && t@ == m
}

/// What is said of a stored key of the wrong length.
pub open spec fn key_length_text(column: Seq<char>, name: Seq<char>) -> Seq<char> {
    "Conversion error from type Blob at index: "@ + column + ", "@ + name + " 长度不为 32 字节"@
}

fn key_length_error(column: &str, name: &str) -> (r: CoreError)
    ensures
        is_store_error(r, key_length_text(column@, name@)),
{
    let mut text = "Conversion error from type Blob at index: ".to_owned();
    text.append(column);
    text.append(", ");
    text.append(name);
    text.append(" 长度不为 32 字节");
    CoreError::Store(text)
}

/// Whether a row holds what a record says.
pub open spec fn identity_saved(rec: DeviceIdentityRecord, row: IdentityRow) -> bool {
    &&& row.signing_key@ == rec.signing_key@
    &&& row.static_private@ == rec.static_private@
    &&& row.static_public@ == rec.static_public@
    &&& row.binding_proof@ == rec.binding_proof@
    &&& row.created_at == stored_millis(rec.created_at)
}

/// Whether `r` is what is loaded from a row, where there is one.
pub open spec fn identity_loaded(
    row: Option<IdentityRow>,
    r: CoreResult<Option<DeviceIdentityRecord>>,
) -> bool {
    match (row, r) {
        (None, Ok(None)) => true,
        (Some(row), Ok(Some(rec))) => {
            &&& rec.signing_key@ == row.signing_key@
            &&& rec.static_private@ == row.static_private@
            &&& rec.static_public@ == row.static_public@
            &&& rec.binding_proof@ == row.binding_proof@
            &&& rec.created_at == stored_millis(row.created_at)
        },
        (Some(row), Err(e)) => if row.signing_key@.len() != 32 {
            is_store_error(e, key_length_text("0"@, "signing_key"@))
        } else {
            row.static_private@.len() != 32 && is_store_error(
                e,
                key_length_text("1"@, "static_private"@),
            )
        },
        _ => false,
    }
}

/// How the keys of this device are stored.
pub fn save_device_identity(rec: &DeviceIdentityRecord) -> (r: IdentityRow)
    ensures
        identity_saved(*rec, r),
{
    let r = IdentityRow {
        signing_key: copy_range(rec.signing_key.as_slice(), 0, 32),
        static_private: copy_range(rec.static_private.as_slice(), 0, 32),
        static_public: copy_range(rec.static_public.as_slice(), 0, rec.static_public.len()),
        binding_proof: copy_range(rec.binding_proof.as_slice(), 0, rec.binding_proof.len()),
        created_at: to_millis(rec.created_at),
    };
    assert(r.signing_key@ =~= rec.signing_key@);
    assert(r.static_private@ =~= rec.static_private@);
    assert(r.static_public@ =~= rec.static_public@);
    assert(r.binding_proof@ =~= rec.binding_proof@);
    r
}

/// The keys of this device from what is stored of them.
pub fn load_device_identity(row: Option<IdentityRow>) -> (r: CoreResult<
    Option<DeviceIdentityRecord>,
>)
    ensures
        identity_loaded(row, r),
{
    match row {
        None => Ok(None),
        Some(row) => {
            if row.signing_key.len() != 32 {
                return Err(key_length_error("0", "signing_key"));
            }
            if row.static_private.len() != 32 {
                return Err(key_length_error("1", "static_private"));
            }
            let rec = DeviceIdentityRecord {
                signing_key: array32(row.signing_key.as_slice(), 0),
                static_private: array32(row.static_private.as_slice(), 0),
                static_public: copy_range(row.static_public.as_slice(), 0, row.static_public.len()),
                binding_proof: copy_range(row.binding_proof.as_slice(), 0, row.binding_proof.len()),
                created_at: from_millis(row.created_at),
            };
            assert(rec.signing_key@ =~= row.signing_key@);
            assert(rec.static_private@ =~= row.static_private@);
            assert(rec.static_public@ =~= row.static_public@);
            assert(rec.binding_proof@ =~= row.binding_proof@);
            Ok(Some(rec))
        },
    }
}

/// The keys of this device are loaded as they were saved.
pub proof fn law_identity_is_read_back(
    rec: DeviceIdentityRecord,
    row: IdentityRow,
    r: CoreResult<Option<DeviceIdentityRecord>>,
)
    requires
        identity_saved(rec, row),
        identity_loaded(Some(row), r),
    ensures
        r is Ok,
        r->Ok_0 is Some,
        ({
            let back = r->Ok_0->Some_0;
            &&& back.signing_key@ == rec.signing_key@
            &&& back.static_private@ == rec.static_private@
            &&& back.static_public@ == rec.static_public@
            &&& back.binding_proof@ == rec.binding_proof@
            &&& back.created_at == stored_millis(rec.created_at)
        }),
{
}

/// How good a network address translation is for others.
pub open spec fn rank_of(capability: NatCapability) -> u8 {
    match capability {
        NatCapability::Direct => 3,
        NatCapability::Cone => 2,
        NatCapability::Symmetric => 1,
        NatCapability::Unknown => 0,
    }
}

/// How good a network address translation is for others.
pub fn nat_rank(capability: &NatCapability) -> (r: u8)
    ensures
        r == rank_of(*capability),
{
    match capability {
        NatCapability::Direct => 3,
        NatCapability::Cone => 2,
        NatCapability::Symmetric => 1,
        NatCapability::Unknown => 0,
    }
}

/// Whether a peer can be the anchor.
pub open spec fn can_be_anchor(p: PeerRecord) -> bool {
    p.trust_state == TrustState::Trusted && p.capabilities.can_anchor
}

/// Whether a peer can relay for others.
pub open spec fn can_be_relay(p: PeerRecord) -> bool {
    p.trust_state == TrustState::Trusted && p.capabilities.can_relay
}

/// The bits of a rate without its sign.
pub open spec fn rate_magnitude(bits: u64) -> int {
    if bits >= 0x8000_0000_0000_0000 {
        bits - 0x8000_0000_0000_0000
    } else {
        bits as int
    }
}

/// Whether the bits of a rate stand for a number.
pub open spec fn is_rate(bits: u64) -> bool {
    rate_magnitude(bits) <= 0x7ff0_0000_0000_0000
}

/// Where the number that the bits of a rate stand for is among the others: a larger number has a
/// larger place, and zero has one place, whatever its sign.
pub open spec fn rate_place(bits: u64) -> int {
    if bits >= 0x8000_0000_0000_0000 {
        -rate_magnitude(bits)
    } else {
        rate_magnitude(bits)
    }
}

/// Whether one rate is larger than another. What is no number is neither larger nor smaller.
pub open spec fn rate_above(a: u64, b: u64) -> bool {
    is_rate(a) && is_rate(b) && rate_place(a) > rate_place(b)
}

fn is_rate_above(a: u64, b: u64) -> (r: bool)
    ensures
        r == rate_above(a, b),
{
    let sign: u64 = 0x8000_0000_0000_0000;
    let top: u64 = 0x7ff0_0000_0000_0000;
    let a_negative = a >= sign;
    let b_negative = b >= sign;
    let a_size: u64 = if a_negative {
        a - sign
    } else {
        a
    };
    let b_size: u64 = if b_negative {
        b - sign
    } else {
        b
    };
    if a_size > top || b_size > top {
        false
    } else if a_negative {
        b_negative && a_size < b_size
    } else if b_negative {
        a_size > 0 || b_size > 0
    } else {
        a_size > b_size
    }
}

/// Whether `a` is the better anchor: by priority, network address translation, success rate and
/// when it was last seen, the larger first, and then by the smaller identifier.
pub open spec fn better_anchor(a: PeerRecord, b: PeerRecord) -> bool {
    if a.anchor_priority != b.anchor_priority {
        a.anchor_priority > b.anchor_priority
    } else if rank_of(a.nat_capability) != rank_of(b.nat_capability) {
        rank_of(a.nat_capability) > rank_of(b.nat_capability)
    } else if rate_above(a.success_bits, b.success_bits) {
        true
    } else if rate_above(b.success_bits, a.success_bits) {
        false
    } else if a.last_seen_at != b.last_seen_at {
        a.last_seen_at > b.last_seen_at
    } else {
        text_lt(a.peer_id@, b.peer_id@)
    }
}

/// Which of some peers is elected: each that can be the anchor takes the place of the one before
/// unless that is better.
pub open spec fn elected(peers: Seq<PeerRecord>) -> Option<PeerRecord>
    decreases peers.len(),
{
    if peers.len() == 0 {
        None
    } else {
        let before = elected(peers.drop_last());
        let p = peers.last();
        if !can_be_anchor(p) || (before is Some && better_anchor(before->Some_0, p)) {
            before
        } else {
            Some(p)
        }
    }
}

/// Whether the peer at `i` can be the anchor and no other that can is better.
pub open spec fn is_best_anchor(peers: Seq<PeerRecord>, i: int) -> bool {
    &&& 0 <= i < peers.len()
    &&& can_be_anchor(peers[i])
    &&& forall|j: int|
        0 <= j < peers.len() && can_be_anchor(#[trigger] peers[j]) ==> !better_anchor(
            peers[j],
            peers[i],
        )
}

fn is_better(a: &PeerRecord, b: &PeerRecord) -> (r: bool)
    ensures
        r == better_anchor(*a, *b),
{
    if a.anchor_priority != b.anchor_priority {
        a.anchor_priority > b.anchor_priority
    } else if nat_rank(&a.nat_capability) != nat_rank(&b.nat_capability) {
        nat_rank(&a.nat_capability) > nat_rank(&b.nat_capability)
    } else if is_rate_above(a.success_bits, b.success_bits) {
        true
    } else if is_rate_above(b.success_bits, a.success_bits) {
        false
    } else if a.last_seen_at != b.last_seen_at {
        a.last_seen_at > b.last_seen_at
    } else {
        text_before(a.peer_id.as_str(), b.peer_id.as_str())
    }
}

/// The anchor that is elected among the trusted peers that can be one.
pub fn best_anchor(peers: &Vec<PeerRecord>) -> (r: Option<PeerId>)
    ensures
        r == (match elected(peers@) {
            Some(p) => Some(p.peer_id),
            None => None,
        }),
{
    let mut best: Option<usize> = None;
    let mut i: usize = 0;
    assert(peers@.take(0) =~= Seq::<PeerRecord>::empty());
    while i < peers.len()
        invariant
            i <= peers@.len(),
            match best {
                Some(b) => b < i && elected(peers@.take(i as int)) == Some(peers@[b as int]),
                None => elected(peers@.take(i as int)) is None,
            },
        decreases peers@.len() - i,
    {
        let p = &peers[i];
        assert(peers@.take(i + 1).drop_last() =~= peers@.take(i as int));
        assert(peers@.take(i + 1).last() == *p);
        if matches!(p.trust_state, TrustState::Trusted) && p.capabilities.can_anchor {
            match best {
                None => {
                    best = Some(i);
                },
                Some(b) => {
                    if !is_better(&peers[b], p) {
                        best = Some(i);
                    }
                },
            }
        }
        i = i + 1;
    }
    assert(peers@.take(i as int) =~= peers@);
    match best {
        Some(b) => Some(peers[b].peer_id.clone()),
        None => None,
    }
}

/// Among peers whose rates are numbers, better is an order.
proof fn lemma_better_is_an_order(a: PeerRecord, b: PeerRecord, c: PeerRecord)
    requires
        is_rate(a.success_bits),
        is_rate(b.success_bits),
        is_rate(c.success_bits),
    ensures
        !better_anchor(a, a),
        better_anchor(a, b) ==> !better_anchor(b, a),
        !better_anchor(b, a) && better_anchor(b, c) ==> !better_anchor(c, a),
        better_anchor(c, b) && !better_anchor(a, b) ==> better_anchor(c, a),
        !better_anchor(b, a) && !better_anchor(c, b) ==> !better_anchor(c, a),
{
    lemma_texts_ordered(a.peer_id@, b.peer_id@, c.peer_id@);
    lemma_texts_ordered(c.peer_id@, a.peer_id@, b.peer_id@);
    lemma_texts_ordered(b.peer_id@, c.peer_id@, a.peer_id@);
    lemma_texts_ordered(a.peer_id@, c.peer_id@, b.peer_id@);
    lemma_texts_ordered(c.peer_id@, b.peer_id@, a.peer_id@);
    lemma_texts_ordered(b.peer_id@, a.peer_id@, c.peer_id@);
}

proof fn lemma_texts_ordered(a: Seq<char>, b: Seq<char>, c: Seq<char>)
    ensures
        !text_lt(a, a),
        text_lt(a, b) || text_lt(b, a) || a == b,
        text_lt(a, b) ==> !text_lt(b, a),
        text_lt(a, b) && text_lt(b, c) ==> text_lt(a, c),
{
    let (x, y, z) = (encode_utf8(a), encode_utf8(b), encode_utf8(c));
    lemma_lex_irreflexive(x);
    lemma_lex_total(x, y);
    if x == y {
        lemma_utf8_injective(a, b);
    }
    if lex_lt(x, y) && lex_lt(y, z) {
        lemma_lex_transitive(x, y, z);
    }
    if lex_lt(x, y) && lex_lt(y, x) {
        lemma_lex_transitive(x, y, x);
    }
}

/// Where the rates of the peers that can be the anchor are numbers, no such peer is better than
/// the one that is elected; and one is elected where there is such a peer.
pub proof fn law_elected_is_best(peers: Seq<PeerRecord>)
    requires
        forall|i: int|
            0 <= i < peers.len() && can_be_anchor(#[trigger] peers[i]) ==> is_rate(
                peers[i].success_bits,
            ),
    ensures
        match elected(peers) {
            Some(p) => exists|i: int| #[trigger] is_best_anchor(peers, i) && peers[i] == p,
            None => forall|i: int| 0 <= i < peers.len() ==> !can_be_anchor(#[trigger] peers[i]),
        },
    decreases peers.len(),
{
    if peers.len() > 0 {
        let front = peers.drop_last();
        let n = peers.len() - 1;
        assert forall|i: int| 0 <= i < front.len() && can_be_anchor(
            #[trigger] front[i],
        ) implies is_rate(front[i].success_bits) by {
            assert(front[i] == peers[i]);
        }
        law_elected_is_best(front);
        assert forall|i: int| 0 <= i < n implies front[i] == #[trigger] peers[i] by {}
        match elected(front) {
            Some(b) => {
                let k = choose|i: int| #[trigger] is_best_anchor(front, i) && front[i] == b;
                assert(front[k] == peers[k]);
                if elected(peers) == Some(b) {
                    assert(is_best_anchor(peers, k)) by {
                        if can_be_anchor(peers[n]) {
                            lemma_better_is_an_order(b, peers[n], b);
                        }
                        assert forall|j: int| 0 <= j < peers.len() && can_be_anchor(
                            #[trigger] peers[j],
                        ) implies !better_anchor(peers[j], peers[k]) by {
                            if j < n {
                                assert(front[j] == peers[j]);
                            }
                        }
                    }
                } else {
                    assert(is_best_anchor(peers, n)) by {
                        assert forall|j: int| 0 <= j < peers.len() && can_be_anchor(
                            #[trigger] peers[j],
                        ) implies !better_anchor(peers[j], peers[n]) by {
                            lemma_better_is_an_order(peers[n], b, peers[j]);
                            if j < n {
                                assert(front[j] == peers[j]);
                            }
                        }
                    }
                }
            },
            None => {
                if can_be_anchor(peers[n]) {
                    lemma_better_is_an_order(peers[n], peers[n], peers[n]);
                    assert(is_best_anchor(peers, n));
                } else {
                    assert forall|i: int| 0 <= i < peers.len() implies !can_be_anchor(
                        #[trigger] peers[i],
                    ) by {
                        if i < n {
                            assert(front[i] == peers[i]);
                        }
                    }
                }
            },
        }
    }
}

/// All best anchors have the same identifier.
pub proof fn law_best_anchor_is_one(peers: Seq<PeerRecord>, i: int, j: int)
    requires
        is_best_anchor(peers, i),
        is_best_anchor(peers, j),
    ensures
        peers[i].peer_id@ == peers[j].peer_id@,
{
    let (a, b) = (peers[i], peers[j]);
    assert(!better_anchor(a, b) && !better_anchor(b, a));
    lemma_texts_ordered(a.peer_id@, b.peer_id@, a.peer_id@);
}

/// The identifiers of the peers that can relay, in their order.
pub open spec fn relays(peers: Seq<PeerRecord>) -> Seq<Seq<char>>
    decreases peers.len(),
{
    if peers.len() == 0 {
        Seq::empty()
    } else if can_be_relay(peers.last()) {
        relays(peers.drop_last()).push(peers.last().peer_id@)
    } else {
        relays(peers.drop_last())
    }
}

/// The trusted peers that can relay, in their order.
pub fn list_relay_candidates(peers: &Vec<PeerRecord>) -> (r: Vec<PeerId>)
    ensures
        r@.map_values(|p: PeerId| p@) == relays(peers@),
{
    let mut out: Vec<PeerId> = Vec::new();
    let mut i: usize = 0;
    let ghost view = |p: PeerId| p@;
    assert(peers@.take(0) =~= Seq::<PeerRecord>::empty());
    assert(out@.map_values(view) =~= Seq::<Seq<char>>::empty());
    while i < peers.len()
        invariant
            i <= peers@.len(),
            view == (|p: PeerId| p@),
            out@.map_values(view) == relays(peers@.take(i as int)),
        decreases peers@.len() - i,
    {
        let ghost before = out@;
        assert(peers@.take(i + 1).drop_last() =~= peers@.take(i as int));
        assert(peers@.take(i + 1).last() == peers@[i as int]);
        let p = &peers[i];
        if matches!(p.trust_state, TrustState::Trusted) && p.capabilities.can_relay {
            out.push(p.peer_id.clone());
            assert(out@.map_values(view) =~= before.map_values(view).push(p.peer_id@));
        }
        i = i + 1;
    }
    assert(peers@.take(i as int) =~= peers@);
    out
}

/// A character in a pattern that stands for itself.
pub open spec fn escaped_char(c: char) -> Seq<char> {
    if c == '\\' || c == '%' || c == '_' {
        seq!['\\', c]
    } else {
        seq![c]
    }
}

/// A text as the part of a pattern that stands for itself.
pub open spec fn escaped(s: Seq<char>) -> Seq<char>
    decreases s.len(),
{
    if s.len() == 0 {
        Seq::empty()
    } else {
        escaped(s.drop_last()) + escaped_char(s.last())
    }
}

/// The text that a pattern stands for: a backslash takes the next character as it is. Nothing
/// where the pattern stands for more than one text.
pub open spec fn pattern_text(p: Seq<char>) -> Option<Seq<char>>
    decreases p.len(),
{
    if p.len() == 0 {
        Some(Seq::empty())
    } else if p[0] == '\\' {
        if p.len() == 1 {
            None
        } else {
            match pattern_text(p.skip(2)) {
                Some(t) => Some(seq![p[1]] + t),
                None => None,
            }
        }
    } else if p[0] == '%' || p[0] == '_' {
        None
    } else {
        match pattern_text(p.skip(1)) {
            Some(t) => Some(seq![p[0]] + t),
            None => None,
        }
    }
}

/// The pattern for the identifiers that begin with `prefix`, a backslash being the escape
/// character.
pub fn prefix_pattern(prefix: &str) -> (r: String)
    ensures
        r@ == escaped(prefix@).push('%'),
{
    proof {
        reveal_strlit("\\");
        reveal_strlit("%");
    }
    let len = prefix.unicode_len();
    let mut out = String::new();
    let mut i: usize = 0;
    assert(prefix@.take(0) =~= Seq::<char>::empty());
    assert(out@ =~= escaped(prefix@.take(0)));
    while i < len
        invariant
            i <= len,
            len == prefix@.len(),
            out@ == escaped(prefix@.take(i as int)),
            "\\"@ =~= seq!['\\'],
        decreases len - i,
    {
        let ghost before = out@;
        let c = prefix.get_char(i);
        let one = prefix.substring_char(i, i + 1);
        assert(one@ =~= seq![c]);
        if c == '\\' || c == '%' || c == '_' {
            out.append("\\");
        }
        out.append(one);
        proof {
            assert(prefix@.take(i + 1).drop_last() =~= prefix@.take(i as int));
            assert(prefix@.take(i + 1).last() == c);
            assert(out@ =~= before + escaped_char(c));
        }
        i = i + 1;
    }
    assert(prefix@.take(i as int) =~= prefix@);
    let ghost body = out@;
    out.append("%");
    assert(out@ =~= body.push('%'));
    out
}

/// A text in front of the escaped character keeps its meaning, where it does not end within an
/// escape.
proof fn lemma_pattern_tail(p: Seq<char>, c: char)
    requires
        pattern_text(p) is Some,
    ensures
        pattern_text(p + escaped_char(c)) == Some(pattern_text(p)->Some_0.push(c)),
    decreases p.len(),
{
    let e = escaped_char(c);
    let q = p + e;
    if p.len() == 0 {
        assert(q =~= e);
        if e.len() == 2 {
            assert(q.skip(2) =~= Seq::<char>::empty());
            assert(pattern_text(q.skip(2)) == Some(Seq::<char>::empty()));
        } else {
            assert(q.skip(1) =~= Seq::<char>::empty());
            assert(pattern_text(q.skip(1)) == Some(Seq::<char>::empty()));
        }
        assert(pattern_text(q)->Some_0 =~= Seq::<char>::empty().push(c));
    } else {
        assert(q[0] == p[0]);
        if p[0] == '\\' {
            lemma_pattern_tail(p.skip(2), c);
            assert(q.skip(2) =~= p.skip(2) + e);
            assert(q[1] == p[1]);
        } else {
            lemma_pattern_tail(p.skip(1), c);
            assert(q.skip(1) =~= p.skip(1) + e);
        }
        assert(pattern_text(q)->Some_0 =~= pattern_text(p)->Some_0.push(c));
    }
}

/// An escaped prefix stands for itself and for nothing else.
pub proof fn law_escaped_stands_for_itself(s: Seq<char>)
    ensures
        pattern_text(escaped(s)) == Some(s),
    decreases s.len(),
{
    if s.len() > 0 {
        law_escaped_stands_for_itself(s.drop_last());
        lemma_pattern_tail(escaped(s.drop_last()), s.last());
        assert(s.drop_last().push(s.last()) =~= s);
    }
}

/// The anchor that is elected is a trusted peer that can be one. Of all of these it has the highest
/// priority; among those with that priority, the best network address translation; among those, the
/// highest success rate; among those, it was seen last; and among those, it has the first identifier.
/// There is one just where a trusted peer can be the anchor. Rates are numbers; their bits are ordered
/// as the numbers are, but for the sign.
pub proof fn law_anchor_is_best_key_by_key(peers: &Vec<PeerRecord>, r: Option<PeerId>)
    requires
        call_ensures(best_anchor, (peers,), r),
        forall|i: int|
            0 <= i < peers@.len() ==> (#[trigger] peers@[i]).success_bits % 0x8000_0000_0000_0000
                <= 0x7ff0_0000_0000_0000,
    ensures
        r is Some <==> exists|i: int|
            0 <= i < peers@.len() && (#[trigger] peers@[i]).trust_state is Trusted
                && peers@[i].capabilities.can_anchor,
        r matches Some(id) ==> exists|i: int|
            0 <= i < peers@.len() && (#[trigger] peers@[i]).peer_id == id
                && peers@[i].trust_state is Trusted && peers@[i].capabilities.can_anchor && forall|
                j: int,
            |
                0 <= j < peers@.len() && (#[trigger] peers@[j]).trust_state is Trusted
                    && peers@[j].capabilities.can_anchor ==> {
                    let p = peers@[i];
                    let q = peers@[j];
                    let way = |n: NatCapability|
                        match n {
                            NatCapability::Unknown => 0int,
                            NatCapability::Symmetric => 1int,
                            NatCapability::Cone => 2int,
                            NatCapability::Direct => 3int,
                        };
                    let rate = |bits: u64|
                        if bits < 0x8000_0000_0000_0000 {
                            bits as int
                        } else {
                            0x8000_0000_0000_0000 - bits
                        };
                    &&& p.anchor_priority >= q.anchor_priority
                    &&& p.anchor_priority == q.anchor_priority ==> way(p.nat_capability) >= way(
                        q.nat_capability,
                    )
                    &&& p.anchor_priority == q.anchor_priority && way(p.nat_capability) == way(
                        q.nat_capability,
                    ) ==> rate(p.success_bits) >= rate(q.success_bits)
                    &&& p.anchor_priority == q.anchor_priority && way(p.nat_capability) == way(
                        q.nat_capability,
                    ) && rate(p.success_bits) == rate(q.success_bits) ==> p.last_seen_at
                        >= q.last_seen_at
                    &&& p.anchor_priority == q.anchor_priority && way(p.nat_capability) == way(
                        q.nat_capability,
                    ) && rate(p.success_bits) == rate(q.success_bits) && p.last_seen_at
                        == q.last_seen_at ==> p.peer_id@ == q.peer_id@ || text_lt(
                        p.peer_id@,
                        q.peer_id@,
                    )
                },
{
    let s = peers@;
    assert forall|i: int| 0 <= i < s.len() && can_be_anchor(#[trigger] s[i]) implies is_rate(
        s[i].success_bits,
    ) by {
        let bits = s[i].success_bits;
        assert(bits % 0x8000_0000_0000_0000 <= 0x7ff0_0000_0000_0000);
    }
    law_elected_is_best(s);
    if r is Some {
        let p = elected(s)->Some_0;
        let i = choose|i: int| #[trigger] is_best_anchor(s, i) && s[i] == p;
        assert forall|j: int|
            0 <= j < s.len() && (#[trigger] s[j]).trust_state is Trusted
                && s[j].capabilities.can_anchor implies !better_anchor(s[j], s[i]) && !text_lt(
            s[i].peer_id@,
            s[i].peer_id@,
        ) && (text_lt(s[j].peer_id@, p.peer_id@) || text_lt(p.peer_id@, s[j].peer_id@)
            || s[j].peer_id@ == p.peer_id@) by {
            assert(can_be_anchor(s[j]));
            lemma_texts_ordered(s[j].peer_id@, p.peer_id@, p.peer_id@);
        }
        assert(s[i].peer_id == r->Some_0);
    } else {
        assert forall|i: int| 0 <= i < s.len() implies !((#[trigger] s[i]).trust_state is Trusted
            && s[i].capabilities.can_anchor) by {
            assert(!can_be_anchor(s[i]));
        }
    }
}

/// A direct connection is better than one that only goes out, that is better than one through a relay,
/// and any is better than one that is not known.
pub proof fn law_direct_connections_are_best(
    direct: u8,
    cone: u8,
    symmetric: u8,
    unknown: u8,
)
    requires
        call_ensures(nat_rank, (&NatCapability::Direct,), direct),
        call_ensures(nat_rank, (&NatCapability::Cone,), cone),
        call_ensures(nat_rank, (&NatCapability::Symmetric,), symmetric),
        call_ensures(nat_rank, (&NatCapability::Unknown,), unknown),
    ensures
        direct > cone > symmetric > unknown,
{
}

/// The relays that are listed are the trusted peers that can relay, each as often as it is there, in
/// the order of the peers.
pub proof fn law_relays_are_the_trusted_ones(peers: &Vec<PeerRecord>, r: Vec<PeerId>)
    requires
        call_ensures(list_relay_candidates, (peers,), r),
    ensures
        exists|at: Seq<int>| #[trigger]
            at.len() == r@.len() && (forall|k: int|
                0 <= k < at.len() ==> 0 <= #[trigger] at[k] < peers@.len()
                    && peers@[at[k]].peer_id@ == r@[k]@ && peers@[at[k]].trust_state is Trusted
                    && peers@[at[k]].capabilities.can_relay) && (forall|k: int, l: int|
                0 <= k < l < at.len() ==> #[trigger] at[k] < #[trigger] at[l]) && (forall|i: int|
                0 <= i < peers@.len() && (#[trigger] peers@[i]).trust_state is Trusted
                    && peers@[i].capabilities.can_relay ==> at.contains(i)),
{
    let at = lemma_relays(peers@);
    let ids = r@.map_values(|p: PeerId| p@);
    assert(ids == relays(peers@));
    assert forall|k: int| 0 <= k < at.len() implies 0 <= #[trigger] at[k] < peers@.len()
        && peers@[at[k]].peer_id@ == r@[k]@ && peers@[at[k]].trust_state is Trusted
        && peers@[at[k]].capabilities.can_relay by {
        assert(ids[k] == r@[k]@);
        assert(can_be_relay(peers@[at[k]]));
    }
    assert forall|i: int|
        0 <= i < peers@.len() && (#[trigger] peers@[i]).trust_state is Trusted
            && peers@[i].capabilities.can_relay implies at.contains(i) by {
        assert(can_be_relay(peers@[i]));
    }
    assert(at.len() == r@.len());
}

proof fn lemma_relays(peers: Seq<PeerRecord>) -> (at: Seq<int>)
    ensures
        at.len() == relays(peers).len(),
        forall|k: int|
            0 <= k < at.len() ==> 0 <= #[trigger] at[k] < peers.len() && peers[at[k]].peer_id@
                == relays(peers)[k] && can_be_relay(peers[at[k]]),
        forall|k: int, l: int| 0 <= k < l < at.len() ==> #[trigger] at[k] < #[trigger] at[l],
        forall|i: int|
            0 <= i < peers.len() && can_be_relay(#[trigger] peers[i]) ==> at.contains(i),
    decreases peers.len(),
{
    if peers.len() == 0 {
        Seq::empty()
    } else {
        let n = peers.len() - 1;
        let front = peers.drop_last();
        let at = lemma_relays(front);
        let more = if can_be_relay(peers.last()) {
            at.push(n)
        } else {
            at
        };
        assert forall|k: int| 0 <= k < more.len() implies 0 <= #[trigger] more[k] < peers.len()
            && peers[more[k]].peer_id@ == relays(peers)[k] && can_be_relay(peers[more[k]]) by {
            if k < at.len() {
                assert(more[k] == at[k]);
                assert(peers[at[k]] == front[at[k]]);
            }
        }
        assert forall|k: int, l: int| 0 <= k < l < more.len() implies #[trigger] more[k]
            < #[trigger] more[l] by {
            assert(more[k] == at[k]);
            if l < at.len() {
                assert(more[l] == at[l]);
            }
        }
        assert forall|i: int|
            0 <= i < peers.len() && can_be_relay(#[trigger] peers[i]) implies more.contains(i) by {
            if i < n {
                assert(front[i] == peers[i]);
                let k = choose|k: int| 0 <= k < at.len() && at[k] == i;
                assert(more[k] == i);
            } else {
                assert(more[at.len() as int] == i);
            }
        }
        more
    }
}

/// Times from the epoch on are stored and loaded as they are; earlier ones become the epoch.
pub proof fn law_times_are_stored_as_they_are(ms: i64, stored: i64, loaded: i64)
    requires
        call_ensures(to_millis, (ms,), stored),
        call_ensures(from_millis, (stored,), loaded),
    ensures
        ms >= 0 ==> stored == ms && loaded == ms,
        ms < 0 ==> stored == 0 && loaded == 0,
{
}

/// A hash that was stored is loaded as it was. What has another length is no hash, and is loaded as
/// zeros.
pub proof fn law_hashes_are_loaded(bytes: &[u8], r: [u8; 32])
    requires
        call_ensures(state_hash_of, (bytes,), r),
    ensures
        bytes@.len() == 32 ==> r@ == bytes@,
        bytes@.len() != 32 ==> forall|i: int| 0 <= i < 32 ==> #[trigger] r@[i] == 0,
{
}

/// The keys of this device are loaded as they were saved, from a row that holds each under its own
/// name; where nothing was saved, nothing is loaded. Private keys of the wrong length are refused.
pub proof fn law_saved_keys_are_loaded(
    rec: &DeviceIdentityRecord,
    row: IdentityRow,
    r: CoreResult<Option<DeviceIdentityRecord>>,
    none: CoreResult<Option<DeviceIdentityRecord>>,
    bad: IdentityRow,
    refused: CoreResult<Option<DeviceIdentityRecord>>,
)
    requires
        call_ensures(save_device_identity, (rec,), row),
        call_ensures(load_device_identity, (Some(row),), r),
        call_ensures(load_device_identity, (None,), none),
        bad.signing_key@.len() != 32 || bad.static_private@.len() != 32,
        call_ensures(load_device_identity, (Some(bad),), refused),
    ensures
        row.signing_key@ == rec.signing_key@,
        row.static_private@ == rec.static_private@,
        row.static_public@ == rec.static_public@,
        row.binding_proof@ == rec.binding_proof@,
        r matches Ok(Some(back)) && back.signing_key@ == rec.signing_key@ && back.static_private@
            == rec.static_private@ && back.static_public@ == rec.static_public@
            && back.binding_proof@ == rec.binding_proof@ && (rec.created_at >= 0
            ==> back.created_at == rec.created_at),
        none matches Ok(None),
        refused matches Err(e) && e is Store,
{
}

/// The pattern for a prefix stands for the texts that begin with it, and only for those: the prefix as
/// it is, and then a sign for any text.
pub proof fn law_pattern_stands_for_the_prefix(prefix: &str, pattern: String)
    requires
        call_ensures(prefix_pattern, (prefix,), pattern),
    ensures
        forall|text: Seq<char>| #[trigger]
            like(pattern@, text) <==> prefix@.len() <= text.len() && text.take(
                prefix@.len() as int,
            ) == prefix@,
{
    assert forall|text: Seq<char>| #[trigger]
        like(pattern@, text) <==> prefix@.len() <= text.len() && text.take(prefix@.len() as int)
            == prefix@ by {
        lemma_like_prefix(prefix@, text);
    }
}

/// Whether a text is one that a pattern stands for: a backslash takes the next character as it is,
/// `_` stands for any character and `%` for any text.
pub open spec fn like(pattern: Seq<char>, text: Seq<char>) -> bool
    decreases pattern.len(), text.len(),
{
    if pattern.len() == 0 {
        text.len() == 0
    } else if pattern[0] == '%' {
        like(pattern.skip(1), text) || (text.len() > 0 && like(pattern, text.skip(1)))
    } else if pattern[0] == '_' {
        text.len() > 0 && like(pattern.skip(1), text.skip(1))
    } else if pattern[0] == '\\' && pattern.len() > 1 {
        text.len() > 0 && text[0] == pattern[1] && like(pattern.skip(2), text.skip(1))
    } else {
        text.len() > 0 && text[0] == pattern[0] && like(pattern.skip(1), text.skip(1))
    }
}

proof fn lemma_like_all(text: Seq<char>)
    ensures
        like(seq!['%'], text),
    decreases text.len(),
{
    let p = seq!['%'];
    assert(p.skip(1) =~= Seq::<char>::empty());
    if text.len() == 0 {
        assert(like(p.skip(1), text));
    } else {
        lemma_like_all(text.skip(1));
    }
}

proof fn lemma_escaped_front(s: Seq<char>)
    requires
        s.len() > 0,
    ensures
        escaped(s) == escaped_char(s[0]) + escaped(s.skip(1)),
    decreases s.len(),
{
    if s.len() == 1 {
        assert(s.drop_last() =~= Seq::<char>::empty());
        assert(s.skip(1) =~= Seq::<char>::empty());
        assert(escaped(s) =~= escaped_char(s[0]) + escaped(s.skip(1)));
    } else {
        lemma_escaped_front(s.drop_last());
        assert(s.drop_last().skip(1) =~= s.skip(1).drop_last());
        assert(escaped(s) =~= escaped_char(s[0]) + escaped(s.skip(1)));
    }
}

proof fn lemma_like_prefix(prefix: Seq<char>, text: Seq<char>)
    ensures
        like(escaped(prefix).push('%'), text) <==> prefix.len() <= text.len() && text.take(
            prefix.len() as int,
        ) == prefix,
    decreases prefix.len(),
{
    let p = escaped(prefix).push('%');
    if prefix.len() == 0 {
        assert(p =~= seq!['%']);
        lemma_like_all(text);
        assert(text.take(0) =~= prefix);
    } else {
        let rest = escaped(prefix.skip(1)).push('%');
        lemma_escaped_front(prefix);
        assert(p =~= escaped_char(prefix[0]) + rest);
        if escaped_char(prefix[0]).len() == 2 {
            assert(p.skip(2) =~= rest);
        } else {
            assert(p.skip(1) =~= rest);
        }
        if text.len() > 0 {
            lemma_like_prefix(prefix.skip(1), text.skip(1));
            let n = prefix.len() as int;
            if n <= text.len() {
                assert(text.take(n) =~= seq![text[0]] + text.skip(1).take(n - 1));
                assert(prefix =~= seq![prefix[0]] + prefix.skip(1));
                if text.take(n) == prefix {
                    assert(text.take(n)[0] == prefix[0]);
                    assert(text.skip(1).take(n - 1) =~= prefix.skip(1));
                }
            }
        }
    }
}

} // verus!
