//! Between frontiers and the versions of replicated documents.
//!
//! A peer's identifier is the decimal notation of its number in replicated documents.

use loro::{Frontiers, LoroDoc};
use vstd::prelude::*;
use vstd::string::*;
use vstd::utf8::*;

use crate::error::{crdt_error, is_crdt_error, CoreError, CoreResult};
use crate::frontier::{raised, Frontier};
use crate::ids::PeerId;
use crate::loro_doc::{
    bytes_sound, carried_ops, covered, distinct_ids, doc_editable, doc_given, doc_ops, doc_root,
    doc_shallow, doc_sound, doc_updates, doc_version, doc_whole, export_shallow_of,
    export_snapshot_of, export_updates_of, frontiers_ids, frontiers_of_vector, grew, has_op,
    ids_of_frontiers, is_snapshot, knows_up_to, last_ids, lists, new_vector, no_operations,
    one_history, ops_beyond, prompt, set_vector_last, settled, shallow_granted, snapshot_granted,
    snapshot_ops, snapshot_root, snapshot_version, snapshot_whole, takes_in, updates_granted,
    vector_ends, with_last, Operation, VersionVector,
};
use crate::text::{decimal, decimal_string, digit_char, join2, lemma_lex_irreflexive};

verus! {

/// The number of a peer in replicated documents.
pub type LoroPeerId = u64;

/// The value of a decimal digit, ten where the character is none.
pub open spec fn digit_value(c: char) -> nat {
    if '0' <= c <= '9' {
        (c as nat - '0' as nat) as nat
    } else {
        10
    }
}

/// Whether a text consists of decimal digits.
pub open spec fn all_digits(s: Seq<char>) -> bool {
    forall|i: int| 0 <= i < s.len() ==> digit_value(#[trigger] s[i]) < 10
}

/// The number that decimal digits write.
pub open spec fn decimal_value(s: Seq<char>) -> nat
    decreases s.len(),
{
    if s.len() == 0 {
        0
    } else {
        10 * decimal_value(s.drop_last()) + digit_value(s.last())
    }
}

/// A text without the plus sign in front of it.
pub open spec fn unsigned(s: Seq<char>) -> Seq<char> {
    if s.len() > 0 && s[0] == '+' {
        s.skip(1)
    } else {
        s
    }
}

/// The number that an identifier writes: decimal digits, a plus sign in front of them or none, of
/// at most 64 bits.
pub open spec fn peer_number(s: Seq<char>) -> Option<u64> {
    let digits = unsigned(s);
    if digits.len() > 0 && all_digits(digits) && decimal_value(digits) <= u64::MAX {
        Some(decimal_value(digits) as u64)
    } else {
        None
    }
}

/// What is said of an identifier that is not a number.
pub open spec fn bad_peer_text(s: Seq<char>) -> Seq<char> {
    "PeerId 非法（期望 u64 字符串）: "@ + s
}

/// Whether `e` is a frontier error with text `m`.
pub open spec fn is_frontier_error(e: CoreError, m: Seq<char>) -> bool {
    e matches CoreError::InvalidFrontier(t) && t@ == m
}

/// The value of a decimal digit, ten where the character is none.
fn digit_of(c: char) -> (r: u64)
    ensures
        r as nat == digit_value(c),
{
    if c >= '0' && c <= '9' {
        (c as u32 - '0' as u32) as u64
    } else {
        10
    }
}

proof fn lemma_value_grows(s: Seq<char>, n: int)
    requires
        0 <= n <= s.len(),
    ensures
        decimal_value(s.take(n)) <= decimal_value(s),
    decreases s.len() - n,
{
    if n < s.len() {
        assert(s.take(n + 1).drop_last() =~= s.take(n));
        lemma_value_grows(s, n + 1);
    } else {
        assert(s.take(n) =~= s);
    }
}

/// The number of a peer from its identifier.
pub fn parse_peer_id(s: &str) -> (r: CoreResult<LoroPeerId>)
    ensures
        match r {
            Ok(n) => peer_number(s@) == Some(n),
            Err(e) => peer_number(s@) is None && is_frontier_error(e, bad_peer_text(s@)),
        },
{
    let len = s.unicode_len();
    let mut i: usize = 0;
    if len > 0 && s.get_char(0) == '+' {
        i = 1;
    }
    let ghost start = i as int;
    let ghost digits = unsigned(s@);
    assert(digits =~= s@.skip(start));
    let mut n: u64 = 0;
    let mut ok = len > i;
    assert(digits.take(0) =~= Seq::<char>::empty());
    while ok && i < len
        invariant
            start <= i <= len,
            len == s@.len(),
            0 <= start <= 1,
            digits == s@.skip(start),
            ok ==> n == decimal_value(digits.take(i - start)),
            ok ==> forall|j: int| 0 <= j < i - start ==> digit_value(#[trigger] digits[j]) < 10,
            ok ==> digits.len() > 0,
            !ok ==> digits.len() == 0 || !all_digits(digits) || decimal_value(digits) > u64::MAX,
        decreases len - i + (if ok { 1int } else { 0 }),
    {
        let c = s.get_char(i);
        assert(digits[i - start] == c);
        let d = digit_of(c);
        proof {
            let more = digits.take(i - start + 1);
            assert(more.drop_last() =~= digits.take(i - start));
            assert(more.last() == c);
            lemma_value_grows(digits, i - start + 1);
        }
        if d == 10 {
            ok = false;
        } else if n > u64::MAX / 10 || n * 10 > u64::MAX - d {
            ok = false;
        } else {
            n = n * 10 + d;
            i = i + 1;
        }
    }
    if ok {
        assert(digits.take(i - start) =~= digits);
        Ok(n)
    } else {
        Err(CoreError::InvalidFrontier(join2("PeerId 非法（期望 u64 字符串）: ", s)))
    }
}

/// The identifier of the peer with this number.
pub fn format_peer_id(peer: LoroPeerId) -> (r: String)
    ensures
        r@ == decimal(peer as nat),
{
    decimal_string(peer)
}

/// A number's decimal notation consists of digits and writes the number.
pub proof fn lemma_decimal_value(n: nat)
    ensures
        decimal(n).len() > 0,
        all_digits(decimal(n)),
        decimal_value(decimal(n)) == n,
        decimal(n)[0] != '+',
    decreases n,
{
    if n < 10 {
        let s = decimal(n);
        assert(s.drop_last() =~= Seq::<char>::empty());
        assert(digit_value(digit_char(n)) == n);
        assert(s.last() == digit_char(n));
        assert(decimal_value(s.drop_last()) == 0);
    } else {
        let front = decimal(n / 10);
        lemma_decimal_value(n / 10);
        let s = decimal(n);
        assert(s.drop_last() =~= front);
        assert(digit_value(digit_char(n % 10)) == n % 10);
        assert forall|i: int| 0 <= i < s.len() implies digit_value(#[trigger] s[i]) < 10 by {
            if i < front.len() {
                assert(s[i] == front[i]);
            }
        }
        assert(s[0] == front[0]);
        assert(s.last() == digit_char(n % 10));
    }
}

/// The number is read back from its identifier.
pub proof fn law_peer_id_roundtrip(n: u64)
    ensures
        peer_number(decimal(n as nat)) == Some(n),
{
    lemma_decimal_value(n as nat);
}

/// The counter of a peer's last operation, where `seq` of them are known.
///
/// Counters have 32 bits; of larger numbers the lower bits count.
pub open spec fn last_counter(seq: u64) -> i32 {
    ((seq - 1) as u64) as i32
}

/// What is wrong with an entry of a frontier, if anything is.
pub open spec fn entry_fault(p: (Seq<char>, u64)) -> Option<Seq<char>> {
    if peer_number(p.0) is None {
        Some(bad_peer_text(p.0))
    } else if p.1 == 0 {
        Some("seq 为 0: peer="@ + p.0)
    } else {
        None
    }
}

/// What is wrong with the first entry with which something is.
pub open spec fn first_fault(pairs: Seq<(Seq<char>, u64)>) -> Option<Seq<char>>
    decreases pairs.len(),
{
    if pairs.len() == 0 {
        None
    } else {
        match first_fault(pairs.drop_last()) {
            Some(f) => Some(f),
            None => entry_fault(pairs.last()),
        }
    }
}

/// The ends of what a frontier covers: of each peer its operations up to the last known one.
pub open spec fn ends_of(pairs: Seq<(Seq<char>, u64)>) -> Map<u64, i32>
    decreases pairs.len(),
{
    if pairs.len() == 0 {
        no_operations()
    } else {
        let last = pairs.last();
        with_last(ends_of(pairs.drop_last()), peer_number(last.0)->Some_0, last_counter(last.1))
    }
}

/// A first fault stays the first when entries follow.
proof fn lemma_fault_stays(pairs: Seq<(Seq<char>, u64)>, n: int)
    requires
        0 <= n <= pairs.len(),
        first_fault(pairs.take(n)) is Some,
    ensures
        first_fault(pairs) == first_fault(pairs.take(n)),
    decreases pairs.len() - n,
{
    if n < pairs.len() {
        assert(pairs.take(n + 1).drop_last() =~= pairs.take(n));
        lemma_fault_stays(pairs, n + 1);
    } else {
        assert(pairs.take(n) =~= pairs);
    }
}

/// The version vector of a frontier.
pub fn frontier_to_vv(frontier: &Frontier) -> (r: CoreResult<VersionVector>)
    ensures
        match r {
            Ok(vv) => first_fault(frontier.pairs()) is None && vector_ends(vv) == ends_of(
                frontier.pairs(),
            ),
            Err(e) => first_fault(frontier.pairs()) is Some && is_frontier_error(
                e,
                first_fault(frontier.pairs())->Some_0,
            ),
        },
{
    let mut vv = new_vector();
    let entries = frontier.entries();
    let ghost pairs = frontier.pairs();
    let mut i: usize = 0;
    assert(pairs.take(0) =~= Seq::<(Seq<char>, u64)>::empty());
    while i < entries.len()
        invariant
            i <= entries@.len(),
            entries@.len() == pairs.len(),
            pairs == frontier.pairs(),
            forall|j: int|
                0 <= j < entries@.len() ==> (#[trigger] entries@[j]).0@ == pairs[j].0
                    && entries@[j].1 == pairs[j].1,
            first_fault(pairs.take(i as int)) is None,
            vector_ends(vv) == ends_of(pairs.take(i as int)),
        decreases entries@.len() - i,
    {
        let (peer_str, seq) = entries[i];
        proof {
            assert(pairs.take(i + 1).drop_last() =~= pairs.take(i as int));
            assert(pairs.take(i + 1).last() == pairs[i as int]);
            assert(entries@[i as int].0@ == pairs[i as int].0);
            if first_fault(pairs.take(i + 1)) is Some {
                lemma_fault_stays(pairs, i + 1);
            }
        }
        let peer = match parse_peer_id(peer_str) {
            Ok(peer) => peer,
            Err(e) => {
                return Err(e);
            },
        };
        if seq == 0 {
            return Err(CoreError::InvalidFrontier(join2("seq 为 0: peer=", peer_str)));
        }
        let last: u64 = seq - 1;
        set_vector_last(
            &mut vv,
            peer,
            #[verifier::truncate]
            (last as i32),
        );
        i = i + 1;
    }
    assert(pairs.take(i as int) =~= pairs);
    Ok(vv)
}

/// How many operations of a peer are known, where the last one has this counter. A negative
/// counter counts from the top of the numbers of 64 bits.
pub open spec fn seq_after(counter: i32) -> u64 {
    ((counter + 1) % 0x1_0000_0000_0000_0000) as u64
}

/// The frontier that names these operations.
pub open spec fn frontier_of(ids: Map<u64, i32>) -> Map<Seq<char>, u64> {
    Map::new(
        |k: Seq<char>|
            peer_number(k) is Some && decimal(peer_number(k)->Some_0 as nat) == k
                && ids.contains_key(peer_number(k)->Some_0),
        |k: Seq<char>| seq_after(ids[peer_number(k)->Some_0]),
    )
}

fn seq_of_counter(counter: i32) -> (r: u64)
    ensures
        r == seq_after(counter),
{
    if counter >= 0 {
        counter as u64 + 1
    } else {
        let below: i64 = -(counter as i64 + 1);
        if below == 0 {
            0
        } else {
            proof {
                assert((counter + 1) % 0x1_0000_0000_0000_0000 == 0x1_0000_0000_0000_0000 - below)
                    by (nonlinear_arith)
                    requires
                        below == -(counter + 1),
                        0 < below < 0x1_0000_0000,
                ;
            }
            u64::MAX - (below as u64 - 1)
        }
    }
}

/// The frontier of the operations that `frontiers` name.
pub fn frontiers_to_frontier(frontiers: &Frontiers) -> (r: CoreResult<Frontier>)
    ensures
        r is Ok,
        r->Ok_0.wf(),
        r->Ok_0@ == frontier_of(frontiers_ids(*frontiers)),
{
    let mut out = Frontier::new();
    let ids = ids_of_frontiers(frontiers);
    let ghost m = frontiers_ids(*frontiers);
    let mut i: usize = 0;
    while i < ids.len()
        invariant
            i <= ids@.len(),
            lists(ids@, m),
            out.wf(),
            forall|k: Seq<char>| #[trigger]
                out@.contains_key(k) <==> exists|j: int|
                    0 <= j < i && decimal((#[trigger] ids@[j]).0 as nat) == k,
            forall|j: int|
                0 <= j < i ==> out@[decimal((#[trigger] ids@[j]).0 as nat)] == seq_after(ids@[j].1),
        decreases ids@.len() - i,
    {
        let (peer, counter) = ids[i];
        let ghost before = out@;
        out.set(PeerId(format_peer_id(peer)), seq_of_counter(counter));
        proof {
            let key = decimal(peer as nat);
            law_peer_id_roundtrip(peer);
            if before.contains_key(key) {
                let j = choose|j: int| 0 <= j < i && decimal((#[trigger] ids@[j]).0 as nat) == key;
                law_peer_id_roundtrip(ids@[j].0);
                assert(ids@[j].0 != ids@[i as int].0);
            }
            assert(out@ == raised(before, key, seq_after(counter)));
            assert forall|k: Seq<char>| #[trigger]
                out@.contains_key(k) <==> exists|j: int|
                    0 <= j < i + 1 && decimal((#[trigger] ids@[j]).0 as nat) == k by {
                if before.contains_key(k) {
                    let j = choose|j: int| 0 <= j < i && decimal((#[trigger] ids@[j]).0 as nat) == k;
                    assert(decimal(ids@[j].0 as nat) == k);
                }
                if k == key {
                    assert(decimal(ids@[i as int].0 as nat) == k);
                }
            }
            assert forall|j: int| 0 <= j < i + 1 implies out@[decimal(
                (#[trigger] ids@[j]).0 as nat,
            )] == seq_after(ids@[j].1) by {
                if j < i {
                    law_peer_id_roundtrip(ids@[j].0);
                    assert(before.contains_key(decimal(ids@[j].0 as nat)));
                    assert(ids@[j].0 != ids@[i as int].0);
                }
            }
        }
        i = i + 1;
    }
    proof {
        let want = frontier_of(m);
        assert forall|k: Seq<char>| out@.contains_key(k) <==> #[trigger] want.contains_key(k) by {
            if out@.contains_key(k) {
                let j = choose|j: int| 0 <= j < i && decimal((#[trigger] ids@[j]).0 as nat) == k;
                law_peer_id_roundtrip(ids@[j].0);
            }
            if want.contains_key(k) {
                let p = peer_number(k)->Some_0;
                let j = choose|j: int| 0 <= j < ids@.len() && (#[trigger] ids@[j]).0 == p;
                assert(decimal(ids@[j].0 as nat) == k);
            }
        }
        assert forall|k: Seq<char>| #[trigger] want.contains_key(k) implies out@[k] == want[k] by {
            let p = peer_number(k)->Some_0;
            let j = choose|j: int| 0 <= j < ids@.len() && (#[trigger] ids@[j]).0 == p;
            assert(out@[decimal(ids@[j].0 as nat)] == seq_after(ids@[j].1));
        }
        assert(out@ =~= want);
    }
    Ok(out)
}

/// The last operations that a frontier covers, in the form that documents take.
pub fn frontier_to_frontiers(frontier: &Frontier) -> (r: CoreResult<Vec<Frontiers>>)
    ensures
        match r {
            Ok(v) => first_fault(frontier.pairs()) is None && v@.len() == 1 && frontiers_ids(v@[0])
                == last_ids(ends_of(frontier.pairs())),
            Err(e) => first_fault(frontier.pairs()) is Some && is_frontier_error(
                e,
                first_fault(frontier.pairs())->Some_0,
            ),
        },
{
    match frontier_to_vv(frontier) {
        Ok(vv) => {
            let mut out: Vec<Frontiers> = Vec::new();
            out.push(frontiers_of_vector(&vv));
            Ok(out)
        },
        Err(e) => Err(e),
    }
}

impl VersionVector {
    /// The last operations that the vector covers.
    pub fn get_frontiers(&self) -> (r: Frontiers)
        ensures
            frontiers_ids(r) == last_ids(vector_ends(*self)),
    {
        frontiers_of_vector(self)
    }
}

/// Whether an entry's peer is written as numbers are, and its operations can be counted.
pub open spec fn countable(p: (Seq<char>, u64)) -> bool {
    peer_number(p.0) is Some && decimal(peer_number(p.0)->Some_0 as nat) == p.0 && 0 < p.1
        <= i32::MAX
}

proof fn lemma_ends(pairs: Seq<(Seq<char>, u64)>)
    requires
        forall|i: int| 0 <= i < pairs.len() ==> countable(#[trigger] pairs[i]),
        forall|i: int, j: int|
            0 <= i < j < pairs.len() ==> (#[trigger] pairs[i]).0 != (#[trigger] pairs[j]).0,
    ensures
        first_fault(pairs) is None,
        forall|p: u64| #[trigger]
            ends_of(pairs).contains_key(p) ==> exists|i: int|
                0 <= i < pairs.len() && (#[trigger] pairs[i]).0 == decimal(p as nat),
        forall|i: int|
            0 <= i < pairs.len() ==> ends_of(pairs).contains_key(
                peer_number((#[trigger] pairs[i]).0)->Some_0,
            ) && ends_of(pairs)[peer_number(pairs[i].0)->Some_0] == pairs[i].1,
    decreases pairs.len(),
{
    if pairs.len() > 0 {
        let front = pairs.drop_last();
        let last = pairs.last();
        let peer = peer_number(last.0)->Some_0;
        lemma_ends(front);
        assert(last == pairs[pairs.len() - 1]);
        assert(countable(last));
        assert(last_counter(last.1) == last.1 - 1);
        assert(ends_of(pairs) == ends_of(front).insert(peer, last.1 as i32));
        assert forall|p: u64| #[trigger] ends_of(pairs).contains_key(p) implies exists|i: int|
            0 <= i < pairs.len() && (#[trigger] pairs[i]).0 == decimal(p as nat) by {
            if p == peer {
                assert(pairs[pairs.len() - 1].0 == decimal(p as nat));
            } else {
                let i = choose|i: int|
                    0 <= i < front.len() && (#[trigger] front[i]).0 == decimal(p as nat);
                assert(pairs[i].0 == decimal(p as nat));
            }
        }
        assert forall|i: int| 0 <= i < pairs.len() implies ends_of(pairs).contains_key(
            peer_number((#[trigger] pairs[i]).0)->Some_0,
        ) && ends_of(pairs)[peer_number(pairs[i].0)->Some_0] == pairs[i].1 by {
            if i < front.len() {
                assert(front[i] == pairs[i]);
                if peer_number(pairs[i].0)->Some_0 == peer {
                    assert(pairs[i].0 == last.0);
                }
            }
        }
    }
}

/// A frontier comes back from its version vector.
///
/// Its peers must be written as numbers are, without leading zeros or a plus sign, and have at
/// least one operation and at most as many as a counter of 32 bits holds.
pub proof fn law_frontier_roundtrip(f: &Frontier)
    requires
        f.wf(),
        forall|i: int| 0 <= i < f.pairs().len() ==> countable(#[trigger] f.pairs()[i]),
    ensures
        first_fault(f.pairs()) is None,
        frontier_of(last_ids(ends_of(f.pairs()))) == f@,
{
    let pairs = f.pairs();
    f.lemma_pairs();
    assert forall|i: int, j: int| 0 <= i < j < pairs.len() implies (#[trigger] pairs[i]).0 != (
    #[trigger] pairs[j]).0 by {
        lemma_lex_irreflexive(encode_utf8(pairs[i].0));
    }
    lemma_ends(pairs);
    let ids = last_ids(ends_of(pairs));
    let back = frontier_of(ids);
    assert forall|k: Seq<char>| back.contains_key(k) <==> #[trigger] f@.dom().contains(k) by {
        if back.contains_key(k) {
            let p = peer_number(k)->Some_0;
            assert(ends_of(pairs).contains_key(p));
            let i = choose|i: int|
                0 <= i < pairs.len() && (#[trigger] pairs[i]).0 == decimal(p as nat);
            assert(f@.dom().contains(pairs[i].0));
        }
        if f@.dom().contains(k) {
            let i = choose|i: int| 0 <= i < pairs.len() && (#[trigger] pairs[i]).0 == k;
            assert(countable(pairs[i]));
        }
    }
    assert forall|k: Seq<char>| #[trigger] f@.dom().contains(k) implies back[k] == f@[k] by {
        let i = choose|i: int| 0 <= i < pairs.len() && (#[trigger] pairs[i]).0 == k;
        assert(countable(pairs[i]));
    }
    assert(back =~= f@);
}

/// A replica that is where a document was knows, however the document grew since, all that the
/// frontier of then covers: the changes since then are all that it lacks.
pub proof fn law_frontier_covers_the_past(before: LoroDoc, after: LoroDoc, f: &Frontier)
    requires
        f.wf(),
        f@ == frontier_of(doc_version(before)),
        forall|p: u64| #[trigger]
            doc_version(before).contains_key(p) ==> 0 <= doc_version(before)[p] < i32::MAX
                && has_op(doc_ops(before), p, doc_version(before)[p]),
        grew(before, after),
    ensures
        first_fault(f.pairs()) is None,
        knows_up_to(doc_ops(before), doc_ops(after), ends_of(f.pairs())),
{
    let pairs = f.pairs();
    f.lemma_pairs();
    let ids = doc_version(before);
    assert forall|i: int| 0 <= i < pairs.len() implies countable(#[trigger] pairs[i]) by {
        assert(f@.dom().contains(pairs[i].0));
        let p = peer_number(pairs[i].0)->Some_0;
        assert(ids.contains_key(p));
    }
    assert forall|i: int, j: int| 0 <= i < j < pairs.len() implies (#[trigger] pairs[i]).0 != (
    #[trigger] pairs[j]).0 by {
        lemma_lex_irreflexive(encode_utf8(pairs[i].0));
    }
    lemma_ends(pairs);
    let ends = ends_of(pairs);
    assert forall|o: Operation| #[trigger]
        doc_ops(after).contains(o) && covered(ends, o) implies doc_ops(before).contains(o) by {
        let i = choose|i: int|
            0 <= i < pairs.len() && (#[trigger] pairs[i]).0 == decimal(o.peer as nat);
        law_peer_id_roundtrip(o.peer);
        assert(f@.dom().contains(pairs[i].0));
        assert(ids.contains_key(o.peer));
        assert(has_op(doc_ops(before), o.peer, ids[o.peer]));
        let q = choose|q: Operation| #[trigger]
            doc_ops(before).contains(q) && q.peer == o.peer && q.counter == ids[o.peer];
        assert(doc_ops(before).contains(q));
    }
}

/// How a document is exported.
pub enum LoroExport<'a> {
    /// The whole document with its history.
    Snapshot,
    /// The operations beyond a frontier.
    UpdatesSince(&'a Frontier),
    /// The document, with the history before a frontier left out.
    ShallowSnapshot(&'a Frontier),
}

/// Whether `e` says that an export was refused.
pub open spec fn is_export_error(e: CoreError) -> bool {
    is_crdt_error(e, "Loro 导出失败: "@)
}

/// The fault of the frontier that an export is asked for, if it has one.
pub open spec fn export_fault(mode: LoroExport) -> Option<Seq<char>> {
    match mode {
        LoroExport::Snapshot => None,
        LoroExport::UpdatesSince(f) => first_fault(f.pairs()),
        LoroExport::ShallowSnapshot(f) => first_fault(f.pairs()),
    }
}

/// Whether a document grants an export.
pub open spec fn granted(mode: LoroExport, doc: LoroDoc) -> bool {
    match mode {
        LoroExport::Snapshot => snapshot_granted(doc),
        LoroExport::UpdatesSince(f) => updates_granted(doc, ends_of(f.pairs())),
        LoroExport::ShallowSnapshot(f) => shallow_granted(doc, last_ids(ends_of(f.pairs()))),
    }
}

/// Whether bytes are what a document gives for an export.
pub open spec fn exported(mode: LoroExport, doc: LoroDoc, bytes: Seq<u8>) -> bool {
    bytes_sound(bytes) && match mode {
        LoroExport::Snapshot => is_snapshot(bytes) && (doc_editable(doc) ==> {
            &&& snapshot_version(bytes) == doc_version(doc)
            &&& snapshot_ops(bytes) == doc_ops(doc)
            &&& snapshot_whole(bytes) == doc_whole(doc)
            &&& doc_whole(doc) ==> carried_ops(bytes) == Some(doc_ops(doc))
            &&& forall|name: Seq<char>| #[trigger]
                snapshot_root(bytes, name) == doc_root(doc, name)
        }),
        LoroExport::UpdatesSince(f) => doc_updates(doc, ends_of(f.pairs()), bytes) && (doc_editable(
            doc,
        ) && doc_whole(doc) ==> {
            &&& carried_ops(bytes) == Some(ops_beyond(doc_ops(doc), ends_of(f.pairs())))
            &&& one_history(doc_ops(doc), ops_beyond(doc_ops(doc), ends_of(f.pairs())))
        }),
        LoroExport::ShallowSnapshot(f) => doc_shallow(doc, last_ids(ends_of(f.pairs())), bytes) && (
        doc_editable(doc) ==> {
            &&& is_snapshot(bytes)
            &&& snapshot_version(bytes) == doc_version(doc)
            &&& forall|name: Seq<char>| #[trigger]
                snapshot_root(bytes, name) == doc_root(doc, name)
        }),
    }
}

impl LoroExport<'_> {
    /// Exports a document. A frontier with a fault is refused; otherwise the document decides.
    pub fn export(&self, doc: &LoroDoc) -> (r: CoreResult<Vec<u8>>)
        requires
            doc_sound(*doc),
        ensures
            match r {
                Ok(bytes) => export_fault(*self) is None && granted(*self, *doc) && exported(
                    *self,
                    *doc,
                    bytes@,
                ),
                Err(e) => match export_fault(*self) {
                    Some(f) => is_frontier_error(e, f),
                    None => !granted(*self, *doc) && is_export_error(e),
                },
            },
    {
        let result = match self {
            LoroExport::Snapshot => export_snapshot_of(doc),
            LoroExport::UpdatesSince(f) => match frontier_to_vv(f) {
                Ok(vv) => export_updates_of(doc, vv),
                Err(e) => {
                    return Err(e);
                },
            },
            LoroExport::ShallowSnapshot(f) => match frontier_to_vv(f) {
                Ok(vv) => export_shallow_of(doc, frontiers_of_vector(&vv)),
                Err(e) => {
                    return Err(e);
                },
            },
        };
        match result {
            Ok(bytes) => Ok(bytes),
            Err(e) => Err(crdt_error("Loro 导出失败: ", e.as_str())),
        }
    }
}

/// Whether a document can take in what another one exports of its changes since a frontier: both
/// have their whole history, nothing waits, no two of their operations go by the same peer and
/// counter, and what the frontier covers is there.
pub open spec fn awaits(doc: LoroDoc, other: LoroDoc, since: &Frontier) -> bool {
    &&& doc_whole(doc)
    &&& doc_whole(other)
    &&& settled(doc)
    &&& settled(other)
    &&& distinct_ids(doc_ops(doc).union(doc_ops(other)))
    &&& knows_up_to(doc_ops(doc), doc_ops(other), ends_of(since.pairs()))
}

/// A document that takes in the changes of another one since a frontier was given the operations
/// of both, and none of them waits longer than it has to.
pub proof fn law_changes_are_added(
    source: LoroDoc,
    since: &Frontier,
    bytes: Seq<u8>,
    before: LoroDoc,
    after: LoroDoc,
)
    requires
        doc_editable(source),
        exported(LoroExport::UpdatesSince(since), source, bytes),
        awaits(before, source, since),
        takes_in(before, after, bytes),
    ensures
        doc_whole(after),
        doc_given(after) == doc_ops(before).union(doc_ops(source)),
        distinct_ids(doc_given(after)),
        prompt(after),
{
    let carried = ops_beyond(doc_ops(source), ends_of(since.pairs()));
    assert(doc_ops(before).union(carried) =~= doc_ops(before).union(doc_ops(source)));
}

/// An identifier, with a plus sign in front or without, is taken just where the rest of it is decimal digits
/// that write a number of at most 64 bits; and that number it stands for.
pub proof fn law_identifier_writes_its_number(s: &str, digits: Seq<char>, r: CoreResult<LoroPeerId>)
    requires
        s@ == digits || s@ == seq!['+'] + digits,
        digits.len() > 0 ==> digits[0] != '+',
        call_ensures(parse_peer_id, (s,), r),
    ensures
        r is Ok <==> digits.len() > 0 && (forall|i: int|
            0 <= i < digits.len() ==> '0' <= #[trigger] digits[i] <= '9')
            && crate::text::digits_value(digits) <= u64::MAX,
        r matches Ok(n) ==> n == crate::text::digits_value(digits),
        r matches Err(e) ==> e is InvalidFrontier,
{
    if s@ == digits {
        assert(unsigned(s@) == digits);
    } else {
        assert(s@.skip(1) =~= digits);
        assert(unsigned(s@) == digits);
    }
    if all_digits(digits) {
        lemma_same_value(digits);
        assert forall|i: int| 0 <= i < digits.len() implies '0' <= #[trigger] digits[i] <= '9' by {
            assert(digit_value(digits[i]) < 10);
        }
    } else {
        let i = choose|i: int| 0 <= i < digits.len() && !(digit_value(#[trigger] digits[i]) < 10);
        assert(!('0' <= digits[i] <= '9'));
    }
}

proof fn lemma_same_value(s: Seq<char>)
    requires
        all_digits(s),
    ensures
        decimal_value(s) == crate::text::digits_value(s),
    decreases s.len(),
{
    if s.len() > 0 {
        let front = s.drop_last();
        assert forall|i: int| 0 <= i < front.len() implies digit_value(#[trigger] front[i]) < 10 by {
            assert(digit_value(s[i]) < 10);
        }
        lemma_same_value(front);
        assert(digit_value(s[s.len() - 1]) < 10);
    }
}

/// The number of a peer comes back from its identifier.
pub proof fn law_peer_number_is_read_back(
    n: LoroPeerId,
    text: String,
    s: &str,
    r: CoreResult<LoroPeerId>,
)
    requires
        call_ensures(format_peer_id, (n,), text),
        s@ == text@,
        call_ensures(parse_peer_id, (s,), r),
    ensures
        r == Ok::<LoroPeerId, CoreError>(n),
{
    law_peer_id_roundtrip(n);
}

/// A frontier comes back from the form that documents take, where its peers are written as numbers are and
/// have at least one operation and at most as many as a counter of 32 bits holds.
pub proof fn law_frontier_is_read_back(
    f: &Frontier,
    there: CoreResult<Vec<Frontiers>>,
    ids: &Frontiers,
    back: CoreResult<Frontier>,
)
    requires
        f.wf(),
        forall|k: Seq<char>| #[trigger]
            f@.contains_key(k) ==> 0 < f@[k] <= i32::MAX && exists|n: u64|
                #[trigger] decimal(n as nat) == k,
        call_ensures(frontier_to_frontiers, (f,), there),
        there matches Ok(v) ==> v@.len() == 1 && v@[0] == *ids,
        call_ensures(frontiers_to_frontier, (ids,), back),
    ensures
        there is Ok,
        back matches Ok(g) && g@ == f@,
{
    f.lemma_pairs();
    assert forall|i: int| 0 <= i < f.pairs().len() implies countable(#[trigger] f.pairs()[i]) by {
        let k = f.pairs()[i].0;
        assert(f@.dom().contains(k));
        assert(f@.contains_key(k));
        let n = choose|n: u64| #[trigger] decimal(n as nat) == k;
        law_peer_id_roundtrip(n);
    }
    law_frontier_roundtrip(f);
}

/// A frontier has a version vector just where each of its peers is a number and has at least one
/// operation.
pub proof fn law_bad_frontiers_are_refused(f: &Frontier, r: CoreResult<VersionVector>)
    requires
        f.wf(),
        call_ensures(frontier_to_vv, (f,), r),
    ensures
        r is Ok <==> forall|k: Seq<char>| #[trigger]
            f@.contains_key(k) ==> f@[k] > 0 && peer_number(k) is Some,
        r matches Err(e) ==> e is InvalidFrontier,
{
    f.lemma_pairs();
    lemma_no_fault(f.pairs());
    if r is Ok {
        assert forall|k: Seq<char>| #[trigger] f@.contains_key(k) implies f@[k] > 0 && peer_number(k)
            is Some by {
            assert(f@.dom().contains(k));
            let i = choose|i: int| 0 <= i < f.pairs().len() && (#[trigger] f.pairs()[i]).0 == k;
            assert(entry_fault(f.pairs()[i]) is None);
        }
    }
    if forall|k: Seq<char>| #[trigger]
        f@.contains_key(k) ==> f@[k] > 0 && peer_number(k) is Some {
        assert forall|i: int| 0 <= i < f.pairs().len() implies entry_fault(#[trigger] f.pairs()[i])
            is None by {
            assert(f@.dom().contains(f.pairs()[i].0));
            assert(f@.contains_key(f.pairs()[i].0));
        }
    }
}

proof fn lemma_no_fault(pairs: Seq<(Seq<char>, u64)>)
    ensures
        first_fault(pairs) is None <==> forall|i: int|
            0 <= i < pairs.len() ==> entry_fault(#[trigger] pairs[i]) is None,
    decreases pairs.len(),
{
    if pairs.len() > 0 {
        let front = pairs.drop_last();
        let n = pairs.len() - 1;
        lemma_no_fault(front);
        if first_fault(pairs) is None {
            assert forall|i: int| 0 <= i < pairs.len() implies entry_fault(#[trigger] pairs[i])
                is None by {
                if i < n {
                    assert(entry_fault(front[i]) is None);
                }
            }
        }
        if forall|i: int| 0 <= i < pairs.len() ==> entry_fault(#[trigger] pairs[i]) is None {
            assert forall|i: int| 0 <= i < front.len() implies entry_fault(#[trigger] front[i])
                is None by {
                assert(entry_fault(pairs[i]) is None);
            }
            assert(entry_fault(pairs[n]) is None);
        }
    }
}

/// A whole export of a document is a snapshot of it, and so is one with part of the history left out: a
/// document made from either holds the same under every name, and has come as far.
pub proof fn law_exports_hold_the_document(
    mode: LoroExport,
    doc: &LoroDoc,
    r: CoreResult<Vec<u8>>,
    name: Seq<char>,
)
    requires
        doc_editable(*doc),
        call_ensures(LoroExport::export, (&mode, doc), r),
    ensures
        r is Ok && !(mode is UpdatesSince) ==> is_snapshot(r->Ok_0@) && snapshot_root(
            r->Ok_0@,
            name,
        ) == doc_root(*doc, name) && snapshot_version(r->Ok_0@) == doc_version(*doc),
        r is Ok && mode is Snapshot ==> snapshot_ops(r->Ok_0@) == doc_ops(*doc) && snapshot_whole(
            r->Ok_0@,
        ) == doc_whole(*doc),
        r matches Err(e) ==> e is InvalidFrontier || e is Crdt,
{
}

/// The changes beyond a frontier are just those operations of the document that the frontier does not
/// cover.
pub proof fn law_changes_are_those_beyond(
    since: &Frontier,
    vv: CoreResult<VersionVector>,
    doc: &LoroDoc,
    r: CoreResult<Vec<u8>>,
    o: Operation,
)
    requires
        doc_editable(*doc),
        doc_whole(*doc),
        call_ensures(frontier_to_vv, (since,), vv),
        call_ensures(LoroExport::export, (&LoroExport::UpdatesSince(since), doc), r),
        r is Ok,
    ensures
        vv is Ok,
        carried_ops(r->Ok_0@) is Some,
        carried_ops(r->Ok_0@)->Some_0.contains(o) <==> doc_ops(*doc).contains(o) && !({
            let ends = vector_ends(vv->Ok_0);
            ends.contains_key(o.peer) && o.counter < ends[o.peer]
        }),
{
}

/// The operations that a document has come to are told as how many of each peer are known: one more than the
/// counter of the last one, by the decimal notation of the peer's number, and of no other peer.
pub proof fn law_frontier_counts_operations(ids: &Frontiers, r: CoreResult<Frontier>, p: u64)
    requires
        call_ensures(frontiers_to_frontier, (ids,), r),
    ensures
        r is Ok,
        r->Ok_0@.contains_key(decimal(p as nat)) <==> frontiers_ids(*ids).contains_key(p),
        frontiers_ids(*ids).contains_key(p) && frontiers_ids(*ids)[p] >= 0
            ==> r->Ok_0@[decimal(p as nat)] == frontiers_ids(*ids)[p] + 1,
        forall|k: Seq<char>| #[trigger]
            r->Ok_0@.contains_key(k) ==> exists|n: u64| #[trigger] decimal(n as nat) == k,
{
    law_peer_id_roundtrip(p);
    assert forall|k: Seq<char>| #[trigger] r->Ok_0@.contains_key(k) implies exists|n: u64|
        #[trigger] decimal(n as nat) == k by {
        let n = peer_number(k)->Some_0;
        assert(decimal(n as nat) == k);
    }
}

/// A frontier that knows so many operations of a peer covers just those with smaller counters.
pub proof fn law_vector_covers_what_is_known(f: &Frontier, r: CoreResult<VersionVector>, p: u64)
    requires
        f.wf(),
        forall|k: Seq<char>| #[trigger]
            f@.contains_key(k) ==> 0 < f@[k] <= i32::MAX && exists|n: u64|
                #[trigger] decimal(n as nat) == k,
        call_ensures(frontier_to_vv, (f,), r),
    ensures
        r is Ok,
        vector_ends(r->Ok_0).contains_key(p) <==> f@.contains_key(decimal(p as nat)),
        f@.contains_key(decimal(p as nat)) ==> vector_ends(r->Ok_0)[p] == f@[decimal(p as nat)],
{
    f.lemma_pairs();
    let pairs = f.pairs();
    law_peer_id_roundtrip(p);
    assert forall|i: int| 0 <= i < pairs.len() implies countable(#[trigger] pairs[i]) by {
        let k = pairs[i].0;
        assert(f@.dom().contains(k));
        assert(f@.contains_key(k));
        let n = choose|n: u64| #[trigger] decimal(n as nat) == k;
        law_peer_id_roundtrip(n);
    }
    assert forall|i: int, j: int| 0 <= i < j < pairs.len() implies (#[trigger] pairs[i]).0 != (
    #[trigger] pairs[j]).0 by {
        lemma_lex_irreflexive(encode_utf8(pairs[i].0));
    }
    lemma_ends(pairs);
    if ends_of(pairs).contains_key(p) {
        let i = choose|i: int| 0 <= i < pairs.len() && (#[trigger] pairs[i]).0 == decimal(p as nat);
        assert(f@.dom().contains(pairs[i].0));
    }
    if f@.contains_key(decimal(p as nat)) {
        assert(f@.dom().contains(decimal(p as nat)));
        let i = choose|i: int| 0 <= i < pairs.len() && (#[trigger] pairs[i]).0 == decimal(p as nat);
        assert(countable(pairs[i]));
    }
}

} // verus!
