//! Version vectors.
//!
//! A frontier tells, for each peer, the latest sequence number known of it. Acknowledgements,
//! gap detection and checkpoint boundaries are all stated as frontiers.

use vstd::prelude::*;
use vstd::string::*;

use crate::ids::PeerId;
use crate::text::{comma_joined, decimal, lemma_joined_push, push_decimal, text_lt};
use crate::text_map::TextMap;

verus! {

/// The latest known sequence number of each peer.
#[derive(Debug, PartialEq, Eq, Hash)]
pub struct Frontier {
    map: TextMap<u64>,
}

/// The sequence number of `k`, zero where nothing is known of it.
pub open spec fn seq_of(m: Map<Seq<char>, u64>, k: Seq<char>) -> u64 {
    if m.dom().contains(k) {
        m[k]
    } else {
        0
    }
}

/// Whether every sequence number of `b` is reached in `a`.
pub open spec fn covered_by(a: Map<Seq<char>, u64>, b: Map<Seq<char>, u64>) -> bool {
    forall|k: Seq<char>| #[trigger] b.dom().contains(k) ==> seq_of(a, k) >= b[k]
}

/// The larger of two sequence numbers.
pub open spec fn max_seq(x: u64, y: u64) -> u64 {
    if x >= y {
        x
    } else {
        y
    }
}

/// `m` with the sequence number of `k` raised to at least `seq`.
pub open spec fn raised(m: Map<Seq<char>, u64>, k: Seq<char>, seq: u64) -> Map<Seq<char>, u64> {
    m.insert(k, max_seq(seq_of(m, k), seq))
}

/// Peer by peer the larger sequence number of the two.
pub open spec fn merged(a: Map<Seq<char>, u64>, b: Map<Seq<char>, u64>) -> Map<Seq<char>, u64> {
    Map::new(
        |k: Seq<char>| a.dom().contains(k) || b.dom().contains(k),
        |k: Seq<char>| max_seq(seq_of(a, k), seq_of(b, k)),
    )
}

/// All of `pairs` raised in turn.
pub open spec fn raised_all(pairs: Seq<(PeerId, u64)>) -> Map<Seq<char>, u64>
    decreases pairs.len(),
{
    if pairs.len() == 0 {
        Map::empty()
    } else {
        raised(raised_all(pairs.drop_last()), pairs.last().0@, pairs.last().1)
    }
}

/// The entries of `pairs` that `mine` does not reach, in their order.
pub open spec fn missing(mine: Map<Seq<char>, u64>, pairs: Seq<(Seq<char>, u64)>) -> Seq<
    (Seq<char>, u64),
> {
    pairs.filter(|p: (Seq<char>, u64)| seq_of(mine, p.0) < p.1)
}

/// `peer:seq` entries in a row, with commas between them.
pub open spec fn canonical(pairs: Seq<(Seq<char>, u64)>) -> Seq<char>
    decreases pairs.len(),
{
    if pairs.len() == 0 {
        Seq::empty()
    } else {
        let front = pairs.drop_last();
        let entry = pairs.last().0 + ":"@ + decimal(pairs.last().1 as nat);
        if front.len() == 0 {
            entry
        } else {
            canonical(front) + ","@ + entry
        }
    }
}

/// Whether `k` is among the first `n` of `pairs`.
pub open spec fn listed(pairs: Seq<(Seq<char>, u64)>, n: int, k: Seq<char>) -> bool {
    exists|j: int| 0 <= j < n && (#[trigger] pairs[j]).0 == k
}

proof fn lemma_listed_next(pairs: Seq<(Seq<char>, u64)>, n: int, k: Seq<char>)
    requires
        0 <= n < pairs.len(),
    ensures
        listed(pairs, n + 1, k) <==> listed(pairs, n, k) || k == pairs[n].0,
{
    if listed(pairs, n, k) {
        let j = choose|j: int| 0 <= j < n && (#[trigger] pairs[j]).0 == k;
        assert(0 <= j < n + 1 && pairs[j].0 == k);
    }
    if k == pairs[n].0 {
        assert(pairs[n].0 == k);
    }
}

/// Peers and sequence numbers, the peers taken as texts.
pub open spec fn peer_pairs(s: Seq<(PeerId, u64)>) -> Seq<(Seq<char>, u64)> {
    s.map_values(|p: (PeerId, u64)| (p.0@, p.1))
}

impl View for Frontier {
    type V = Map<Seq<char>, u64>;

    closed spec fn view(&self) -> Map<Seq<char>, u64> {
        self.map@
    }
}

impl Default for Frontier {
    fn default() -> (r: Self)
        ensures
            r.wf(),
            r@ == Map::<Seq<char>, u64>::empty(),
    {
        Frontier { map: TextMap::new() }
    }
}

impl Clone for Frontier {
    fn clone(&self) -> (r: Self)
        ensures
            self.wf() ==> r.wf() && r@ == self@,
    {
        let mut out = Frontier::new();
        let mut i: usize = 0;
        while i < self.map.len()
            invariant
                i <= self.map.pairs().len(),
                out.wf(),
                self.wf() ==> forall|k: Seq<char>|
                    out@.dom().contains(k) <==> exists|j: int|
                        0 <= j < i && (#[trigger] self.map.pairs()[j]).0 == k,
                self.wf() ==> forall|k: Seq<char>| #[trigger]
                    out@.dom().contains(k) ==> self@.dom().contains(k) && out@[k] == self@[k],
            decreases self.map.pairs().len() - i,
        {
            let ghost before = out@;
            out.map.insert(self.map.key_at(i).clone(), *self.map.value_at(i));
            proof {
                if self.wf() {
                    self.map.lemma_pairs();
                    let key = self.map.pairs()[i as int].0;
                    assert(out@ == before.insert(key, self.map.pairs()[i as int].1));
                    assert forall|k: Seq<char>| out@.dom().contains(k) <==> exists|j: int|
                        0 <= j < i + 1 && (#[trigger] self.map.pairs()[j]).0 == k by {
                        if before.dom().contains(k) {
                            let j = choose|j: int|
                                0 <= j < i && (#[trigger] self.map.pairs()[j]).0 == k;
                            assert(self.map.pairs()[j].0 == k);
                        }
                        if k == key {
                            assert(self.map.pairs()[i as int].0 == k);
                        }
                    }
                }
            }
            i = i + 1;
        }
        proof {
            if self.wf() {
                self.map.lemma_pairs();
                assert(out@ =~= self@);
            }
        }
        out
    }
}

impl Frontier {
    /// The peers are kept in order, each once.
    pub closed spec fn wf(&self) -> bool {
        self.map.wf()
    }

    /// The entries in the order of the peers.
    pub closed spec fn pairs(&self) -> Seq<(Seq<char>, u64)> {
        self.map.pairs()
    }

    pub fn new() -> (r: Self)
        ensures
            r.wf(),
            r@ == Map::<Seq<char>, u64>::empty(),
    {
        Frontier { map: TextMap::new() }
    }

    /// `pairs` lists the frontier, each peer once, in ascending order.
    pub proof fn lemma_pairs(&self)
        requires
            self.wf(),
        ensures
            forall|i: int|
                0 <= i < self.pairs().len() ==> self@.dom().contains((#[trigger] self.pairs()[i]).0)
                    && self@[self.pairs()[i].0] == self.pairs()[i].1,
            forall|k: Seq<char>| #[trigger]
                self@.dom().contains(k) ==> exists|i: int|
                    0 <= i < self.pairs().len() && (#[trigger] self.pairs()[i]).0 == k,
            forall|i: int, j: int|
                0 <= i < j < self.pairs().len() ==> text_lt(
                    (#[trigger] self.pairs()[i]).0,
                    (#[trigger] self.pairs()[j]).0,
                ),
    {
        self.map.lemma_pairs();
    }

    /// The frontier with each of `entries` set in turn.
    pub fn from_iter(entries: Vec<(PeerId, u64)>) -> (r: Self)
        ensures
            r.wf(),
            r@ == raised_all(entries@),
    {
        let mut f = Frontier::new();
        let mut i: usize = 0;
        assert(entries@.take(0) =~= Seq::<(PeerId, u64)>::empty());
        while i < entries.len()
            invariant
                i <= entries@.len(),
                f.wf(),
                f@ == raised_all(entries@.take(i as int)),
            decreases entries@.len() - i,
        {
            assert(entries@.take(i + 1).drop_last() =~= entries@.take(i as int));
            f.set(entries[i].0.clone(), entries[i].1);
            i = i + 1;
        }
        assert(entries@.take(i as int) =~= entries@);
        f
    }

    /// Raises the sequence number of `peer` to at least `seq`.
    pub fn set(&mut self, peer: PeerId, seq: u64)
        requires
            old(self).wf(),
        ensures
            final(self).wf(),
            final(self)@ == raised(old(self)@, peer@, seq),
    {
        let mut value: u64 = seq;
        if let Some(known) = self.map.get(peer.as_str()) {
            if *known > value {
                value = *known;
            }
        }
        self.map.insert(peer.0, value);
    }

    /// The sequence number of `peer`, where it is known.
    pub fn get(&self, peer: &PeerId) -> (r: Option<u64>)
        requires
            self.wf(),
        ensures
            r == (if self@.dom().contains(peer@) {
                Some(self@[peer@])
            } else {
                None
            }),
    {
        match self.map.get(peer.as_str()) {
            Some(v) => Some(*v),
            None => None,
        }
    }

    /// Whether no peer is known.
    pub fn is_empty(&self) -> (r: bool)
        requires
            self.wf(),
        ensures
            r == (self@ == Map::<Seq<char>, u64>::empty()),
    {
        self.map.is_empty()
    }

    /// The peers with their sequence numbers, in the order of the peers.
    pub fn entries(&self) -> (r: Vec<(&str, u64)>)
        ensures
            r@.len() == self.pairs().len(),
            forall|i: int|
                0 <= i < r@.len() ==> (#[trigger] r@[i]).0@ == self.pairs()[i].0 && r@[i].1
                    == self.pairs()[i].1,
    {
        let mut out: Vec<(&str, u64)> = Vec::new();
        let mut i: usize = 0;
        while i < self.map.len()
            invariant
                i <= self.pairs().len(),
                self.pairs() == self.map.pairs(),
                out@.len() == i,
                forall|j: int|
                    0 <= j < i ==> (#[trigger] out@[j]).0@ == self.pairs()[j].0 && out@[j].1
                        == self.pairs()[j].1,
            decreases self.pairs().len() - i,
        {
            out.push((self.map.key_at(i).as_str(), *self.map.value_at(i)));
            i = i + 1;
        }
        out
    }

    /// Raises every sequence number to that of `other`.
    pub fn merge(&mut self, other: &Frontier)
        requires
            old(self).wf(),
            other.wf(),
        ensures
            final(self).wf(),
            final(self)@ == merged(old(self)@, other@),
    {
        let mut i: usize = 0;
        let ghost start = self@;
        let ghost pairs = other.map.pairs();
        while i < other.map.len()
            invariant
                i <= pairs.len(),
                pairs == other.map.pairs(),
                self.wf(),
                other.wf(),
                forall|k: Seq<char>| #[trigger]
                    self@.dom().contains(k) <==> start.dom().contains(k) || listed(
                        pairs,
                        i as int,
                        k,
                    ),
                forall|k: Seq<char>|
                    #![trigger seq_of(self@, k)]
                    seq_of(self@, k) == (if listed(pairs, i as int, k) {
                        max_seq(seq_of(start, k), other@[k])
                    } else {
                        seq_of(start, k)
                    }),
            decreases pairs.len() - i,
        {
            let ghost before = self@;
            self.set(PeerId(other.map.key_at(i).clone()), *other.map.value_at(i));
            proof {
                other.map.lemma_pairs();
                let key = pairs[i as int].0;
                assert(self@ == raised(before, key, other@[key]));
                assert forall|k: Seq<char>| #[trigger]
                    listed(pairs, i + 1, k) <==> listed(pairs, i as int, k) || k == key by {
                    lemma_listed_next(pairs, i as int, k);
                }
                assert forall|k: Seq<char>| #[trigger]
                    self@.dom().contains(k) <==> start.dom().contains(k) || listed(
                        pairs,
                        i + 1,
                        k,
                    ) by {
                    assert(before.dom().contains(k) <==> start.dom().contains(k) || listed(
                        pairs,
                        i as int,
                        k,
                    ));
                }
                assert forall|k: Seq<char>|
                    #![trigger seq_of(self@, k)]
                    seq_of(self@, k) == (if listed(pairs, i + 1, k) {
                        max_seq(seq_of(start, k), other@[k])
                    } else {
                        seq_of(start, k)
                    }) by {
                    assert(seq_of(before, k) == (if listed(pairs, i as int, k) {
                        max_seq(seq_of(start, k), other@[k])
                    } else {
                        seq_of(start, k)
                    }));
                    assert(listed(pairs, i + 1, k) <==> listed(pairs, i as int, k) || k == key);
                }
            }
            i = i + 1;
        }
        proof {
            other.map.lemma_pairs();
            assert forall|k: Seq<char>| #[trigger]
                listed(pairs, pairs.len() as int, k) <==> other@.dom().contains(k) by {}
            assert forall|k: Seq<char>| self@.dom().contains(k) implies self@[k] == merged(
                start,
                other@,
            )[k] by {
                assert(self@[k] == seq_of(self@, k));
                assert(listed(pairs, pairs.len() as int, k) <==> other@.dom().contains(k));
            }
            assert(self@ =~= merged(start, other@));
        }
    }

    /// Whether both frontiers hold the same peers with the same sequence numbers.
    pub fn same(&self, other: &Frontier) -> (r: bool)
        requires
            self.wf(),
            other.wf(),
        ensures
            r == (self@ == other@),
    {
        proof {
            if self@ == other@ {
                self.map.lemma_view_determines_pairs(&other.map);
            }
        }
        if self.map.len() != other.map.len() {
            return false;
        }
        let mut i: usize = 0;
        while i < self.map.len()
            invariant
                self.wf(),
                other.wf(),
                self@ == other@ ==> self.map.pairs() == other.map.pairs(),
                i <= self.map.pairs().len(),
                self.map.pairs().len() == other.map.pairs().len(),
                forall|j: int|
                    0 <= j < i ==> #[trigger] self.map.pairs()[j] == other.map.pairs()[j],
            decreases self.map.pairs().len() - i,
        {
            if *self.map.value_at(i) != *other.map.value_at(i) || !crate::text::same_text(
                self.map.key_at(i).as_str(),
                other.map.key_at(i).as_str(),
            ) {
                return false;
            }
            i = i + 1;
        }
        proof {
            self.map.lemma_pairs();
            other.map.lemma_pairs();
            assert forall|k: Seq<char>| self@.dom().contains(k) <==> other@.dom().contains(k) by {
                if self@.dom().contains(k) {
                    let j = choose|j: int|
                        0 <= j < self.map.pairs().len() && (#[trigger] self.map.pairs()[j]).0 == k;
                    assert(other.map.pairs()[j].0 == k);
                }
                if other@.dom().contains(k) {
                    let j = choose|j: int|
                        0 <= j < other.map.pairs().len() && (#[trigger] other.map.pairs()[j]).0
                            == k;
                    assert(self.map.pairs()[j].0 == k);
                }
            }
            assert forall|k: Seq<char>| self@.dom().contains(k) implies self@[k] == other@[k] by {
                let j = choose|j: int|
                    0 <= j < self.map.pairs().len() && (#[trigger] self.map.pairs()[j]).0 == k;
                assert(other.map.pairs()[j].0 == k);
            }
            assert(self@ =~= other@);
        }
        true
    }

    /// The entries as `peer:seq`, in the order of the peers, with commas between them.
    pub fn to_canonical_string(&self) -> (r: String)
        ensures
            r@ == canonical(self.pairs()),
    {
        let mut out = String::new();
        let mut i: usize = 0;
        assert(self.pairs().take(0) =~= Seq::<(Seq<char>, u64)>::empty());
        while i < self.map.len()
            invariant
                i <= self.pairs().len(),
                self.pairs() == self.map.pairs(),
                out@ == canonical(self.pairs().take(i as int)),
            decreases self.pairs().len() - i,
        {
            let ghost so_far = out@;
            assert(self.pairs().take(i + 1).drop_last() =~= self.pairs().take(i as int));
            if i > 0 {
                out.append(",");
            }
            out.append(self.map.key_at(i).as_str());
            out.append(":");
            push_decimal(&mut out, *self.map.value_at(i));
            proof {
                let p = self.pairs()[i as int];
                let entry = p.0 + ":"@ + decimal(p.1 as nat);
                if i > 0 {
                    assert(out@ =~= so_far + ","@ + entry);
                } else {
                    assert(out@ =~= entry);
                }
            }
            i = i + 1;
        }
        assert(self.pairs().take(i as int) =~= self.pairs());
        out
    }
}

/// What can be asked of anything that stands for a version.
pub trait FrontierOps {
    /// The sequence numbers reached.
    spec fn reached(&self) -> Map<Seq<char>, u64>;

    /// Whether the value is well formed.
    spec fn ops_wf(&self) -> bool;

    /// Whether every sequence number of `other` is reached.
    fn covers(&self, other: &Frontier) -> (r: bool)
        requires
            self.ops_wf(),
            other.wf(),
        ensures
            r == covered_by(self.reached(), other@),
    ;

    /// The entries of `other` that are not reached, in the order of the peers.
    fn missing_against(&self, other: &Frontier) -> (r: Vec<(PeerId, u64)>)
        requires
            self.ops_wf(),
            other.wf(),
        ensures
            peer_pairs(r@) == missing(self.reached(), other.pairs()),
    ;
}

impl FrontierOps for Frontier {
    open spec fn reached(&self) -> Map<Seq<char>, u64> {
        self@
    }

    open spec fn ops_wf(&self) -> bool {
        self.wf()
    }

    fn covers(&self, other: &Frontier) -> (r: bool) {
        let mut i: usize = 0;
        while i < other.map.len()
            invariant
                self.wf(),
                other.wf(),
                i <= other.map.pairs().len(),
                forall|j: int|
                    0 <= j < i ==> seq_of(self@, (#[trigger] other.map.pairs()[j]).0)
                        >= other.map.pairs()[j].1,
            decreases other.map.pairs().len() - i,
        {
            let mine: u64 = match self.map.get(other.map.key_at(i).as_str()) {
                Some(v) => *v,
                None => 0,
            };
            proof {
                other.map.lemma_pairs();
            }
            if mine < *other.map.value_at(i) {
                return false;
            }
            i = i + 1;
        }
        proof {
            other.map.lemma_pairs();
            assert forall|k: Seq<char>| #[trigger] other@.dom().contains(k) implies seq_of(self@, k)
                >= other@[k] by {
                let j = choose|j: int|
                    0 <= j < other.map.pairs().len() && (#[trigger] other.map.pairs()[j]).0 == k;
                assert(other.map.pairs()[j].0 == k);
            }
        }
        true
    }

    fn missing_against(&self, other: &Frontier) -> (r: Vec<(PeerId, u64)>) {
        let mut out: Vec<(PeerId, u64)> = Vec::new();
        let mut i: usize = 0;
        let ghost pairs = other.map.pairs();
        let ghost pred = |p: (Seq<char>, u64)| seq_of(self@, p.0) < p.1;
        proof {
            assert(pairs.take(0) =~= Seq::<(Seq<char>, u64)>::empty());
            reveal(Seq::filter);
            assert(peer_pairs(out@) =~= pairs.take(0).filter(pred));
        }
        while i < other.map.len()
            invariant
                self.wf(),
                other.wf(),
                pairs == other.map.pairs(),
                i <= pairs.len(),
                pred == (|p: (Seq<char>, u64)| seq_of(self@, p.0) < p.1),
                peer_pairs(out@) == pairs.take(i as int).filter(pred),
            decreases pairs.len() - i,
        {
            let mine: u64 = match self.map.get(other.map.key_at(i).as_str()) {
                Some(v) => *v,
                None => 0,
            };
            let theirs: u64 = *other.map.value_at(i);
            let ghost before = out@;
            proof {
                let t = pairs.take(i + 1);
                assert(t.drop_last() =~= pairs.take(i as int));
                assert(t.last() == pairs[i as int]);
                reveal(Seq::filter);
            }
            if mine < theirs {
                out.push((PeerId(other.map.key_at(i).clone()), theirs));
                assert(peer_pairs(out@) =~= peer_pairs(before).push(pairs[i as int]));
            }
            i = i + 1;
        }
        assert(pairs.take(i as int) =~= pairs);
        out
    }
}

/// Merging is commutative.
pub proof fn law_merge_commutative(a: Map<Seq<char>, u64>, b: Map<Seq<char>, u64>)
    ensures
        merged(a, b) == merged(b, a),
{
    assert(merged(a, b) =~= merged(b, a));
}

/// Merging is associative.
pub proof fn law_merge_associative(
    a: Map<Seq<char>, u64>,
    b: Map<Seq<char>, u64>,
    c: Map<Seq<char>, u64>,
)
    ensures
        merged(merged(a, b), c) == merged(a, merged(b, c)),
{
    assert(merged(merged(a, b), c) =~= merged(a, merged(b, c)));
}

/// Merging a frontier into itself changes nothing.
pub proof fn law_merge_idempotent(a: Map<Seq<char>, u64>)
    ensures
        merged(a, a) == a,
{
    assert(merged(a, a) =~= a);
}

/// The merge of two frontiers covers both, and whatever covers both covers the merge.
pub proof fn law_merge_is_least_cover(
    a: Map<Seq<char>, u64>,
    b: Map<Seq<char>, u64>,
    c: Map<Seq<char>, u64>,
)
    ensures
        covered_by(merged(a, b), a),
        covered_by(merged(a, b), b),
        covered_by(c, a) && covered_by(c, b) ==> covered_by(c, merged(a, b)),
{
    if covered_by(c, a) && covered_by(c, b) {
        assert forall|k: Seq<char>| #[trigger] merged(a, b).dom().contains(k) implies seq_of(c, k)
            >= merged(a, b)[k] by {
            if a.dom().contains(k) {
                assert(seq_of(c, k) >= a[k]);
            }
            if b.dom().contains(k) {
                assert(seq_of(c, k) >= b[k]);
            }
        }
    }
}

/// Covering is reflexive and transitive.
pub proof fn law_covers_is_preorder(
    a: Map<Seq<char>, u64>,
    b: Map<Seq<char>, u64>,
    c: Map<Seq<char>, u64>,
)
    ensures
        covered_by(a, a),
        covered_by(a, b) && covered_by(b, c) ==> covered_by(a, c),
{
    if covered_by(a, b) && covered_by(b, c) {
        assert forall|k: Seq<char>| #[trigger] c.dom().contains(k) implies seq_of(a, k) >= c[k] by {
            if b.dom().contains(k) {
                assert(seq_of(a, k) >= b[k]);
            }
        }
    }
}

/// A frontier covers another exactly where nothing is missing against it.
pub proof fn law_covers_iff_nothing_missing(mine: Map<Seq<char>, u64>, other: &Frontier)
    requires
        other.wf(),
    ensures
        covered_by(mine, other@) <==> missing(mine, other.pairs()).len() == 0,
{
    let pairs = other.pairs();
    let pred = |p: (Seq<char>, u64)| seq_of(mine, p.0) < p.1;
    let gaps = missing(mine, pairs);
    other.lemma_pairs();
    broadcast use vstd::seq_lib::group_filter_ensures;

    if covered_by(mine, other@) && gaps.len() > 0 {
        pairs.lemma_filter_pred(pred, 0);
        assert(gaps.contains(gaps[0]));
        pairs.lemma_filter_contains_rev(pred, gaps[0]);
        let i = choose|i: int| 0 <= i < pairs.len() && pairs[i] == gaps[0];
        assert(other@.dom().contains(pairs[i].0));
        assert(false);
    }
    if gaps.len() == 0 {
        assert forall|k: Seq<char>| #[trigger] other@.dom().contains(k) implies seq_of(mine, k)
            >= other@[k] by {
            let i = choose|i: int| 0 <= i < pairs.len() && (#[trigger] pairs[i]).0 == k;
            if pred(pairs[i]) {
                pairs.lemma_filter_contains(pred, i);
                assert(gaps.contains(pairs[i]));
            }
        }
    }
}

/// Once what is missing against `other` has been merged in, `other` is covered.
pub proof fn law_merge_closes_gaps(mine: Map<Seq<char>, u64>, other: &Frontier)
    requires
        other.wf(),
    ensures
        missing(merged(mine, other@), other.pairs()).len() == 0,
{
    law_merge_is_least_cover(mine, other@, other@);
    law_covers_iff_nothing_missing(merged(mine, other@), other);
}

/// Frontiers that hold the same have the same canonical text.
pub proof fn law_canonical_text_is_determined(a: &Frontier, b: &Frontier)
    requires
        a.wf(),
        b.wf(),
        a@ == b@,
    ensures
        canonical(a.pairs()) == canonical(b.pairs()),
{
    a.map.lemma_view_determines_pairs(&b.map);
}

/// Setting a sequence number never lowers one, whatever the order of the calls.
pub proof fn law_set_only_raises(
    m: Map<Seq<char>, u64>,
    p: Seq<char>,
    x: u64,
    q: Seq<char>,
    y: u64,
)
    ensures
        covered_by(raised(m, p, x), m),
        raised(raised(m, p, x), q, y) == raised(raised(m, q, y), p, x),
{
    assert(raised(raised(m, p, x), q, y) =~= raised(raised(m, q, y), p, x));
}

/// After a sequence number was set, the peer has it, or the higher one that it had; the other peers have
/// theirs.
pub proof fn law_set_is_read_back(
    f: &mut Frontier,
    peer: PeerId,
    seq: u64,
    other: &PeerId,
    before: Option<u64>,
    after: Option<u64>,
)
    requires
        call_ensures(Frontier::set, (f, peer, seq), ()),
        call_ensures(Frontier::get, (&*old(f), other), before),
        call_ensures(Frontier::get, (&*final(f), other), after),
    ensures
        other@ != peer@ ==> after == before,
        other@ == peer@ ==> after is Some && after->Some_0 >= seq && (match before {
            Some(had) => after->Some_0 >= had && (after->Some_0 == seq || after->Some_0 == had),
            None => after->Some_0 == seq,
        }),
{
}

/// A new frontier knows no peer, and only one that knows none is empty.
pub proof fn law_empty_frontier_knows_nobody(
    made: Frontier,
    peer: &PeerId,
    known: Option<u64>,
    f: &Frontier,
    empty: bool,
    found: Option<u64>,
)
    requires
        call_ensures(Frontier::new, (), made),
        call_ensures(Frontier::get, (&made, peer), known),
        call_ensures(Frontier::is_empty, (f,), empty),
        call_ensures(Frontier::get, (f, peer), found),
    ensures
        known is None,
        empty ==> found is None,
        !empty ==> exists|k: Seq<char>| #[trigger] f@.contains_key(k),
{
    if forall|k: Seq<char>| !(#[trigger] f@.contains_key(k)) {
        assert(f@ =~= Map::<Seq<char>, u64>::empty());
    }
}

/// A merge has of each peer the higher sequence number of the two, and knows those that one of them
/// knows.
pub proof fn law_merge_takes_the_higher(
    f: &mut Frontier,
    other: &Frontier,
    peer: &PeerId,
    mine: Option<u64>,
    theirs: Option<u64>,
    after: Option<u64>,
)
    requires
        call_ensures(Frontier::merge, (f, other), ()),
        call_ensures(Frontier::get, (&*old(f), peer), mine),
        call_ensures(Frontier::get, (other, peer), theirs),
        call_ensures(Frontier::get, (&*final(f), peer), after),
    ensures
        after is Some <==> mine is Some || theirs is Some,
        mine matches Some(m) ==> after->Some_0 >= m,
        theirs matches Some(t) ==> after->Some_0 >= t,
        after is Some ==> after == mine || after == theirs,
{
    if mine is None {
        assert(seq_of(old(f)@, peer@) == 0);
    }
}

/// One frontier covers another just where it has, of each peer that the other knows, at least the same
/// sequence number; nothing is owed of a peer whose number is zero.
pub proof fn law_cover_reaches_every_peer(a: &Frontier, b: &Frontier, r: bool)
    requires
        call_ensures(Frontier::covers, (a, b), r),
    ensures
        r <==> forall|k: Seq<char>| #[trigger]
            b@.contains_key(k) && b@[k] > 0 ==> a@.contains_key(k) && a@[k] >= b@[k],
{
    assert(r == covered_by(a@, b@));
    if r {
        assert forall|k: Seq<char>| #[trigger] b@.contains_key(k) && b@[k] > 0 implies a@.contains_key(
            k,
        ) && a@[k] >= b@[k] by {
            assert(b@.dom().contains(k));
        }
    } else {
        let k = choose|k: Seq<char>| #[trigger] b@.dom().contains(k) && !(seq_of(a@, k) >= b@[k]);
        assert(b@.contains_key(k));
    }
}

/// What is missing is each entry of the other frontier that is not reached, with its number, once, in the
/// order of the peers; nothing else.
pub proof fn law_gaps_are_listed(a: &Frontier, b: &Frontier, r: Vec<(PeerId, u64)>)
    requires
        b.wf(),
        call_ensures(Frontier::missing_against, (a, b), r),
    ensures
        forall|i: int|
            0 <= i < r@.len() ==> {
                let (p, s) = #[trigger] r@[i];
                b@.contains_key(p@) && b@[p@] == s && (a@.contains_key(p@) ==> a@[p@] < s) && s > 0
            },
        forall|k: Seq<char>| #[trigger]
            b@.contains_key(k) && b@[k] > 0 && (a@.contains_key(k) ==> a@[k] < b@[k]) ==> exists|
                i: int,
            |
                0 <= i < r@.len() && (#[trigger] r@[i]).0@ == k,
        forall|i: int, j: int|
            0 <= i < j < r@.len() ==> text_lt((#[trigger] r@[i]).0@, (#[trigger] r@[j]).0@),
{
    b.lemma_pairs();
    let lacks = |p: (Seq<char>, u64)| seq_of(a@, p.0) < p.1;
    let gaps = peer_pairs(r@);
    assert(gaps == b.pairs().filter(lacks));
    lemma_filter_keeps_order(b.pairs(), lacks);
    assert forall|i: int| 0 <= i < r@.len() implies {
        let (p, s) = #[trigger] r@[i];
        b@.contains_key(p@) && b@[p@] == s && (a@.contains_key(p@) ==> a@[p@] < s) && s > 0
    } by {
        assert(gaps[i] == (r@[i].0@, r@[i].1));
        assert(lacks(gaps[i]));
        assert(b.pairs().contains(gaps[i]));
        let j = choose|j: int| 0 <= j < b.pairs().len() && b.pairs()[j] == gaps[i];
        assert(b@.dom().contains(b.pairs()[j].0));
    }
    assert forall|k: Seq<char>| #[trigger]
        b@.contains_key(k) && b@[k] > 0 && (a@.contains_key(k) ==> a@[k] < b@[k]) implies exists|
        i: int,
    |
        0 <= i < r@.len() && (#[trigger] r@[i]).0@ == k by {
        assert(b@.dom().contains(k));
        let j = choose|j: int| 0 <= j < b.pairs().len() && (#[trigger] b.pairs()[j]).0 == k;
        assert(lacks(b.pairs()[j]));
        assert(gaps.contains(b.pairs()[j]));
        let i = choose|i: int| 0 <= i < gaps.len() && gaps[i] == b.pairs()[j];
        assert(gaps[i] == (r@[i].0@, r@[i].1));
    }
    assert forall|i: int, j: int| 0 <= i < j < r@.len() implies text_lt(
        (#[trigger] r@[i]).0@,
        (#[trigger] r@[j]).0@,
    ) by {
        assert(gaps[i] == (r@[i].0@, r@[i].1));
        assert(gaps[j] == (r@[j].0@, r@[j].1));
    }
}

proof fn lemma_filter_keeps_order(
    pairs: Seq<(Seq<char>, u64)>,
    keep: spec_fn((Seq<char>, u64)) -> bool,
)
    requires
        forall|i: int, j: int|
            0 <= i < j < pairs.len() ==> text_lt((#[trigger] pairs[i]).0, (#[trigger] pairs[j]).0),
    ensures
        forall|i: int, j: int|
            0 <= i < j < pairs.filter(keep).len() ==> text_lt(
                (#[trigger] pairs.filter(keep)[i]).0,
                (#[trigger] pairs.filter(keep)[j]).0,
            ),
        forall|i: int|
            0 <= i < pairs.filter(keep).len() ==> keep(#[trigger] pairs.filter(keep)[i])
                && pairs.contains(pairs.filter(keep)[i]),
        forall|i: int|
            0 <= i < pairs.len() && keep(#[trigger] pairs[i]) ==> pairs.filter(keep).contains(
                pairs[i],
            ),
    decreases pairs.len(),
{
    reveal(Seq::filter);
    if pairs.len() > 0 {
        let n = pairs.len() - 1;
        let front = pairs.drop_last();
        assert(forall|i: int| 0 <= i < n ==> #[trigger] front[i] == pairs[i]);
        lemma_filter_keeps_order(front, keep);
        let few = front.filter(keep);
        let all = pairs.filter(keep);
        assert forall|i: int| 0 <= i < all.len() implies keep(#[trigger] all[i]) && pairs.contains(
            all[i],
        ) by {
            if i < few.len() {
                assert(all[i] == few[i]);
                let j = choose|j: int| 0 <= j < front.len() && front[j] == few[i];
                assert(pairs[j] == few[i]);
            } else {
                assert(pairs[n] == all[i]);
            }
        }
        assert forall|i: int, j: int| 0 <= i < j < all.len() implies text_lt(
            (#[trigger] all[i]).0,
            (#[trigger] all[j]).0,
        ) by {
            assert(all[i] == few[i]);
            if j < few.len() {
                assert(all[j] == few[j]);
            } else {
                let k = choose|k: int| 0 <= k < front.len() && front[k] == few[i];
                assert(text_lt(pairs[k].0, pairs[n].0));
            }
        }
        assert forall|i: int| 0 <= i < pairs.len() && keep(#[trigger] pairs[i]) implies all.contains(
            pairs[i],
        ) by {
            if i < n {
                assert(few.contains(front[i]));
                let k = choose|k: int| 0 <= k < few.len() && few[k] == front[i];
                assert(all[k] == pairs[i]);
            } else {
                assert(all.last() == pairs[n]);
            }
        }
    }
}

/// A frontier that is made of entries has of each peer the highest number that an entry gives it.
pub proof fn law_entries_give_the_highest(
    entries: Vec<(PeerId, u64)>,
    f: Frontier,
    peer: &PeerId,
    r: Option<u64>,
)
    requires
        call_ensures(Frontier::from_iter, (entries,), f),
        call_ensures(Frontier::get, (&f, peer), r),
    ensures
        forall|i: int|
            0 <= i < entries@.len() && (#[trigger] entries@[i]).0@ == peer@ ==> r is Some
                && r->Some_0 >= entries@[i].1,
        r matches Some(s) ==> exists|i: int|
            0 <= i < entries@.len() && (#[trigger] entries@[i]).0@ == peer@ && entries@[i].1 == s,
{
    lemma_raised_all(entries@, peer@);
}

proof fn lemma_raised_all(pairs: Seq<(PeerId, u64)>, k: Seq<char>)
    ensures
        forall|i: int|
            0 <= i < pairs.len() && (#[trigger] pairs[i]).0@ == k ==> raised_all(
                pairs,
            ).contains_key(k) && raised_all(pairs)[k] >= pairs[i].1,
        raised_all(pairs).contains_key(k) ==> exists|i: int|
            0 <= i < pairs.len() && (#[trigger] pairs[i]).0@ == k && pairs[i].1 == raised_all(
                pairs,
            )[k],
    decreases pairs.len(),
{
    if pairs.len() > 0 {
        let n = pairs.len() - 1;
        let front = pairs.drop_last();
        lemma_raised_all(front, k);
        let m = raised_all(front);
        assert(pairs[n] == pairs.last());
        assert forall|i: int| 0 <= i < pairs.len() && (#[trigger] pairs[i]).0@ == k implies raised_all(
            pairs,
        ).contains_key(k) && raised_all(pairs)[k] >= pairs[i].1 by {
            if i < n {
                assert(front[i].0@ == k);
            }
        }
        if raised_all(pairs).contains_key(k) {
            if pairs[n].0@ == k && raised_all(pairs)[k] == pairs[n].1 {
            } else {
                assert(m.contains_key(k));
                let i = choose|i: int|
                    0 <= i < front.len() && (#[trigger] front[i]).0@ == k && front[i].1 == m[k];
                assert(pairs[i].0@ == k);
            }
        }
    }
}

/// Frontiers are the same just where they know the same peers with the same numbers, which is where
/// each covers the other, but for numbers that are zero.
pub proof fn law_same_frontiers_know_the_same(
    a: &Frontier,
    b: &Frontier,
    r: bool,
    peer: &PeerId,
    x: Option<u64>,
    y: Option<u64>,
)
    requires
        call_ensures(Frontier::same, (a, b), r),
        call_ensures(Frontier::get, (a, peer), x),
        call_ensures(Frontier::get, (b, peer), y),
    ensures
        r ==> x == y,
        (forall|k: Seq<char>|
            (a@.contains_key(k) <==> b@.contains_key(k)) && (#[trigger] a@.contains_key(k)
                ==> a@[k] == b@[k])) ==> r,
{
    if forall|k: Seq<char>|
        (a@.contains_key(k) <==> b@.contains_key(k)) && (#[trigger] a@.contains_key(k) ==> a@[k]
            == b@[k]) {
        assert(a@ =~= b@);
    }
}

/// The canonical text lists each peer with its number once, by the order of the peers.
pub proof fn law_canonical_text_lists_all(f: &Frontier, r: String)
    requires
        f.wf(),
        call_ensures(Frontier::to_canonical_string, (f,), r),
    ensures
        exists|peers: Seq<Seq<char>>|
            {
                &&& forall|k: Seq<char>|
                    f@.contains_key(k) <==> #[trigger] peers.contains(k)
                &&& forall|i: int, j: int|
                    0 <= i < j < peers.len() ==> text_lt(#[trigger] peers[i], #[trigger] peers[j])
                &&& r@ == comma_joined(#[trigger] numbered(peers, f@))
            },
{
    f.lemma_pairs();
    let pairs = f.pairs();
    let peers = pairs.map_values(|p: (Seq<char>, u64)| p.0);
    assert forall|k: Seq<char>| f@.contains_key(k) <==> #[trigger] peers.contains(k) by {
        if f@.contains_key(k) {
            assert(f@.dom().contains(k));
            let i = choose|i: int| 0 <= i < pairs.len() && (#[trigger] pairs[i]).0 == k;
            assert(peers[i] == k);
        }
        if peers.contains(k) {
            let i = choose|i: int| 0 <= i < peers.len() && peers[i] == k;
            assert(f@.dom().contains(pairs[i].0));
        }
    }
    assert forall|i: int, j: int| 0 <= i < j < peers.len() implies text_lt(
        #[trigger] peers[i],
        #[trigger] peers[j],
    ) by {
        assert(text_lt(pairs[i].0, pairs[j].0));
    }
    lemma_canonical_is_joined(pairs);
    let entries = pairs.map_values(
        |p: (Seq<char>, u64)| p.0 + seq![':'] + decimal(p.1 as nat),
    );
    assert forall|i: int| 0 <= i < pairs.len() implies numbered(peers, f@)[i] == entries[i] by {
        assert(f@[pairs[i].0] == pairs[i].1);
    }
    assert(numbered(peers, f@) =~= entries);
}

/// Peers, each with a colon and its number behind it.
pub open spec fn numbered(peers: Seq<Seq<char>>, m: Map<Seq<char>, u64>) -> Seq<Seq<char>> {
    Seq::new(peers.len(), |i: int| peers[i] + seq![':'] + decimal(m[peers[i]] as nat))
}

proof fn lemma_canonical_is_joined(pairs: Seq<(Seq<char>, u64)>)
    ensures
        canonical(pairs) == comma_joined(
            pairs.map_values(|p: (Seq<char>, u64)| p.0 + seq![':'] + decimal(p.1 as nat)),
        ),
    decreases pairs.len(),
{
    let entry = |p: (Seq<char>, u64)| p.0 + seq![':'] + decimal(p.1 as nat);
    reveal_strlit(",");
    reveal_strlit(":");
    assert(","@ =~= seq![',']);
    assert(":"@ =~= seq![':']);
    if pairs.len() > 0 {
        let front = pairs.drop_last();
        lemma_canonical_is_joined(front);
        assert(pairs.map_values(entry) =~= front.map_values(entry).push(entry(pairs.last())));
        lemma_joined_push(front.map_values(entry), entry(pairs.last()));
    }
}

/// The entries list each peer that is known once, with its number, in the order of the peers.
pub proof fn law_entries_list_the_frontier(f: &Frontier, r: Vec<(&str, u64)>)
    requires
        f.wf(),
        call_ensures(Frontier::entries, (f,), r),
    ensures
        forall|i: int|
            0 <= i < r@.len() ==> f@.contains_key((#[trigger] r@[i]).0@) && f@[r@[i].0@] == r@[i].1,
        forall|k: Seq<char>| #[trigger]
            f@.contains_key(k) ==> exists|i: int| 0 <= i < r@.len() && (#[trigger] r@[i]).0@ == k,
        forall|i: int, j: int|
            0 <= i < j < r@.len() ==> text_lt((#[trigger] r@[i]).0@, (#[trigger] r@[j]).0@),
{
    f.lemma_pairs();
    assert forall|i: int| 0 <= i < r@.len() implies f@.contains_key((#[trigger] r@[i]).0@)
        && f@[r@[i].0@] == r@[i].1 by {
        assert(f@.dom().contains(f.pairs()[i].0));
    }
    assert forall|k: Seq<char>| #[trigger] f@.contains_key(k) implies exists|i: int|
        0 <= i < r@.len() && (#[trigger] r@[i]).0@ == k by {
        assert(f@.dom().contains(k));
        let i = choose|i: int| 0 <= i < f.pairs().len() && (#[trigger] f.pairs()[i]).0 == k;
        assert(r@[i].0@ == k);
    }
    assert forall|i: int, j: int| 0 <= i < j < r@.len() implies text_lt(
        (#[trigger] r@[i]).0@,
        (#[trigger] r@[j]).0@,
    ) by {
        assert(text_lt(f.pairs()[i].0, f.pairs()[j].0));
    }
}

} // verus!
