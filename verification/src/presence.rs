//! Who is online and what they are doing.
//!
//! Presence is never stored. Each entry expires after a time to live; times are milliseconds.

use vstd::prelude::*;

use crate::clock::{wall_millis, wall_told};
use crate::ids::{BlockId, DocId, PeerId};
use crate::text_map::TextMap;

verus! {

/// How long an entry lives where nothing else is said.
pub const DEFAULT_PRESENCE_TTL: u64 = 60_000;

/// What a peer is doing.
#[derive(Debug, PartialEq, Eq)]
pub enum PresenceState {
    Online,
    Editing { doc_id: DocId, block_id: BlockId },
    Cursor { doc_id: DocId, block_id: BlockId, offset: usize },
    Custom(String),
}

impl Clone for PresenceState {
    fn clone(&self) -> (r: Self)
        ensures
            r == *self,
    {
        match self {
            PresenceState::Online => PresenceState::Online,
            PresenceState::Editing { doc_id, block_id } => PresenceState::Editing {
                doc_id: doc_id.clone(),
                block_id: block_id.clone(),
            },
            PresenceState::Cursor { doc_id, block_id, offset } => PresenceState::Cursor {
                doc_id: doc_id.clone(),
                block_id: block_id.clone(),
                offset: *offset,
            },
            PresenceState::Custom(s) => PresenceState::Custom(s.clone()),
        }
    }
}

/// The presence of one peer.
#[derive(Debug)]
pub struct PresenceEntry {
    pub peer_id: PeerId,
    pub state: PresenceState,
    /// When the entry was made or last refreshed.
    pub created_at: i64,
    pub ttl_ms: u64,
}

/// Whether more than the time to live has passed, or the clock went back before the entry.
pub open spec fn expired(e: PresenceEntry, now: i64) -> bool {
    now < e.created_at || now - e.created_at > e.ttl_ms
}

impl PresenceEntry {
    /// An entry made at `now`.
    pub fn new_at(peer_id: PeerId, state: PresenceState, ttl_ms: u64, now: i64) -> (r: Self)
        ensures
            r == (PresenceEntry { peer_id, state, created_at: now, ttl_ms }),
    {
        PresenceEntry { peer_id, state, created_at: now, ttl_ms }
    }

    /// An entry made now.
    pub fn new(peer_id: PeerId, state: PresenceState, ttl_ms: u64) -> (r: Self)
        ensures
            r == (PresenceEntry { peer_id, state, created_at: r.created_at, ttl_ms }),
            wall_told(r.created_at),
    {
        PresenceEntry::new_at(peer_id, state, ttl_ms, wall_millis())
    }

    /// Whether the entry has expired at `now`.
    pub fn is_expired(&self, now: i64) -> (r: bool)
        ensures
            r == expired(*self, now),
    {
        if now < self.created_at {
            return true;
        }
        (now as i128 - self.created_at as i128) > self.ttl_ms as i128
    }

    /// Starts the time to live again at `now`.
    pub fn refresh_at(&mut self, now: i64)
        ensures
            *final(self) == (PresenceEntry { created_at: now, ..*old(self) }),
    {
        self.created_at = now;
    }

    /// Starts the time to live again now.
    pub fn refresh(&mut self)
        ensures
            *final(self) == (PresenceEntry { created_at: final(self).created_at, ..*old(self) }),
            wall_told(final(self).created_at),
    {
        self.refresh_at(wall_millis());
    }
}

/// The presence of all peers.
#[derive(Debug)]
pub struct PresenceRegistry {
    entries: TextMap<PresenceEntry>,
    default_ttl: u64,
}

/// The entries of `m` that have not expired.
pub open spec fn alive(m: Map<Seq<char>, PresenceEntry>, now: i64) -> Map<
    Seq<char>,
    PresenceEntry,
> {
    Map::new(|k: Seq<char>| m.dom().contains(k) && !expired(m[k], now), |k: Seq<char>| m[k])
}

/// The entries of `pairs` that have not expired, in their order.
pub open spec fn alive_pairs(pairs: Seq<(Seq<char>, PresenceEntry)>, now: i64) -> Seq<
    (Seq<char>, PresenceEntry),
> {
    pairs.filter(|p: (Seq<char>, PresenceEntry)| !expired(p.1, now))
}

impl View for PresenceRegistry {
    type V = Map<Seq<char>, PresenceEntry>;

    closed spec fn view(&self) -> Map<Seq<char>, PresenceEntry> {
        self.entries@
    }
}

impl Default for PresenceRegistry {
    fn default() -> (r: Self)
        ensures
            r.wf(),
            r@ == Map::<Seq<char>, PresenceEntry>::empty(),
            r.ttl() == 60_000,
    {
        PresenceRegistry::new(DEFAULT_PRESENCE_TTL)
    }
}

impl PresenceRegistry {
    pub closed spec fn wf(&self) -> bool {
        self.entries.wf()
    }

    /// The time to live of entries where nothing else is said.
    pub closed spec fn ttl(&self) -> u64 {
        self.default_ttl
    }

    /// The entries in the order of the peers.
    pub closed spec fn pairs(&self) -> Seq<(Seq<char>, PresenceEntry)> {
        self.entries.pairs()
    }

    /// `pairs` lists exactly the entries.
    pub proof fn lemma_pairs(&self)
        requires
            self.wf(),
        ensures
            forall|i: int|
                0 <= i < self.pairs().len() ==> self@.dom().contains((#[trigger] self.pairs()[i]).0)
                    && self@[self.pairs()[i].0] == self.pairs()[i].1,
            forall|k: Seq<char>| #[trigger]
                self@.dom().contains(k) ==> exists|i: int|
                    0 <= i < self.pairs().len() && (#[trigger] self.pairs()[i]).0 == k,
    {
        self.entries.lemma_pairs();
    }

    pub fn new(default_ttl: u64) -> (r: Self)
        ensures
            r.wf(),
            r@ == Map::<Seq<char>, PresenceEntry>::empty(),
            r.ttl() == default_ttl,
    {
        PresenceRegistry { entries: TextMap::new(), default_ttl }
    }

    /// Sets what `peer_id` is doing at `now`, with its own time to live.
    pub fn update_at(&mut self, peer_id: PeerId, state: PresenceState, ttl_ms: u64, now: i64)
        requires
            old(self).wf(),
        ensures
            final(self).wf(),
            final(self).ttl() == old(self).ttl(),
            final(self)@ == old(self)@.insert(
                peer_id@,
                (PresenceEntry { peer_id, state, created_at: now, ttl_ms }),
            ),
    {
        let entry = PresenceEntry::new_at(peer_id.clone(), state, ttl_ms, now);
        self.entries.insert(peer_id.0, entry);
    }

    /// Sets what `peer_id` is doing now.
    pub fn update(&mut self, peer_id: PeerId, state: PresenceState)
        requires
            old(self).wf(),
        ensures
            final(self).wf(),
            final(self).ttl() == old(self).ttl(),
            exists|now: i64| #[trigger]
                wall_told(now) && final(self)@ == old(self)@.insert(
                    peer_id@,
                    (PresenceEntry { peer_id, state, created_at: now, ttl_ms: old(self).ttl() }),
                ),
    {
        let ttl: u64 = self.default_ttl;
        self.update_at(peer_id, state, ttl, wall_millis());
    }

    /// Sets what `peer_id` is doing now, with its own time to live.
    pub fn update_with_ttl(&mut self, peer_id: PeerId, state: PresenceState, ttl_ms: u64)
        requires
            old(self).wf(),
        ensures
            final(self).wf(),
            final(self).ttl() == old(self).ttl(),
            exists|now: i64| #[trigger]
                wall_told(now) && final(self)@ == old(self)@.insert(
                    peer_id@,
                    (PresenceEntry { peer_id, state, created_at: now, ttl_ms }),
                ),
    {
        self.update_at(peer_id, state, ttl_ms, wall_millis());
    }

    /// What `peer_id` was last known to do, expired or not.
    pub fn get(&self, peer_id: &PeerId) -> (r: Option<PresenceState>)
        requires
            self.wf(),
        ensures
            r == (if self@.dom().contains(peer_id@) {
                Some(self@[peer_id@].state)
            } else {
                None
            }),
    {
        match self.entries.get(peer_id.as_str()) {
            Some(e) => Some(e.state.clone()),
            None => None,
        }
    }

    /// Forgets `peer_id`.
    pub fn remove(&mut self, peer_id: &PeerId)
        requires
            old(self).wf(),
        ensures
            final(self).wf(),
            final(self).ttl() == old(self).ttl(),
            final(self)@ == old(self)@.remove(peer_id@),
    {
        let _ = self.entries.remove(peer_id.as_str());
    }

    /// Forgets the entries that have expired at `now`.
    pub fn gc_at(&mut self, now: i64)
        requires
            old(self).wf(),
        ensures
            final(self).wf(),
            final(self).ttl() == old(self).ttl(),
            final(self)@ == alive(old(self)@, now),
    {
        let ghost start = self@;
        let mut i: usize = 0;
        while i < self.entries.len()
            invariant
                self.wf(),
                self.ttl() == old(self).ttl(),
                i <= self.entries.pairs().len(),
                forall|j: int| 0 <= j < i ==> !expired((#[trigger] self.entries.pairs()[j]).1, now),
                forall|k: Seq<char>| #[trigger]
                    self@.dom().contains(k) ==> start.dom().contains(k) && self@[k] == start[k],
                forall|k: Seq<char>| #[trigger]
                    start.dom().contains(k) && !expired(start[k], now) ==> self@.dom().contains(k),
            decreases self.entries.pairs().len() - i,
        {
            let ghost before = self.entries;
            assert(before@ == self@);
            proof {
                before.lemma_pairs();
            }
            if self.entries.value_at(i).is_expired(now) {
                let removed = self.entries.remove_at(i);
                assert(self@ == before@.remove(removed.0@));
                assert forall|j: int| 0 <= j < i implies !expired(
                    (#[trigger] self.entries.pairs()[j]).1,
                    now,
                ) by {
                    assert(self.entries.pairs()[j] == before.pairs()[j]);
                }
                assert forall|k: Seq<char>| #[trigger]
                    self@.dom().contains(k) implies start.dom().contains(k) && self@[k]
                    == start[k] by {
                    assert(before@.dom().contains(k));
                    assert(self@[k] == before@[k]);
                }
            } else {
                i = i + 1;
            }
        }
        proof {
            self.entries.lemma_pairs();
            assert forall|k: Seq<char>| #[trigger] self@.dom().contains(k) implies !expired(
                start[k],
                now,
            ) by {
                let j = choose|j: int|
                    0 <= j < self.entries.pairs().len() && (#[trigger] self.entries.pairs()[j]).0
                        == k;
                assert(!expired(self.entries.pairs()[j].1, now));
            }
            assert(self@ =~= alive(start, now));
        }
    }

    /// Forgets the entries that have expired.
    pub fn gc(&mut self)
        requires
            old(self).wf(),
        ensures
            final(self).wf(),
            final(self).ttl() == old(self).ttl(),
            exists|now: i64| #[trigger] wall_told(now) && final(self)@ == alive(old(self)@, now),
    {
        self.gc_at(wall_millis());
    }

    /// The peers whose entries have not expired at `now`, with what they are doing.
    pub fn list_active_at(&self, now: i64) -> (r: Vec<(PeerId, PresenceState)>)
        ensures
            r@.len() == alive_pairs(self.pairs(), now).len(),
            forall|i: int|
                0 <= i < r@.len() ==> (#[trigger] r@[i]).0@ == alive_pairs(self.pairs(), now)[i].0
                    && r@[i].1 == alive_pairs(self.pairs(), now)[i].1.state,
    {
        let mut out: Vec<(PeerId, PresenceState)> = Vec::new();
        let mut i: usize = 0;
        let ghost pairs = self.entries.pairs();
        let ghost pred = |p: (Seq<char>, PresenceEntry)| !expired(p.1, now);
        proof {
            reveal(Seq::filter);
            assert(pairs.take(0) =~= Seq::<(Seq<char>, PresenceEntry)>::empty());
        }
        while i < self.entries.len()
            invariant
                pairs == self.entries.pairs(),
                i <= pairs.len(),
                pred == (|p: (Seq<char>, PresenceEntry)| !expired(p.1, now)),
                out@.len() == pairs.take(i as int).filter(pred).len(),
                forall|j: int|
                    0 <= j < out@.len() ==> (#[trigger] out@[j]).0@ == pairs.take(i as int).filter(
                        pred,
                    )[j].0 && out@[j].1 == pairs.take(i as int).filter(pred)[j].1.state,
            decreases pairs.len() - i,
        {
            proof {
                let t = pairs.take(i + 1);
                assert(t.drop_last() =~= pairs.take(i as int));
                assert(t.last() == pairs[i as int]);
                reveal(Seq::filter);
            }
            let entry = self.entries.value_at(i);
            if !entry.is_expired(now) {
                out.push((PeerId(self.entries.key_at(i).clone()), entry.state.clone()));
            }
            i = i + 1;
        }
        assert(pairs.take(i as int) =~= pairs);
        out
    }

    /// The peers whose entries have not expired, with what they are doing.
    pub fn list_active(&self) -> (r: Vec<(PeerId, PresenceState)>)
        ensures
            exists|now: i64| #[trigger]
                wall_told(now) && r@.len() == alive_pairs(self.pairs(), now).len() && forall|i: int|
                    0 <= i < r@.len() ==> (#[trigger] r@[i]).0@ == alive_pairs(
                        self.pairs(),
                        now,
                    )[i].0 && r@[i].1 == alive_pairs(self.pairs(), now)[i].1.state,
    {
        let now: i64 = wall_millis();
        self.list_active_at(now)
    }

    /// How many entries have not expired at `now`.
    pub fn online_count_at(&self, now: i64) -> (r: usize)
        ensures
            r == alive_pairs(self.pairs(), now).len(),
    {
        self.list_active_at(now).len()
    }

    /// How many entries have not expired.
    pub fn online_count(&self) -> (r: usize)
        ensures
            exists|now: i64| #[trigger]
                wall_told(now) && r == alive_pairs(self.pairs(), now).len(),
    {
        let now: i64 = wall_millis();
        self.online_count_at(now)
    }
}

/// An entry that is set and not touched again expires once its time to live is over, and not
/// before.
pub proof fn law_entry_lives_for_its_ttl(e: PresenceEntry, now: i64)
    requires
        e.created_at <= now,
    ensures
        expired(e, now) <==> now > e.created_at + e.ttl_ms,
{
}

/// Collecting twice is collecting once, at the later time, while the clock does not go back.
pub proof fn law_gc_is_cumulative(m: Map<Seq<char>, PresenceEntry>, t: i64, u: i64)
    requires
        t <= u,
        forall|k: Seq<char>| #[trigger] m.dom().contains(k) ==> m[k].created_at <= t,
    ensures
        alive(alive(m, t), u) == alive(m, u),
{
    assert(alive(alive(m, t), u) =~= alive(m, u));
}

/// An entry lives from the time at which it was made or refreshed until its time to live is over, and is
/// expired from then on, and before that time.
pub proof fn law_entry_expires_after_its_time(
    peer_id: PeerId,
    state: PresenceState,
    ttl_ms: u64,
    made_at: i64,
    entry: PresenceEntry,
    again: &mut PresenceEntry,
    refreshed_at: i64,
    now: i64,
    dead: bool,
    dead_again: bool,
)
    requires
        call_ensures(PresenceEntry::new_at, (peer_id, state, ttl_ms, made_at), entry),
        *old(again) == entry,
        call_ensures(PresenceEntry::refresh_at, (again, refreshed_at), ()),
        call_ensures(PresenceEntry::is_expired, (&entry, now), dead),
        call_ensures(PresenceEntry::is_expired, (&*final(again), now), dead_again),
    ensures
        entry.peer_id == peer_id,
        entry.state == state,
        dead <==> !(made_at <= now <= made_at + ttl_ms),
        dead_again <==> !(refreshed_at <= now <= refreshed_at + ttl_ms),
        final(again).peer_id == peer_id,
        final(again).state == state,
{
}

/// What a peer is doing is told as it was set last; setting it leaves the other peers alone.
pub proof fn law_presence_is_told_as_set(
    registry: &mut PresenceRegistry,
    peer_id: PeerId,
    state: PresenceState,
    ttl_ms: u64,
    now: i64,
    other: &PeerId,
    before: Option<PresenceState>,
    after: Option<PresenceState>,
)
    requires
        call_ensures(PresenceRegistry::update_at, (registry, peer_id, state, ttl_ms, now), ()),
        call_ensures(PresenceRegistry::get, (&*old(registry), other), before),
        call_ensures(PresenceRegistry::get, (&*final(registry), other), after),
    ensures
        other@ == peer_id@ ==> after == Some(state),
        other@ != peer_id@ ==> after == before,
{
}

/// What a peer is doing now is told as it was set, by the registry's own time to live or by another.
pub proof fn law_present_peer_is_told(
    registry: &mut PresenceRegistry,
    lasting: &mut PresenceRegistry,
    peer_id: PeerId,
    state: PresenceState,
    ttl_ms: u64,
    told: Option<PresenceState>,
    told_lasting: Option<PresenceState>,
)
    requires
        call_ensures(PresenceRegistry::update, (registry, peer_id, state), ()),
        call_ensures(PresenceRegistry::get, (&*final(registry), &peer_id), told),
        call_ensures(PresenceRegistry::update_with_ttl, (lasting, peer_id, state, ttl_ms), ()),
        call_ensures(PresenceRegistry::get, (&*final(lasting), &peer_id), told_lasting),
    ensures
        told == Some(state),
        told_lasting == Some(state),
        final(registry)@[peer_id@].ttl_ms == old(registry).ttl(),
        final(lasting)@[peer_id@].ttl_ms == ttl_ms,
        wall_told(final(registry)@[peer_id@].created_at),
        wall_told(final(lasting)@[peer_id@].created_at),
{
}

/// A peer that is forgotten is told of no more; the others are.
pub proof fn law_forgotten_peer_is_gone(
    registry: &mut PresenceRegistry,
    peer_id: &PeerId,
    other: &PeerId,
    before: Option<PresenceState>,
    after: Option<PresenceState>,
)
    requires
        call_ensures(PresenceRegistry::remove, (registry, peer_id), ()),
        call_ensures(PresenceRegistry::get, (&*old(registry), other), before),
        call_ensures(PresenceRegistry::get, (&*final(registry), other), after),
    ensures
        other@ == peer_id@ ==> after is None,
        other@ != peer_id@ ==> after == before,
{
}

/// A cleaning forgets the entries that have expired, and no others.
pub proof fn law_cleaning_forgets_the_expired(
    registry: &mut PresenceRegistry,
    now: i64,
    peer_id: &PeerId,
    before: Option<PresenceState>,
    after: Option<PresenceState>,
    dead: bool,
)
    requires
        call_ensures(PresenceRegistry::gc_at, (registry, now), ()),
        call_ensures(PresenceRegistry::get, (&*old(registry), peer_id), before),
        call_ensures(PresenceRegistry::get, (&*final(registry), peer_id), after),
        before is Some ==> call_ensures(
            PresenceEntry::is_expired,
            (&old(registry)@[peer_id@], now),
            dead,
        ),
    ensures
        before is None ==> after is None,
        before is Some && dead ==> after is None,
        before is Some && !dead ==> after == before,
{
}

/// The peers that are active are those with an entry that has not expired, each told with what it is
/// doing; and as many are counted.
pub proof fn law_active_peers_are_listed(
    registry: &PresenceRegistry,
    now: i64,
    r: Vec<(PeerId, PresenceState)>,
    count: usize,
)
    requires
        registry.wf(),
        call_ensures(PresenceRegistry::list_active_at, (registry, now), r),
        call_ensures(PresenceRegistry::online_count_at, (registry, now), count),
    ensures
        count == r@.len(),
        forall|i: int|
            0 <= i < r@.len() ==> {
                let k = (#[trigger] r@[i]).0@;
                &&& registry@.contains_key(k)
                &&& registry@[k].state == r@[i].1
                &&& registry@[k].created_at <= now <= registry@[k].created_at + registry@[k].ttl_ms
            },
        forall|k: Seq<char>| #[trigger]
            registry@.contains_key(k) && registry@[k].created_at <= now
                <= registry@[k].created_at + registry@[k].ttl_ms ==> exists|i: int|
                0 <= i < r@.len() && (#[trigger] r@[i]).0@ == k,
{
    registry.lemma_pairs();
    let pairs = registry.pairs();
    let lives = |p: (Seq<char>, PresenceEntry)| !expired(p.1, now);
    let few = alive_pairs(pairs, now);
    assert forall|i: int| 0 <= i < r@.len() implies {
        let k = (#[trigger] r@[i]).0@;
        &&& registry@.contains_key(k)
        &&& registry@[k].state == r@[i].1
        &&& registry@[k].created_at <= now <= registry@[k].created_at + registry@[k].ttl_ms
    } by {
        pairs.lemma_filter_contains_rev(lives, few[i]);
        pairs.lemma_filter_pred(lives, i);
        let j = choose|j: int| 0 <= j < pairs.len() && pairs[j] == few[i];
        assert(registry@.dom().contains(pairs[j].0));
    }
    assert forall|k: Seq<char>| #[trigger]
        registry@.contains_key(k) && registry@[k].created_at <= now <= registry@[k].created_at
            + registry@[k].ttl_ms implies exists|i: int|
        0 <= i < r@.len() && (#[trigger] r@[i]).0@ == k by {
        assert(registry@.dom().contains(k));
        let j = choose|j: int| 0 <= j < pairs.len() && (#[trigger] pairs[j]).0 == k;
        pairs.lemma_filter_contains(lives, j);
        assert(few.contains(pairs[j]));
        let i = choose|i: int| 0 <= i < few.len() && few[i] == pairs[j];
        assert(r@[i].0@ == k);
    }
}

/// An entry made or refreshed now is of a time that the clock told.
pub proof fn law_entries_are_of_now(
    peer_id: PeerId,
    state: PresenceState,
    ttl_ms: u64,
    made: PresenceEntry,
    again: &mut PresenceEntry,
)
    requires
        call_ensures(PresenceEntry::new, (peer_id, state, ttl_ms), made),
        call_ensures(PresenceEntry::refresh, (again,), ()),
    ensures
        made.peer_id == peer_id && made.state == state && made.ttl_ms == ttl_ms,
        wall_told(made.created_at),
        wall_told(final(again).created_at),
        final(again).peer_id == old(again).peer_id && final(again).state == old(again).state
            && final(again).ttl_ms == old(again).ttl_ms,
{
}

/// A cleaning now forgets just the entries that have expired at a time that the clock told.
pub proof fn law_cleaning_now_forgets_the_expired(
    registry: &mut PresenceRegistry,
    peer_id: &PeerId,
    before: Option<PresenceState>,
    after: Option<PresenceState>,
)
    requires
        call_ensures(PresenceRegistry::gc, (registry,), ()),
        call_ensures(PresenceRegistry::get, (&*old(registry), peer_id), before),
        call_ensures(PresenceRegistry::get, (&*final(registry), peer_id), after),
    ensures
        before is None ==> after is None,
        before is Some ==> exists|now: i64| #[trigger]
            wall_told(now) && {
                let e = old(registry)@[peer_id@];
                if e.created_at <= now <= e.created_at + e.ttl_ms {
                    after == before
                } else {
                    after is None
                }
            },
{
    let now = choose|now: i64| #[trigger]
        wall_told(now) && final(registry)@ == alive(old(registry)@, now);
    assert(wall_told(now));
}

/// The peers that are active now are those whose entries have not expired at a time that the clock told, each
/// with what it is doing.
pub proof fn law_active_now_are_those_alive(
    registry: &PresenceRegistry,
    r: Vec<(PeerId, PresenceState)>,
    count: usize,
)
    requires
        registry.wf(),
        call_ensures(PresenceRegistry::list_active, (registry,), r),
        call_ensures(PresenceRegistry::online_count, (registry,), count),
    ensures
        exists|now: i64| #[trigger]
            wall_told(now) && (forall|i: int|
                0 <= i < r@.len() ==> {
                    let who = (#[trigger] r@[i]).0@;
                    &&& registry@.contains_key(who)
                    &&& registry@[who].state == r@[i].1
                    &&& registry@[who].created_at <= now <= registry@[who].created_at
                        + registry@[who].ttl_ms
                }) && (forall|k: Seq<char>| #[trigger]
                registry@.contains_key(k) && registry@[k].created_at <= now
                    <= registry@[k].created_at + registry@[k].ttl_ms ==> exists|i: int|
                    0 <= i < r@.len() && (#[trigger] r@[i]).0@ == k),
        exists|now: i64| #[trigger]
            wall_told(now) && count == registry.pairs().filter(
                |p: (Seq<char>, PresenceEntry)|
                    p.1.created_at <= now && now <= p.1.created_at + p.1.ttl_ms,
            ).len(),
{
    registry.lemma_pairs();
    let pairs = registry.pairs();
    let now = choose|now: i64| #[trigger]
        wall_told(now) && r@.len() == alive_pairs(registry.pairs(), now).len() && forall|i: int|
            0 <= i < r@.len() ==> (#[trigger] r@[i]).0@ == alive_pairs(registry.pairs(), now)[i].0
                && r@[i].1 == alive_pairs(registry.pairs(), now)[i].1.state;
    let lives = |p: (Seq<char>, PresenceEntry)| !expired(p.1, now);
    let few = alive_pairs(pairs, now);
    assert(wall_told(now));
    assert forall|i: int| 0 <= i < r@.len() implies {
        let k = (#[trigger] r@[i]).0@;
        &&& registry@.contains_key(k)
        &&& registry@[k].state == r@[i].1
        &&& registry@[k].created_at <= now <= registry@[k].created_at + registry@[k].ttl_ms
    } by {
        pairs.lemma_filter_contains_rev(lives, few[i]);
        pairs.lemma_filter_pred(lives, i);
        let j = choose|j: int| 0 <= j < pairs.len() && pairs[j] == few[i];
        assert(registry@.dom().contains(pairs[j].0));
    }
    assert forall|k: Seq<char>| #[trigger]
        registry@.contains_key(k) && registry@[k].created_at <= now <= registry@[k].created_at
            + registry@[k].ttl_ms implies exists|i: int|
        0 <= i < r@.len() && (#[trigger] r@[i]).0@ == k by {
        assert(registry@.dom().contains(k));
        let j = choose|j: int| 0 <= j < pairs.len() && (#[trigger] pairs[j]).0 == k;
        pairs.lemma_filter_contains(lives, j);
        let i = choose|i: int| 0 <= i < few.len() && few[i] == pairs[j];
        assert(r@[i].0@ == k);
    }
    let then = choose|now: i64| #[trigger]
        wall_told(now) && count == alive_pairs(registry.pairs(), now).len();
    assert(wall_told(then));
    assert((|p: (Seq<char>, PresenceEntry)| !expired(p.1, then)) =~= (
    |p: (Seq<char>, PresenceEntry)|
        p.1.created_at <= then && then <= p.1.created_at + p.1.ttl_ms));
}

/// A new registry knows nobody, and keeps the time to live that it was made with.
pub proof fn law_new_registry_knows_nobody(
    ttl: u64,
    registry: PresenceRegistry,
    peer_id: &PeerId,
    r: Option<PresenceState>,
)
    requires
        call_ensures(PresenceRegistry::new, (ttl,), registry),
        call_ensures(PresenceRegistry::get, (&registry, peer_id), r),
    ensures
        r is None,
        registry.ttl() == ttl,
{
}

/// Where nothing else is said, an entry lives for a minute.
pub proof fn law_usual_time_to_live(registry: PresenceRegistry)
    requires
        call_ensures(PresenceRegistry::default, (), registry),
    ensures
        registry.ttl() == 60_000,
        registry@.len() == 0,
{
    assert(Map::<Seq<char>, PresenceEntry>::empty().dom() =~= Set::empty());
}

} // verus!
