//! The blocks that are held in memory.
//!
//! When there are too many, the one that was not used for the longest time leaves, and a snapshot
//! of it is kept. Pinned blocks stay unless all are pinned and there are more than twice as many
//! as there should be.

use vstd::prelude::*;

use crate::block_doc::BlockDoc;
use crate::clock::{elapsed_millis, passed_millis, present};
use crate::converter::{exported, granted, LoroExport};
use crate::error::CoreResult;
use crate::ids::BlockId;
use crate::loro_doc::bytes_sound;
use crate::octets::append_bytes;
use crate::text_map::TextMap;

verus! {

/// The snapshot of a block that left.
#[derive(Debug)]
pub struct ColdEntry {
    pub snapshot: Vec<u8>,
    /// When the block left, in milliseconds since the cache was made.
    pub evicted_at: u64,
}

/// The blocks that are held in memory.
pub struct BlockDocCache {
    capacity: usize,
    /// The blocks, the one that was not used for the longest time first.
    entries: Vec<(BlockId, BlockDoc)>,
    pinned: TextMap<()>,
    cold: TextMap<ColdEntry>,
    made: std::time::Instant,
}

/// Blocks with their identifiers, in the order in which they were last used.
pub type Held = Seq<(Seq<char>, BlockDoc)>;

/// The position of a block.
pub open spec fn place_of(held: Held, id: Seq<char>) -> Option<int>
    decreases held.len(),
{
    if held.len() == 0 {
        None
    } else if held.last().0 == id {
        Some(held.len() - 1)
    } else {
        place_of(held.drop_last(), id)
    }
}

/// Whether no block is held twice.
pub open spec fn ids_differ(held: Held) -> bool {
    forall|i: int, j: int| 0 <= i < j < held.len() ==> (#[trigger] held[i]).0 != (#[trigger] held[j]).0
}

/// Whether all blocks can be read.
pub open spec fn all_wf(held: Held) -> bool {
    forall|i: int| 0 <= i < held.len() ==> (#[trigger] held[i]).1.wf()
}

/// Whether all snapshots can be read.
pub open spec fn all_sound(m: Map<Seq<char>, ColdEntry>) -> bool {
    forall|k: Seq<char>| #[trigger] m.contains_key(k) ==> bytes_sound(m[k].snapshot@)
}

/// `held` without a block.
pub open spec fn without(held: Held, id: Seq<char>) -> Held {
    match place_of(held, id) {
        Some(i) => held.remove(i),
        None => held,
    }
}

/// `held` with a block as the one that was used last, in place of what was held of it.
pub open spec fn placed(held: Held, id: Seq<char>, doc: BlockDoc) -> Held {
    without(held, id).push((id, doc))
}

/// The first block from `from` on that is not pinned.
pub open spec fn first_free(held: Held, pins: Set<Seq<char>>, from: int) -> Option<int>
    decreases held.len() - from,
{
    if from < 0 || from >= held.len() {
        None
    } else if !pins.contains(held[from].0) {
        Some(from)
    } else {
        first_free(held, pins, from + 1)
    }
}

/// Which block has to leave.
pub open spec fn victim(held: Held, pins: Set<Seq<char>>, capacity: nat) -> Option<int> {
    if held.len() <= capacity {
        None
    } else {
        match first_free(held, pins, 0) {
            Some(i) => Some(i),
            None => if held.len() > 2 * capacity {
                Some(0)
            } else {
                None
            },
        }
    }
}

/// Whether a snapshot is too old at `now`.
pub open spec fn is_stale(e: ColdEntry, max_age: u64, now: u64) -> bool {
    if now >= e.evicted_at {
        now - e.evicted_at >= max_age
    } else {
        max_age == 0
    }
}

/// The snapshots that are not too old at `now`.
pub open spec fn fresh_cold(m: Map<Seq<char>, ColdEntry>, max_age: u64, now: u64) -> Map<
    Seq<char>,
    ColdEntry,
> {
    Map::new(
        |k: Seq<char>| m.contains_key(k) && !is_stale(m[k], max_age, now),
        |k: Seq<char>| m[k],
    )
}

proof fn lemma_place(held: Held, id: Seq<char>)
    ensures
        match place_of(held, id) {
            Some(i) => 0 <= i < held.len() && held[i].0 == id,
            None => forall|i: int| 0 <= i < held.len() ==> (#[trigger] held[i]).0 != id,
        },
    decreases held.len(),
{
    if held.len() > 0 && held.last().0 != id {
        lemma_place(held.drop_last(), id);
        assert forall|i: int|
            place_of(held, id) is None && 0 <= i < held.len() implies (#[trigger] held[i]).0
            != id by {
            if i < held.len() - 1 {
                assert(held.drop_last()[i].0 != id);
            }
        }
    }
}

proof fn lemma_first_free(held: Held, pins: Set<Seq<char>>, from: int)
    requires
        0 <= from,
    ensures
        match first_free(held, pins, from) {
            Some(i) => from <= i < held.len() && !pins.contains(held[i].0) && forall|j: int|
                from <= j < i ==> pins.contains((#[trigger] held[j]).0),
            None => forall|j: int| from <= j < held.len() ==> pins.contains((#[trigger] held[j]).0),
        },
    decreases held.len() - from,
{
    if from < held.len() && pins.contains(held[from].0) {
        lemma_first_free(held, pins, from + 1);
    }
}

/// Blocks taken with the text of their identifiers.
pub open spec fn held_view(s: Seq<(BlockId, BlockDoc)>) -> Held {
    s.map_values(|p: (BlockId, BlockDoc)| (p.0@, p.1))
}

impl BlockDocCache {
    /// The blocks, the one that was not used for the longest time first.
    pub closed spec fn held(&self) -> Held {
        held_view(self.entries@)
    }

    /// The identifiers that are pinned.
    pub closed spec fn pins(&self) -> Set<Seq<char>> {
        self.pinned@.dom()
    }

    /// The snapshots of blocks that left.
    pub closed spec fn snapshots(&self) -> Map<Seq<char>, ColdEntry> {
        self.cold@
    }

    /// How many blocks there should be at most.
    pub closed spec fn limit(&self) -> nat {
        self.capacity as nat
    }

    /// Whether the clock told that this is the cache's own time: so many milliseconds since it
    /// was made.
    pub closed spec fn told(&self, now: u64) -> bool {
        passed_millis(self.made, now)
    }

    /// No block is held twice, all that is held can be read, and there is room for at least one.
    pub closed spec fn wf(&self) -> bool {
        &&& ids_differ(self.held())
        &&& all_wf(self.held())
        &&& all_sound(self.snapshots())
        &&& self.pinned.wf()
        &&& self.cold.wf()
        &&& self.capacity >= 1
    }

    /// A cache for `capacity` blocks, or for one where that is zero.
    pub fn new(capacity: usize) -> (r: Self)
        ensures
            r.wf(),
            r.held().len() == 0,
            r.pins() == Set::<Seq<char>>::empty(),
            r.snapshots() == Map::<Seq<char>, ColdEntry>::empty(),
            r.limit() == (if capacity == 0 {
                1
            } else {
                capacity as nat
            }),
    {
        let r = BlockDocCache {
            capacity: if capacity == 0 {
                1
            } else {
                capacity
            },
            entries: Vec::new(),
            pinned: TextMap::new(),
            cold: TextMap::new(),
            made: present(),
        };
        assert(r.pins() =~= Set::<Seq<char>>::empty());
        r
    }

    /// The position of a block.
    fn find(&self, block_id: &BlockId) -> (r: Option<usize>)
        ensures
            match r {
                Some(i) => place_of(self.held(), block_id@) == Some(i as int) && i
                    < self.entries@.len(),
                None => place_of(self.held(), block_id@) is None,
            },
    {
        let ghost held = self.held();
        let mut n: usize = self.entries.len();
        assert(held.take(n as int) =~= held);
        while n > 0
            invariant
                n <= self.entries@.len(),
                held == held_view(self.entries@),
                place_of(held, block_id@) == place_of(held.take(n as int), block_id@),
            decreases n,
        {
            let i: usize = n - 1;
            assert(held.take(n as int).drop_last() =~= held.take(i as int));
            assert(held.take(n as int).last() == held[i as int]);
            if self.entries[i].0.same(block_id) {
                return Some(i);
            }
            n = i;
        }
        None
    }

    /// The block, which becomes the one that was used last.
    pub fn get(&mut self, block_id: &BlockId) -> (r: Option<&BlockDoc>)
        requires
            old(self).wf(),
        ensures
            final(self).wf(),
            final(self).pins() == old(self).pins(),
            final(self).snapshots() == old(self).snapshots(),
            final(self).limit() == old(self).limit(),
            match r {
                Some(doc) => {
                    &&& place_of(old(self).held(), block_id@) is Some
                    &&& *doc == old(self).held()[place_of(old(self).held(), block_id@)->Some_0].1
                    &&& doc.wf()
                    &&& final(self).held() == placed(old(self).held(), block_id@, *doc)
                },
                None => place_of(old(self).held(), block_id@) is None && final(self).held() == old(
                    self).held(),
            },
    {
        match self.find(block_id) {
            None => None,
            Some(i) => {
                let ghost before = self.held();
                let entry = self.entries.remove(i);
                self.entries.push(entry);
                proof {
                    lemma_place(before, block_id@);
                    lemma_placed_differ(before, block_id@, entry.1);
                    assert(self.held() =~= placed(before, block_id@, entry.1));
                }
                let last: usize = self.entries.len() - 1;
                Some(&self.entries[last].1)
            },
        }
    }

    /// The block, to be changed, which becomes the one that was used last.
    pub fn get_mut(&mut self, block_id: &BlockId) -> (r: Option<&mut BlockDoc>)
        requires
            old(self).wf(),
        ensures
            match r {
                Some(doc) => final(doc).wf() ==> final(self).wf(),
                None => final(self).wf(),
            },
            final(self).pins() == old(self).pins(),
            final(self).snapshots() == old(self).snapshots(),
            final(self).limit() == old(self).limit(),
            match r {
                Some(doc) => {
                    &&& place_of(old(self).held(), block_id@) is Some
                    &&& *doc == old(self).held()[place_of(old(self).held(), block_id@)->Some_0].1
                    &&& doc.wf()
                    &&& final(self).held() == placed(old(self).held(), block_id@, *final(doc))
                },
                None => place_of(old(self).held(), block_id@) is None && final(self).held() == old(
                    self).held(),
            },
    {
        match self.find(block_id) {
            None => None,
            Some(i) => {
                let ghost before = self.held();
                let entry = self.entries.remove(i);
                self.entries.push(entry);
                proof {
                    lemma_place(before, block_id@);
                    assert(self.held() =~= placed(before, block_id@, entry.1));
                    let entries = self.entries@;
                    let top = entries.len() - 1;
                    assert forall|doc: BlockDoc| #[trigger]
                        held_view(entries.update(top, (entry.0, doc))) == placed(
                            before,
                            block_id@,
                            doc,
                        ) && ids_differ(held_view(entries.update(top, (entry.0, doc)))) && (
                        doc.wf() ==> all_wf(held_view(entries.update(top, (entry.0, doc))))) by {
                        lemma_placed_differ(before, block_id@, doc);
                        assert(held_view(entries.update(top, (entry.0, doc))) =~= placed(
                            before,
                            block_id@,
                            doc,
                        ));
                    }
                }
                let last: usize = self.entries.len() - 1;
                Some(&mut self.entries[last].1)
            },
        }
    }

    /// The snapshot of a block that left.
    pub fn get_cold_snapshot(&self, block_id: &BlockId) -> (r: Option<Vec<u8>>)
        requires
            self.wf(),
        ensures
            match r {
                Some(bytes) => self.snapshots().contains_key(block_id@) && bytes@
                    == self.snapshots()[block_id@].snapshot@ && bytes_sound(bytes@),
                None => !self.snapshots().contains_key(block_id@),
            },
    {
        match self.cold.get(block_id.as_str()) {
            Some(e) => {
                let mut out: Vec<u8> = Vec::new();
                append_bytes(&mut out, e.snapshot.as_slice());
                assert(out@ =~= e.snapshot@);
                Some(out)
            },
            None => None,
        }
    }

    /// The position of the block that has to leave, if one has to.
    fn pick(&self) -> (r: Option<usize>)
        requires
            self.wf(),
        ensures
            match r {
                Some(i) => victim(self.held(), self.pins(), self.limit()) == Some(i as int) && i
                    < self.entries@.len(),
                None => victim(self.held(), self.pins(), self.limit()) is None,
            },
    {
        if self.entries.len() <= self.capacity {
            return None;
        }
        let ghost held = self.held();
        let ghost pins = self.pins();
        let mut i: usize = 0;
        while i < self.entries.len()
            invariant
                i <= self.entries@.len(),
                held == held_view(self.entries@),
                pins == self.pinned@.dom(),
                self.pinned.wf(),
                held == self.held(),
                pins == self.pins(),
                self.limit() < held.len(),
                first_free(held, pins, 0) == first_free(held, pins, i as int),
            decreases self.entries@.len() - i,
        {
            assert(held[i as int].0 == self.entries@[i as int].0@);
            if !self.pinned.contains(self.entries[i].0.as_str()) {
                return Some(i);
            }
            i = i + 1;
        }
        if self.entries.len() - self.capacity > self.capacity {
            Some(0)
        } else {
            None
        }
    }

    /// Holds a block as the one that was used last, at `now`. Returns the block that leaves for
    /// it; where it can be exported, a snapshot of it is kept.
    pub fn insert_at(&mut self, block_id: BlockId, doc: BlockDoc, now: u64) -> (r: Option<
        (BlockId, BlockDoc),
    >)
        requires
            old(self).wf(),
            doc.wf(),
        ensures
            final(self).wf(),
            final(self).pins() == old(self).pins(),
            final(self).limit() == old(self).limit(),
            ({
                let held = placed(old(self).held(), block_id@, doc);
                match r {
                    Some((id, gone)) => {
                        let v = victim(held, old(self).pins(), old(self).limit());
                        &&& v is Some
                        &&& (id@, gone) == held[v->Some_0]
                        &&& gone.wf()
                        &&& final(self).held() == held.remove(v->Some_0)
                        &&& kept_cold(
                            old(self).snapshots(),
                            final(self).snapshots(),
                            id@,
                            gone,
                            now,
                        )
                    },
                    None => {
                        &&& victim(held, old(self).pins(), old(self).limit()) is None
                        &&& final(self).held() == held
                        &&& final(self).snapshots() == old(self).snapshots()
                    },
                }
            }),
    {
        let ghost before = self.held();
        proof {
            lemma_place(before, block_id@);
            lemma_placed_differ(before, block_id@, doc);
        }
        let ghost id = block_id@;
        match self.find(&block_id) {
            Some(i) => {
                self.entries.remove(i);
            },
            None => {},
        }
        self.entries.push((block_id, doc));
        let ghost held = placed(before, id, doc);
        assert(self.held() =~= held);
        match self.pick() {
            None => None,
            Some(i) => {
                let (gone_id, gone) = self.entries.remove(i);
                assert(held[i as int] == (gone_id@, gone));
                assert(self.held() =~= held.remove(i as int));
                assert(ids_differ(self.held())) by {
                    let h = held.remove(i as int);
                    assert forall|a: int, b: int| 0 <= a < b < h.len() implies (#[trigger] h[a]).0
                        != (#[trigger] h[b]).0 by {
                        let a2 = if a < i {
                            a
                        } else {
                            a + 1
                        };
                        let b2 = if b < i {
                            b
                        } else {
                            b + 1
                        };
                        assert(held[a2].0 != held[b2].0);
                    }
                }
                match gone.export_snapshot() {
                    Ok(snapshot) => {
                        self.cold.insert(
                            gone_id.0.clone(),
                            ColdEntry { snapshot, evicted_at: now },
                        );
                    },
                    Err(_) => {},
                }
                Some((gone_id, gone))
            },
        }
    }

    /// Holds a block as the one that was used last. Returns the block that leaves for it; where
    /// it can be exported, a snapshot of it is kept.
    pub fn insert(&mut self, block_id: BlockId, doc: BlockDoc) -> (r: Option<(BlockId, BlockDoc)>)
        requires
            old(self).wf(),
            doc.wf(),
        ensures
            final(self).wf(),
            final(self).pins() == old(self).pins(),
            final(self).limit() == old(self).limit(),
            ({
                let held = placed(old(self).held(), block_id@, doc);
                match r {
                    Some((id, gone)) => {
                        let v = victim(held, old(self).pins(), old(self).limit());
                        &&& v is Some
                        &&& (id@, gone) == held[v->Some_0]
                        &&& gone.wf()
                        &&& final(self).held() == held.remove(v->Some_0)
                        &&& exists|now: u64| #[trigger]
                            old(self).told(now) && kept_cold(
                                old(self).snapshots(),
                                final(self).snapshots(),
                                id@,
                                gone,
                                now,
                            )
                    },
                    None => {
                        &&& victim(held, old(self).pins(), old(self).limit()) is None
                        &&& final(self).held() == held
                        &&& final(self).snapshots() == old(self).snapshots()
                    },
                }
            }),
    {
        let now = elapsed_millis(&self.made);
        assert(old(self).told(now));
        self.insert_at(block_id, doc, now)
    }

    /// Lets go of a block and of its pin. Its snapshot, where there is one, stays.
    pub fn remove(&mut self, block_id: &BlockId) -> (r: Option<BlockDoc>)
        requires
            old(self).wf(),
        ensures
            final(self).wf(),
            final(self).held() == without(old(self).held(), block_id@),
            final(self).pins() == old(self).pins().remove(block_id@),
            final(self).snapshots() == old(self).snapshots(),
            final(self).limit() == old(self).limit(),
            r == (match place_of(old(self).held(), block_id@) {
                Some(i) => Some(old(self).held()[i].1),
                None => None,
            }),
            r is Some ==> r->Some_0.wf(),
    {
        let ghost before = self.held();
        proof {
            lemma_place(before, block_id@);
        }
        let doc = match self.find(block_id) {
            Some(i) => {
                proof {
                    lemma_placed_differ(before, block_id@, before[i as int].1);
                    let p = placed(before, block_id@, before[i as int].1);
                    assert(without(before, block_id@) =~= p.drop_last());
                }
                let (_, doc) = self.entries.remove(i);
                Some(doc)
            },
            None => None,
        };
        assert(self.held() =~= without(before, block_id@));
        self.pinned.remove(block_id.as_str());
        assert(self.pins() =~= old(self).pins().remove(block_id@));
        doc
    }

    /// Pins a block.
    pub fn pin(&mut self, block_id: &BlockId)
        requires
            old(self).wf(),
        ensures
            final(self).wf(),
            final(self).held() == old(self).held(),
            final(self).pins() == old(self).pins().insert(block_id@),
            final(self).snapshots() == old(self).snapshots(),
            final(self).limit() == old(self).limit(),
    {
        self.pinned.insert(block_id.0.clone(), ());
        assert(self.pins() =~= old(self).pins().insert(block_id@));
    }

    /// Takes the pin of a block away.
    pub fn unpin(&mut self, block_id: &BlockId)
        requires
            old(self).wf(),
        ensures
            final(self).wf(),
            final(self).held() == old(self).held(),
            final(self).pins() == old(self).pins().remove(block_id@),
            final(self).snapshots() == old(self).snapshots(),
            final(self).limit() == old(self).limit(),
    {
        self.pinned.remove(block_id.as_str());
        assert(self.pins() =~= old(self).pins().remove(block_id@));
    }

    pub fn is_pinned(&self, block_id: &BlockId) -> (r: bool)
        requires
            self.wf(),
        ensures
            r == self.pins().contains(block_id@),
    {
        self.pinned.contains(block_id.as_str())
    }

    pub fn len(&self) -> (r: usize)
        ensures
            r == self.held().len(),
    {
        self.entries.len()
    }

    pub fn is_empty(&self) -> (r: bool)
        ensures
            r == (self.held().len() == 0),
    {
        self.entries.len() == 0
    }

    /// The identifiers of the blocks, the one that was not used for the longest time first.
    pub fn block_ids(&self) -> (r: Vec<BlockId>)
        ensures
            r@.len() == self.held().len(),
            forall|i: int| 0 <= i < r@.len() ==> (#[trigger] r@[i])@ == self.held()[i].0,
    {
        let mut out: Vec<BlockId> = Vec::new();
        let mut i: usize = 0;
        while i < self.entries.len()
            invariant
                i <= self.entries@.len(),
                out@.len() == i,
                forall|j: int| 0 <= j < i ==> (#[trigger] out@[j])@ == self.held()[j].0,
            decreases self.entries@.len() - i,
        {
            out.push(self.entries[i].0.clone());
            i = i + 1;
        }
        out
    }

    /// Hands each block to `f`, until one fails.
    pub fn for_each<F: Fn(&BlockId, &BlockDoc) -> CoreResult<()>>(&self, f: F) -> (r: CoreResult<()>)
        requires
            self.wf(),
            forall|id: &BlockId, doc: &BlockDoc| doc.wf() ==> call_requires(f, (id, doc)),
        ensures
            visited(f, self.held(), r),
    {
        let mut i: usize = 0;
        while i < self.entries.len()
            invariant
                i <= self.entries@.len(),
                self.wf(),
                forall|id: &BlockId, doc: &BlockDoc| doc.wf() ==> call_requires(f, (id, doc)),
                forall|j: int| 0 <= j < i ==> #[trigger] handed(f, self.held()[j], Ok(())),
            decreases self.entries@.len() - i,
        {
            let id = &self.entries[i].0;
            let doc = &self.entries[i].1;
            assert(self.held()[i as int] == (id@, *doc));
            let answer = f(id, doc);
            assert(call_ensures(f, (id, doc), answer));
            assert(handed(f, self.held()[i as int], answer));
            match answer {
                Ok(u) => {
                    assert(handed(f, self.held()[i as int], Ok(())));
                },
                Err(e) => {
                    assert(handed(f, self.held()[i as int], Err(e)));
                    return Err(e);
                },
            }
            i = i + 1;
        }
        Ok(())
    }

    /// Lets go of all snapshots.
    pub fn clear_cold(&mut self)
        requires
            old(self).wf(),
        ensures
            final(self).wf(),
            final(self).held() == old(self).held(),
            final(self).pins() == old(self).pins(),
            final(self).snapshots() == Map::<Seq<char>, ColdEntry>::empty(),
            final(self).limit() == old(self).limit(),
    {
        self.cold = TextMap::new();
    }

    /// Lets go of the snapshots that are `max_age` milliseconds old or older at `now`, and says
    /// how many they were.
    pub fn cleanup_stale_cold_at(&mut self, max_age: u64, now: u64) -> (r: usize)
        requires
            old(self).wf(),
        ensures
            final(self).wf(),
            final(self).held() == old(self).held(),
            final(self).pins() == old(self).pins(),
            final(self).limit() == old(self).limit(),
            final(self).snapshots() == fresh_cold(old(self).snapshots(), max_age, now),
            r == old(self).snapshots().len() - final(self).snapshots().len(),
    {
        let before = self.cold.len();
        let ghost start = self.cold@;
        let mut i: usize = 0;
        while i < self.cold.len()
            invariant
                self.cold.wf(),
                i <= self.cold.pairs().len(),
                self.entries == old(self).entries,
                self.pinned == old(self).pinned,
                self.capacity == old(self).capacity,
                forall|k: Seq<char>| #[trigger]
                    self.cold@.contains_key(k) ==> start.contains_key(k) && self.cold@[k]
                        == start[k],
                forall|k: Seq<char>|
                    start.contains_key(k) && !is_stale(start[k], max_age, now)
                        ==> #[trigger] self.cold@.contains_key(k),
                forall|j: int|
                    0 <= j < i ==> !is_stale((#[trigger] self.cold.pairs()[j]).1, max_age, now),
                self.cold@.dom().finite(),
                self.cold@.len() <= start.len(),
                start.len() == before,
            decreases self.cold.pairs().len() - i,
        {
            proof {
                self.cold.lemma_pairs();
                self.cold.lemma_len();
            }
            let at = self.cold.value_at(i).evicted_at;
            let stale = if now >= at {
                now - at >= max_age
            } else {
                max_age == 0
            };
            if stale {
                let ghost was = self.cold@;
                let ghost pairs = self.cold.pairs();
                let (key, e) = self.cold.remove_at(i);
                proof {
                    assert(was.contains_key(key@));
                    assert(start[key@] == e);
                    assert(forall|j: int| 0 <= j < i ==> self.cold.pairs()[j] == pairs[j]);
                    assert(self.cold@ == was.remove(key@));
                }
            } else {
                i = i + 1;
            }
        }
        proof {
            self.cold.lemma_pairs();
            self.cold.lemma_len();
            let want = fresh_cold(start, max_age, now);
            assert forall|k: Seq<char>| self.cold@.contains_key(k) <==> #[trigger]
                want.contains_key(k) by {
                if self.cold@.contains_key(k) {
                    let j = choose|j: int|
                        0 <= j < self.cold.pairs().len() && (#[trigger] self.cold.pairs()[j]).0
                            == k;
                    assert(!is_stale(self.cold.pairs()[j].1, max_age, now));
                }
            }
            assert(self.cold@ =~= want);
        }
        before - self.cold.len()
    }

    /// Lets go of the snapshots that are `max_age` milliseconds old or older now, and says how
    /// many they were.
    pub fn cleanup_stale_cold(&mut self, max_age: u64) -> (r: usize)
        requires
            old(self).wf(),
        ensures
            final(self).wf(),
            final(self).held() == old(self).held(),
            final(self).pins() == old(self).pins(),
            final(self).limit() == old(self).limit(),
            exists|now: u64| #[trigger]
                old(self).told(now) && final(self).snapshots() == fresh_cold(
                    old(self).snapshots(),
                    max_age,
                    now,
                ),
            r == old(self).snapshots().len() - final(self).snapshots().len(),
    {
        let now = elapsed_millis(&self.made);
        assert(old(self).told(now));
        self.cleanup_stale_cold_at(max_age, now)
    }

    /// How many snapshots there are.
    pub fn cold_len(&self) -> (r: usize)
        requires
            self.wf(),
        ensures
            r == self.snapshots().len(),
    {
        self.cold.len()
    }
}

/// Whether `f` answers `r` to a block.
pub open spec fn handed<F: Fn(&BlockId, &BlockDoc) -> CoreResult<()>>(
    f: F,
    entry: (Seq<char>, BlockDoc),
    r: CoreResult<()>,
) -> bool {
    exists|id: &BlockId, doc: &BlockDoc|
        id@ == entry.0 && *doc == entry.1 && #[trigger] call_ensures(f, (id, doc), r)
}

/// Whether blocks were handed to `f` in their order, until one failed, and `r` tells how that ended.
pub open spec fn visited<F: Fn(&BlockId, &BlockDoc) -> CoreResult<()>>(
    f: F,
    held: Held,
    r: CoreResult<()>,
) -> bool {
    match r {
        Ok(_) => forall|i: int| 0 <= i < held.len() ==> #[trigger] handed(f, held[i], Ok(())),
        Err(e) => exists|n: int|
            0 <= n < held.len() && #[trigger] handed(f, held[n], Err(e)) && forall|i: int|
                0 <= i < n ==> #[trigger] handed(f, held[i], Ok(())),
    }
}

/// Whether the snapshots became those with one of a block that left at `now`, or stayed as they
/// are where the block could not be exported.
pub open spec fn kept_cold(
    before: Map<Seq<char>, ColdEntry>,
    after: Map<Seq<char>, ColdEntry>,
    id: Seq<char>,
    gone: BlockDoc,
    now: u64,
) -> bool {
    if granted(LoroExport::Snapshot, gone.doc()) {
        &&& after.contains_key(id)
        &&& after == before.insert(id, after[id])
        &&& after[id].evicted_at == now
        &&& exported(LoroExport::Snapshot, gone.doc(), after[id].snapshot@)
    } else {
        after == before
    }
}

proof fn lemma_placed_differ(held: Held, id: Seq<char>, doc: BlockDoc)
    requires
        ids_differ(held),
    ensures
        ids_differ(placed(held, id, doc)),
        all_wf(held) && doc.wf() ==> all_wf(placed(held, id, doc)),
{
    lemma_place(held, id);
    let p = placed(held, id, doc);
    assert forall|a: int, b: int| 0 <= a < b < p.len() implies (#[trigger] p[a]).0 != (
    #[trigger] p[b]).0 by {
        match place_of(held, id) {
            Some(i) => {
                let a2 = if a < i {
                    a
                } else {
                    a + 1
                };
                let b2 = if b < i {
                    b
                } else {
                    b + 1
                };
                if b < p.len() - 1 {
                    assert(held[a2].0 != held[b2].0);
                } else {
                    if a2 < i {
                        assert(held[a2].0 != held[i].0);
                    } else {
                        assert(held[i].0 != held[a2].0);
                    }
                }
            },
            None => {
                if b < p.len() - 1 {
                    assert(held[a].0 != held[b].0);
                } else {
                    assert(held[a].0 != id);
                }
            },
        }
    }
}

/// A pinned block leaves only where every block is pinned and there are more than twice as many
/// as there should be.
pub proof fn law_pinned_block_stays(held: Held, pins: Set<Seq<char>>, capacity: nat)
    requires
        victim(held, pins, capacity) is Some,
        pins.contains(held[victim(held, pins, capacity)->Some_0].0),
    ensures
        held.len() > 2 * capacity,
        forall|i: int| 0 <= i < held.len() ==> pins.contains((#[trigger] held[i]).0),
{
    lemma_first_free(held, pins, 0);
}

/// Every block that was not used for longer than the one that leaves is pinned.
pub proof fn law_longest_unused_leaves(held: Held, pins: Set<Seq<char>>, capacity: nat, i: int)
    requires
        victim(held, pins, capacity) is Some,
        0 <= i < victim(held, pins, capacity)->Some_0,
    ensures
        i < held.len(),
        pins.contains(held[i].0),
{
    lemma_first_free(held, pins, 0);
}

/// One more block never makes more than twice as many as there should be, and no more than there
/// should be where none is pinned.
pub proof fn law_cache_stays_bounded(
    held: Held,
    pins: Set<Seq<char>>,
    capacity: nat,
    id: Seq<char>,
    doc: BlockDoc,
)
    requires
        capacity >= 1,
    ensures
        ({
            let after = placed(held, id, doc);
            let left = match victim(after, pins, capacity) {
                Some(v) => after.remove(v),
                None => after,
            };
            &&& held.len() <= 2 * capacity ==> left.len() <= 2 * capacity
            &&& held.len() <= capacity && pins == Set::<Seq<char>>::empty() ==> left.len()
                <= capacity
        }),
{
    let after = placed(held, id, doc);
    lemma_place(held, id);
    lemma_first_free(after, pins, 0);
    if held.len() <= capacity && pins == Set::<Seq<char>>::empty() {
        if after.len() > capacity {
            assert(!pins.contains(after[0].0));
        }
    }
}

/// The blocks but for one, in their order.
pub open spec fn apart_from(held: Held, id: Seq<char>) -> Held {
    held.filter(|e: (Seq<char>, BlockDoc)| e.0 != id)
}

proof fn lemma_without_is_filter(held: Held, id: Seq<char>)
    requires
        ids_differ(held),
    ensures
        without(held, id) == apart_from(held, id),
    decreases held.len(),
{
    let others = |e: (Seq<char>, BlockDoc)| e.0 != id;
    reveal(Seq::filter);
    if held.len() > 0 {
        let front = held.drop_last();
        let n = held.len() - 1;
        assert forall|i: int, j: int| 0 <= i < j < front.len() implies (#[trigger] front[i]).0 != (
        #[trigger] front[j]).0 by {
            assert(held[i].0 != held[j].0);
        }
        lemma_without_is_filter(front, id);
        lemma_place(front, id);
        if held.last().0 == id {
            assert forall|i: int| 0 <= i < front.len() implies (#[trigger] front[i]).0 != id by {
                assert(held[i].0 != held[n].0);
            }
            match place_of(front, id) {
                Some(i) => {
                    assert(front[i].0 != id);
                },
                None => {},
            }
            assert(held.remove(n) =~= front);
        } else {
            match place_of(front, id) {
                Some(i) => {
                    assert(held.remove(i) =~= front.remove(i).push(held.last()));
                },
                None => {
                    assert(held =~= front.push(held.last()));
                },
            }
        }
    }
}

/// A block that is put into the cache becomes the one that was used last, in place of what was held of it.
/// At most one block leaves for it: none while there are no more than there should be; else the one that
/// was not used for the longest time among those that are not pinned, or, where all are pinned and there
/// are more than twice as many as there should be, the one that was not used for the longest time of
/// all. The others stay in their order.
pub proof fn law_longest_unused_leaves_for_a_new_block(
    cache: &mut BlockDocCache,
    block_id: BlockId,
    doc: BlockDoc,
    now: u64,
    r: Option<(BlockId, BlockDoc)>,
)
    requires
        old(cache).wf(),
        call_ensures(BlockDocCache::insert_at, (cache, block_id, doc, now), r),
    ensures
        ({
            let all = apart_from(old(cache).held(), block_id@).push((block_id@, doc));
            let pinned = |e: (Seq<char>, BlockDoc)| old(cache).pins().contains(e.0);
            let limit = old(cache).limit();
            match r {
                None => {
                    &&& final(cache).held() == all
                    &&& all.len() <= limit || (all.len() <= 2 * limit && forall|i: int|
                        0 <= i < all.len() ==> pinned(#[trigger] all[i]))
                },
                Some((id, gone)) => {
                    &&& all.len() > limit
                    &&& exists|v: int|
                        0 <= v < all.len() && all[v] == (id@, gone) && final(cache).held()
                            == #[trigger] all.remove(v) && (forall|i: int|
                            0 <= i < v ==> pinned(#[trigger] all[i])) && (pinned(all[v]) ==> v == 0
                            && all.len() > 2 * limit && forall|i: int|
                            0 <= i < all.len() ==> pinned(#[trigger] all[i]))
                },
            }
        }),
        final(cache).pins() == old(cache).pins(),
        final(cache).limit() == old(cache).limit(),
{
    let held = placed(old(cache).held(), block_id@, doc);
    lemma_without_is_filter(old(cache).held(), block_id@);
    lemma_first_free(held, old(cache).pins(), 0);
    if r is Some {
        let v = victim(held, old(cache).pins(), old(cache).limit())->Some_0;
        assert(final(cache).held() == held.remove(v));
    }
}

/// Of a block that leaves, a snapshot is kept that it can be restored from, where it can be exported; no
/// other snapshot changes.
pub proof fn law_block_that_leaves_can_be_restored(
    cache: &mut BlockDocCache,
    block_id: BlockId,
    doc: BlockDoc,
    now: u64,
    r: Option<(BlockId, BlockDoc)>,
    asked: &BlockId,
    before: Option<Vec<u8>>,
    after: Option<Vec<u8>>,
    bytes: &[u8],
    kind: crate::model::BlockKind,
    peer_id: &crate::ids::PeerId,
    restored: CoreResult<BlockDoc>,
)
    requires
        call_ensures(BlockDocCache::insert_at, (cache, block_id, doc, now), r),
        call_ensures(BlockDocCache::get_cold_snapshot, (&*old(cache), asked), before),
        call_ensures(BlockDocCache::get_cold_snapshot, (&*final(cache), asked), after),
        after matches Some(b) && b@ == bytes@ ==> call_ensures(
            BlockDoc::from_snapshot,
            (*asked, kind, peer_id, bytes),
            restored,
        ),
    ensures
        r is None || r->Some_0.0@ != asked@ ==> (before is Some <==> after is Some) && (before
            is Some ==> before->Some_0@ == after->Some_0@),
        r matches Some((id, gone)) && id@ == asked@ && granted(LoroExport::Snapshot, gone.doc())
            ==> after is Some && (after->Some_0@ == bytes@ && restored is Ok ==> restored->Ok_0.root()
            == r->Some_0.1.root()),
{
}

/// A block that is held is given, and becomes the one that was used last; the others keep their order.
/// One that is not held is not given, and nothing changes.
pub proof fn law_block_that_is_used_comes_last(
    cache: &mut BlockDocCache,
    block_id: &BlockId,
    r: Option<&BlockDoc>,
)
    requires
        old(cache).wf(),
        call_ensures(BlockDocCache::get, (cache, block_id), r),
    ensures
        r is Some <==> exists|i: int|
            0 <= i < old(cache).held().len() && (#[trigger] old(cache).held()[i]).0 == block_id@,
        r matches Some(doc) ==> old(cache).held().contains((block_id@, *doc)) && final(cache).held()
            == apart_from(old(cache).held(), block_id@).push(
            (block_id@, *doc),
        ),
        r is None ==> final(cache).held() == old(cache).held(),
        final(cache).pins() == old(cache).pins(),
        final(cache).snapshots() == old(cache).snapshots(),
{
    let held = old(cache).held();
    lemma_place(held, block_id@);
    lemma_without_is_filter(held, block_id@);
    if r is Some {
        let i = place_of(held, block_id@)->Some_0;
        assert(held[i] == (block_id@, *r->Some_0));
    }
}

/// A block that is changed in the cache is held as it was left, as the one that was used last.
pub proof fn law_changed_block_is_held(
    cache: &mut BlockDocCache,
    block_id: &BlockId,
    r: Option<&mut BlockDoc>,
)
    requires
        old(cache).wf(),
        call_ensures(BlockDocCache::get_mut, (cache, block_id), r),
    ensures
        r is Some <==> exists|i: int|
            0 <= i < old(cache).held().len() && (#[trigger] old(cache).held()[i]).0 == block_id@,
        r matches Some(doc) ==> old(cache).held().contains((block_id@, *doc)) && final(cache).held()
            == apart_from(old(cache).held(), block_id@).push(
            (block_id@, *final(doc)),
        ),
        r is None ==> final(cache).held() == old(cache).held(),
{
    let held = old(cache).held();
    lemma_place(held, block_id@);
    lemma_without_is_filter(held, block_id@);
    if r is Some {
        let i = place_of(held, block_id@)->Some_0;
        assert(held[i].0 == block_id@);
    }
}

/// A block that is let go of is handed out, and is held and pinned no more; the others stay, and so do the
/// snapshots.
pub proof fn law_removed_block_is_handed_out(
    cache: &mut BlockDocCache,
    block_id: &BlockId,
    r: Option<BlockDoc>,
    other: &BlockId,
    pinned_before: bool,
    pinned_after: bool,
)
    requires
        old(cache).wf(),
        call_ensures(BlockDocCache::remove, (cache, block_id), r),
        call_ensures(BlockDocCache::is_pinned, (&*old(cache), other), pinned_before),
        call_ensures(BlockDocCache::is_pinned, (&*final(cache), other), pinned_after),
    ensures
        final(cache).held() == apart_from(old(cache).held(), block_id@),
        r is Some <==> exists|i: int|
            0 <= i < old(cache).held().len() && (#[trigger] old(cache).held()[i]).0 == block_id@,
        r matches Some(doc) ==> old(cache).held().contains((block_id@, doc)),
        other@ == block_id@ ==> !pinned_after,
        other@ != block_id@ ==> pinned_after == pinned_before,
        final(cache).snapshots() == old(cache).snapshots(),
{
    let held = old(cache).held();
    lemma_place(held, block_id@);
    lemma_without_is_filter(held, block_id@);
    if r is Some {
        let i = place_of(held, block_id@)->Some_0;
        assert(held[i] == (block_id@, r->Some_0));
    }
}

/// Pinning and unpinning change just what is told of that block.
pub proof fn law_pins_are_told(
    pinned: &mut BlockDocCache,
    unpinned: &mut BlockDocCache,
    block_id: &BlockId,
    other: &BlockId,
    before: bool,
    after_pin: bool,
    after_unpin: bool,
)
    requires
        *old(unpinned) == *old(pinned),
        call_ensures(BlockDocCache::pin, (pinned, block_id), ()),
        call_ensures(BlockDocCache::unpin, (unpinned, block_id), ()),
        call_ensures(BlockDocCache::is_pinned, (&*old(pinned), other), before),
        call_ensures(BlockDocCache::is_pinned, (&*final(pinned), other), after_pin),
        call_ensures(BlockDocCache::is_pinned, (&*final(unpinned), other), after_unpin),
    ensures
        other@ == block_id@ ==> after_pin && !after_unpin,
        other@ != block_id@ ==> after_pin == before && after_unpin == before,
        final(pinned).held() == old(pinned).held(),
        final(unpinned).held() == old(pinned).held(),
{
}

/// A cleaning lets go of the snapshots that are at least as old as was said, counts them, and keeps the
/// others.
pub proof fn law_old_snapshots_go(
    cache: &mut BlockDocCache,
    max_age: u64,
    now: u64,
    gone: usize,
    block_id: &BlockId,
    before: Option<Vec<u8>>,
    after: Option<Vec<u8>>,
)
    requires
        call_ensures(BlockDocCache::cleanup_stale_cold_at, (cache, max_age, now), gone),
        call_ensures(BlockDocCache::get_cold_snapshot, (&*old(cache), block_id), before),
        call_ensures(BlockDocCache::get_cold_snapshot, (&*final(cache), block_id), after),
    ensures
        before is None ==> after is None,
        before is Some ==> {
            let at = old(cache).snapshots()[block_id@].evicted_at;
            let age = if now >= at {
                now - at
            } else {
                0
            };
            &&& after is Some <==> age < max_age
            &&& after is Some ==> after->Some_0@ == before->Some_0@
        },
        final(cache).held() == old(cache).held(),
{
}

/// A new cache holds nothing, and has room for as many blocks as was said, but for one at least.
pub proof fn law_new_cache_is_empty(capacity: usize, cache: BlockDocCache, empty: bool, len: usize)
    requires
        call_ensures(BlockDocCache::new, (capacity,), cache),
        call_ensures(BlockDocCache::is_empty, (&cache,), empty),
        call_ensures(BlockDocCache::len, (&cache,), len),
    ensures
        empty,
        len == 0,
        cache.limit() >= 1,
        capacity >= 1 ==> cache.limit() == capacity,
{
}

/// A block that is put into the cache now becomes the one that was used last, too, and the same block leaves
/// for it; where that can be exported, a snapshot of it is kept, as of a time that the clock told.
pub proof fn law_block_inserted_now_is_held(
    cache: &mut BlockDocCache,
    block_id: BlockId,
    doc: BlockDoc,
    r: Option<(BlockId, BlockDoc)>,
    at: &mut BlockDocCache,
    now: u64,
    r_at: Option<(BlockId, BlockDoc)>,
)
    requires
        *old(at) == *old(cache),
        call_ensures(BlockDocCache::insert, (cache, block_id, doc), r),
        call_ensures(BlockDocCache::insert_at, (at, block_id, doc, now), r_at),
    ensures
        final(cache).held() == final(at).held(),
        final(cache).pins() == final(at).pins(),
        r is Some <==> r_at is Some,
        r matches Some((id, gone)) ==> id@ == r_at->Some_0.0@ && gone == r_at->Some_0.1,
        r matches Some((id, gone)) && granted(LoroExport::Snapshot, gone.doc()) ==> final(cache).snapshots().contains_key(r->Some_0.0@) && exists|t: u64| #[trigger]
            old(cache).told(t) && final(cache).snapshots()[r->Some_0.0@].evicted_at == t,
        r is None ==> final(cache).snapshots() == old(cache).snapshots(),
{
}

/// The blocks are told by their identifiers, the one that was not used for the longest time first, and as
/// many are counted.
pub proof fn law_held_blocks_are_told(
    cache: &BlockDocCache,
    ids: Vec<BlockId>,
    len: usize,
    empty: bool,
)
    requires
        call_ensures(BlockDocCache::block_ids, (cache,), ids),
        call_ensures(BlockDocCache::len, (cache,), len),
        call_ensures(BlockDocCache::is_empty, (cache,), empty),
    ensures
        ids@.len() == cache.held().len(),
        forall|i: int| 0 <= i < ids@.len() ==> (#[trigger] ids@[i])@ == cache.held()[i].0,
        len == ids@.len(),
        empty <==> len == 0,
{
}

/// Whether `f` was given a block with its identifier and answered `r`.
pub open spec fn was_given<F: Fn(&BlockId, &BlockDoc) -> CoreResult<()>>(
    f: F,
    id: Seq<char>,
    doc: BlockDoc,
    r: CoreResult<()>,
) -> bool {
    exists|i: &BlockId, d: &BlockDoc| i@ == id && *d == doc && #[trigger] call_ensures(f, (i, d), r)
}

/// Each block is handed on with its identifier, in their order, until one is refused; and what refused it is
/// told.
pub proof fn law_every_block_is_visited<F: Fn(&BlockId, &BlockDoc) -> CoreResult<()>>(
    cache: &BlockDocCache,
    f: F,
    r: CoreResult<()>,
)
    requires
        call_ensures(BlockDocCache::for_each::<F>, (cache, f), r),
    ensures
        r is Ok ==> forall|i: int|
            0 <= i < cache.held().len() ==> #[trigger] was_given(
                f,
                cache.held()[i].0,
                cache.held()[i].1,
                Ok(()),
            ),
        r is Err ==> exists|n: int|
            0 <= n < cache.held().len() && #[trigger] was_given(
                f,
                cache.held()[n].0,
                cache.held()[n].1,
                r,
            ) && forall|i: int|
                0 <= i < n ==> #[trigger] was_given(
                    f,
                    cache.held()[i].0,
                    cache.held()[i].1,
                    Ok(()),
                ),
{
    let held = cache.held();
    assert(visited(f, held, r));
    if r is Ok {
        assert forall|i: int| 0 <= i < held.len() implies #[trigger] was_given(
            f,
            held[i].0,
            held[i].1,
            Ok(()),
        ) by {
            assert(handed(f, held[i], Ok(())));
        }
    } else {
        let e = r->Err_0;
        let n = choose|n: int|
            0 <= n < held.len() && #[trigger] handed(f, held[n], Err(e)) && forall|i: int|
                0 <= i < n ==> #[trigger] handed(f, held[i], Ok(()));
        assert(was_given(f, held[n].0, held[n].1, r));
        assert forall|i: int| 0 <= i < n implies #[trigger] was_given(
            f,
            held[i].0,
            held[i].1,
            Ok(()),
        ) by {
            assert(handed(f, held[i], Ok(())));
        }
    }
}

/// Letting go of all snapshots leaves none, and all blocks.
pub proof fn law_cleared_snapshots_are_gone(
    cache: &mut BlockDocCache,
    block_id: &BlockId,
    snapshot: Option<Vec<u8>>,
    count: usize,
)
    requires
        call_ensures(BlockDocCache::clear_cold, (cache,), ()),
        call_ensures(BlockDocCache::get_cold_snapshot, (&*final(cache), block_id), snapshot),
        call_ensures(BlockDocCache::cold_len, (&*final(cache),), count),
    ensures
        snapshot is None,
        count == 0,
        final(cache).held() == old(cache).held(),
        final(cache).pins() == old(cache).pins(),
{
    assert(Map::<Seq<char>, ColdEntry>::empty().dom() =~= Set::empty());
}

/// A cleaning now lets go of the snapshots that are old enough at a time that the clock told, and no others.
pub proof fn law_old_snapshots_go_now(
    cache: &mut BlockDocCache,
    max_age: u64,
    gone: usize,
    block_id: &BlockId,
    before: Option<Vec<u8>>,
    after: Option<Vec<u8>>,
)
    requires
        call_ensures(BlockDocCache::cleanup_stale_cold, (cache, max_age), gone),
        call_ensures(BlockDocCache::get_cold_snapshot, (&*old(cache), block_id), before),
        call_ensures(BlockDocCache::get_cold_snapshot, (&*final(cache), block_id), after),
    ensures
        before is None ==> after is None,
        before is Some ==> exists|now: u64| #[trigger]
            old(cache).told(now) && {
                let at = old(cache).snapshots()[block_id@].evicted_at;
                after is Some <==> (if now >= at {
                    now - at
                } else {
                    0
                }) < max_age
            },
        before is Some && after is Some ==> after->Some_0@ == before->Some_0@,
        final(cache).held() == old(cache).held(),
{
}

} // verus!
