//! A document's list of blocks: which there are, in which order, of which kind, and which are
//! deleted.
//!
//! The list is kept in a replicated document, each entry as JSON. Entries that cannot be read are
//! passed over.

use loro::LoroDoc;
use vstd::prelude::*;
use vstd::string::*;

use crate::block_record::{
    before_epoch_text, is_serialize_error, parse_record, record_at, record_json, record_text,
    record_views, RecordView,
};
use crate::clock::{wall_millis, wall_told};
use crate::converter::{
    awaits, bad_peer_text, ends_of, export_fault, exported, frontier_of, frontiers_to_frontier,
    granted, is_export_error, is_frontier_error, law_changes_are_added, parse_peer_id, peer_number,
    LoroExport,
};
use crate::error::{crdt_error, is_crdt_error, CoreError, CoreResult};
use crate::frontier::Frontier;
use crate::ids::{BlockId, DocId, PeerId};
use crate::loro_doc::{
    bytes_sound, carried_ops, commit_doc, covered, distinct_ids, doc_committed, doc_editable,
    doc_from_snapshot, doc_given, doc_has, doc_ops, doc_peer, doc_pristine, doc_root, doc_sound,
    doc_version, doc_whole, grew, import_accepted, import_into, imported_root, imported_version,
    is_snapshot, movable_delete, movable_insert, movable_item, movable_len, movable_move,
    movable_set, moved, names_ops, new_doc, no_operations, ops_beyond, plain_name, prompt,
    same_history, set_doc_peer, settled, snapshot_ops, snapshot_root, snapshot_version,
    snapshot_whole, state_frontiers, takes_in, Operation,
};
use crate::model::{BlockKind, BlockRecord, ImportResult};
use crate::text::{decimal, push_decimal};

verus! {

/// The name that the list is kept under.
const META_LIST: &'static str = "blocks";

/// The name that the list is kept under.
pub open spec fn meta_list() -> Seq<char> {
    "blocks"@
}

/// The block list of a document.
pub struct MetaDoc {
    doc: LoroDoc,
    doc_id: DocId,
}

/// What an entry says, where it can be read.
pub open spec fn entry_at(item: Option<Seq<char>>) -> Option<RecordView> {
    match item {
        Some(json) => record_at(json),
        None => None,
    }
}

/// What the entries say that can be read, in their order.
pub open spec fn readable(items: Seq<Option<Seq<char>>>) -> Seq<RecordView>
    decreases items.len(),
{
    if items.len() == 0 {
        Seq::empty()
    } else {
        match entry_at(items.last()) {
            Some(r) => readable(items.drop_last()).push(r),
            None => readable(items.drop_last()),
        }
    }
}

/// Those of the entries that are not deleted, in their order.
pub open spec fn active(records: Seq<RecordView>) -> Seq<RecordView> {
    records.filter(|r: RecordView| !r.deleted)
}

/// What the entries say that can be read and are not deleted, in their order: the active blocks.
pub open spec fn active_of(items: Seq<Option<Seq<char>>>) -> Seq<RecordView> {
    active(readable(items))
}

/// Whether the entry at `p` is the one at `k` among the active ones.
pub open spec fn is_active_at(items: Seq<Option<Seq<char>>>, k: int, p: int) -> bool {
    &&& 0 <= p < items.len()
    &&& entry_at(items[p]) is Some
    &&& !entry_at(items[p])->Some_0.deleted
    &&& active_of(items.take(p)).len() == k
}

/// Whether the entry at `i` is the last one for a block.
pub open spec fn is_last_of(items: Seq<Option<Seq<char>>>, id: Seq<char>, i: int) -> bool {
    &&& 0 <= i < items.len()
    &&& names_block(items[i], id)
    &&& forall|j: int| i < j < items.len() ==> !names_block(#[trigger] items[j], id)
}

/// Whether an entry is for a block.
pub open spec fn names_block(item: Option<Seq<char>>, id: Seq<char>) -> bool {
    entry_at(item) is Some && entry_at(item)->Some_0.block_id == id
}

/// Whether some entry is for a block.
pub open spec fn has_block(items: Seq<Option<Seq<char>>>, id: Seq<char>) -> bool {
    exists|i: int| 0 <= i < items.len() && names_block(#[trigger] items[i], id)
}

/// The position of the last entry for a block.
pub open spec fn last_of(items: Seq<Option<Seq<char>>>, id: Seq<char>) -> int {
    choose|i: int| is_last_of(items, id, i)
}

/// Whether each entry that was written is read back.
pub open spec fn reads_back(items: Seq<Option<Seq<char>>>) -> bool {
    forall|i: int, v: RecordView|
        0 <= i < items.len() && #[trigger] items[i] == Some(#[trigger] record_text(v))
            && v.updated_at >= 0 ==> entry_at(items[i]) == Some(v)
}

/// Whether `e` says that a block of a document does not exist.
pub open spec fn is_missing_block(e: CoreError, doc: Seq<char>, block: Seq<char>) -> bool {
    e matches CoreError::BlockNotFound { doc_id, block_id } && doc_id@ == doc && block_id@ == block
}

/// The entry for a new block.
pub open spec fn new_entry(id: Seq<char>, kind: BlockKind, now: i64) -> RecordView {
    RecordView { block_id: id, kind, deleted: false, updated_at: now }
}

/// An entry marked as deleted.
pub open spec fn deleted_entry(r: RecordView, now: i64) -> RecordView {
    RecordView { deleted: true, updated_at: now, ..r }
}

/// What is said of a position beyond the end.
pub open spec fn beyond_text(to: nat, len: nat) -> Seq<char> {
    "目标位置越界: to="@ + decimal(to) + ", len="@ + decimal(len)
}

proof fn lemma_meta_list()
    ensures
        plain_name(meta_list()),
{
    reveal_strlit("blocks");
    let s = "blocks"@;
    assert(s =~= seq!['b', 'l', 'o', 'c', 'k', 's']);
}

impl MetaDoc {
    /// The replicated document.
    pub closed spec fn doc(&self) -> LoroDoc {
        self.doc
    }

    /// The document whose blocks are listed.
    pub closed spec fn id(&self) -> Seq<char> {
        self.doc_id@
    }

    /// The replicated document takes edits, and all that it holds can be read.
    pub open spec fn wf(&self) -> bool {
        doc_editable(self.doc()) && doc_sound(self.doc())
    }

    /// The entries of the list.
    pub open spec fn items(&self) -> Seq<Option<Seq<char>>> {
        doc_root(self.doc(), meta_list()).movable
    }

    /// A new, empty list, whose changes are made in the name of `peer_id`.
    pub fn new(doc_id: DocId, peer_id: &PeerId) -> (r: CoreResult<Self>)
        ensures
            match r {
                Ok(m) => {
                    &&& m.wf()
                    &&& m.id() == doc_id@
                    &&& m.items().len() == 0
                    &&& doc_version(m.doc()) == no_operations()
                    &&& doc_pristine(m.doc())
                    &&& doc_ops(m.doc()) == Set::<Operation>::empty()
                    &&& settled(m.doc())
                    &&& doc_whole(m.doc())
                    &&& peer_number(peer_id@) == Some(doc_peer(m.doc()))
                    &&& doc_peer(m.doc()) != u64::MAX
                },
                Err(e) => match peer_number(peer_id@) {
                    None => is_frontier_error(e, bad_peer_text(peer_id@)),
                    Some(n) => n == u64::MAX && is_crdt_error(e, "设置 PeerID 失败: "@),
                },
            },
    {
        let mut doc = new_doc();
        let peer = match parse_peer_id(peer_id.as_str()) {
            Ok(peer) => peer,
            Err(e) => {
                return Err(e);
            },
        };
        match set_doc_peer(&mut doc, peer) {
            Ok(_) => Ok(MetaDoc { doc, doc_id }),
            Err(e) => Err(crdt_error("设置 PeerID 失败: ", e.as_str())),
        }
    }

    /// A list from a snapshot, whose further changes are made in the name of `peer_id`.
    ///
    /// The snapshot is one that a list gave, or bytes that are none: states that cannot be read
    /// are not to be in it.
    pub fn from_snapshot(doc_id: DocId, peer_id: &PeerId, bytes: &[u8]) -> (r: CoreResult<Self>)
        requires
            bytes_sound(bytes@),
        ensures
            match r {
                Ok(m) => {
                    &&& m.wf()
                    &&& m.id() == doc_id@
                    &&& is_snapshot(bytes@)
                    &&& m.items() == snapshot_root(bytes@, meta_list()).movable
                    &&& doc_version(m.doc()) == snapshot_version(bytes@)
                    &&& doc_ops(m.doc()) == snapshot_ops(bytes@)
                    &&& settled(m.doc())
                    &&& doc_whole(m.doc()) == snapshot_whole(bytes@)
                    &&& peer_number(peer_id@) == Some(doc_peer(m.doc()))
                    &&& doc_peer(m.doc()) != u64::MAX
                },
                Err(e) => if !is_snapshot(bytes@) {
                    is_crdt_error(e, "MetaDoc 从 snapshot 恢复失败: "@)
                } else {
                    match peer_number(peer_id@) {
                        None => is_frontier_error(e, bad_peer_text(peer_id@)),
                        Some(n) => n == u64::MAX && is_crdt_error(e, "设置 PeerID 失败: "@),
                    }
                },
            },
    {
        let mut doc = match doc_from_snapshot(bytes) {
            Ok(doc) => doc,
            Err(e) => {
                return Err(crdt_error("MetaDoc 从 snapshot 恢复失败: ", e.as_str()));
            },
        };
        let peer = match parse_peer_id(peer_id.as_str()) {
            Ok(peer) => peer,
            Err(e) => {
                return Err(e);
            },
        };
        match set_doc_peer(&mut doc, peer) {
            Ok(_) => Ok(MetaDoc { doc, doc_id }),
            Err(e) => Err(crdt_error("设置 PeerID 失败: ", e.as_str())),
        }
    }

    pub fn doc_id(&self) -> (r: &DocId)
        ensures
            r@ == self.id(),
    {
        &self.doc_id
    }

    /// The entry at `i`, where it can be read.
    fn entry(&self, i: usize) -> (r: Option<BlockRecord>)
        requires
            self.wf(),
            i < self.items().len(),
        ensures
            match r {
                Some(x) => entry_at(self.items()[i as int]) == Some(x@),
                None => entry_at(self.items()[i as int]) is None,
            },
            forall|v: RecordView|
                self.items()[i as int] == Some(#[trigger] record_text(v)) && v.updated_at >= 0
                    ==> entry_at(self.items()[i as int]) == Some(v),
    {
        proof {
            lemma_meta_list();
        }
        match movable_item(&self.doc, META_LIST, i) {
            Some(Some(json)) => parse_record(json.as_str()),
            _ => None,
        }
    }

    /// The position of the last entry for a block, with what it says.
    fn find_block_index(&self, block_id: &BlockId) -> (r: Option<(usize, BlockRecord)>)
        requires
            self.wf(),
        ensures
            match r {
                Some((i, x)) => is_last_of(self.items(), block_id@, i as int) && entry_at(
                    self.items()[i as int],
                ) == Some(x@),
                None => !has_block(self.items(), block_id@),
            },
    {
        proof {
            lemma_meta_list();
        }
        let ghost items = self.items();
        let mut i: usize = movable_len(&self.doc, META_LIST);
        while i > 0
            invariant
                i <= items.len(),
                items == self.items(),
                self.wf(),
                forall|j: int| i <= j < items.len() ==> !names_block(#[trigger] items[j], block_id@),
            decreases i,
        {
            i = i - 1;
            if let Some(record) = self.entry(i) {
                if record.block_id.same(block_id) {
                    return Some((i, record));
                }
            }
        }
        None
    }

    /// Up to where the list has come.
    pub fn frontier(&self) -> (r: CoreResult<Frontier>)
        ensures
            r is Ok,
            r->Ok_0.wf(),
            r->Ok_0@ == frontier_of(doc_version(self.doc())),
            names_ops(self.doc()),
    {
        frontiers_to_frontier(&state_frontiers(&self.doc))
    }

    /// Ends the group of changes under way: all changes that were made are recorded, and the list
    /// holds what it held.
    pub fn commit(&mut self)
        ensures
            doc_committed(final(self).doc()),
            old(self).wf() ==> final(self).wf(),
            final(self).id() == old(self).id(),
            final(self).items() == old(self).items(),
            doc_version(final(self).doc()) == doc_version(old(self).doc()),
            same_history(final(self).doc(), old(self).doc()),
            doc_peer(final(self).doc()) == doc_peer(old(self).doc()),
    {
        commit_doc(&mut self.doc);
    }

    /// Adds an entry for a block at the end, made at `now`.
    pub fn add_block_at(&mut self, block_id: BlockId, kind: BlockKind, now: i64) -> (r: CoreResult<
        (),
    >)
        requires
            old(self).wf(),
        ensures
            final(self).wf(),
            final(self).id() == old(self).id(),
            grew(old(self).doc(), final(self).doc()),
            doc_peer(final(self).doc()) == doc_peer(old(self).doc()),
            match r {
                Ok(_) => now >= 0 && final(self).items() == old(self).items().push(
                    Some(record_text(new_entry(block_id@, kind, now))),
                ),
                Err(e) => now < 0 && is_serialize_error(e, before_epoch_text())
                    && final(self).items() == old(self).items(),
            },
    {
        proof {
            lemma_meta_list();
        }
        let record = BlockRecord { block_id, kind, deleted: false, updated_at: now };
        let json = match record_json(&record) {
            Ok(json) => json,
            Err(e) => {
                return Err(e);
            },
        };
        let pos = movable_len(&self.doc, META_LIST);
        let ghost before = self.items();
        match movable_insert(&mut self.doc, META_LIST, pos, json.as_str()) {
            Ok(_) => {},
            Err(e) => {
                return Err(crdt_error("MetaDoc 插入失败: ", e.as_str()));
            },
        }
        assert(before.insert(pos as int, Some(json@)) =~= before.push(Some(json@)));
        commit_doc(&mut self.doc);
        Ok(())
    }

    /// Adds an entry for a block at the end, made now.
    pub fn add_block(&mut self, block_id: BlockId, kind: BlockKind) -> (r: CoreResult<()>)
        requires
            old(self).wf(),
        ensures
            final(self).wf(),
            final(self).id() == old(self).id(),
            grew(old(self).doc(), final(self).doc()),
            doc_peer(final(self).doc()) == doc_peer(old(self).doc()),
            match r {
                Ok(_) => exists|now: i64| #[trigger]
                    wall_told(now) && now >= 0 && final(self).items() == old(self).items().push(
                        Some(record_text(new_entry(block_id@, kind, now))),
                    ),
                Err(e) => {
                    &&& exists|now: i64| #[trigger] wall_told(now) && now < 0
                    &&& is_serialize_error(e, before_epoch_text())
                    &&& final(self).items() == old(self).items()
                },
            },
    {
        let now = wall_millis();
        let ghost id = block_id@;
        let r = self.add_block_at(block_id, kind, now);
        proof {
            if r is Ok {
                assert(now >= 0 && self.items() == old(self).items().push(
                    Some(record_text(new_entry(id, kind, now))),
                ));
            }
        }
        r
    }

    /// Marks the last entry for a block as deleted at `now`.
    pub fn soft_delete_at(&mut self, block_id: &BlockId, now: i64) -> (r: CoreResult<()>)
        requires
            old(self).wf(),
        ensures
            final(self).wf(),
            final(self).id() == old(self).id(),
            grew(old(self).doc(), final(self).doc()),
            doc_peer(final(self).doc()) == doc_peer(old(self).doc()),
            match r {
                Ok(_) => {
                    let i = last_of(old(self).items(), block_id@);
                    &&& has_block(old(self).items(), block_id@)
                    &&& now >= 0
                    &&& is_last_of(old(self).items(), block_id@, i)
                    &&& final(self).items() == old(self).items().update(
                        i,
                        Some(
                            record_text(
                                deleted_entry(entry_at(old(self).items()[i])->Some_0, now),
                            ),
                        ),
                    )
                },
                Err(e) => {
                    &&& final(self).items() == old(self).items()
                    &&& if has_block(old(self).items(), block_id@) {
                        now < 0 && is_serialize_error(e, before_epoch_text())
                    } else {
                        is_missing_block(e, old(self).id(), block_id@)
                    }
                },
            },
    {
        proof {
            lemma_meta_list();
        }
        match self.find_block_index(block_id) {
            None => Err(
                CoreError::BlockNotFound {
                    doc_id: self.doc_id.0.clone(),
                    block_id: block_id.0.clone(),
                },
            ),
            Some((i, mut record)) => {
                proof {
                    lemma_last_of(self.items(), block_id@, i as int);
                }
                record.deleted = true;
                record.updated_at = now;
                let json = match record_json(&record) {
                    Ok(json) => json,
                    Err(e) => {
                        return Err(e);
                    },
                };
                match movable_set(&mut self.doc, META_LIST, i, json.as_str()) {
                    Ok(_) => {},
                    Err(e) => {
                        return Err(crdt_error("MetaDoc 更新失败: ", e.as_str()));
                    },
                }
                commit_doc(&mut self.doc);
                Ok(())
            },
        }
    }

    /// Marks the last entry for a block as deleted now.
    pub fn soft_delete(&mut self, block_id: &BlockId) -> (r: CoreResult<()>)
        requires
            old(self).wf(),
        ensures
            final(self).wf(),
            final(self).id() == old(self).id(),
            grew(old(self).doc(), final(self).doc()),
            doc_peer(final(self).doc()) == doc_peer(old(self).doc()),
            match r {
                Ok(_) => {
                    let i = last_of(old(self).items(), block_id@);
                    &&& has_block(old(self).items(), block_id@)
                    &&& is_last_of(old(self).items(), block_id@, i)
                    &&& exists|now: i64| #[trigger]
                        wall_told(now) && now >= 0 && final(self).items()
                            == old(self).items().update(
                            i,
                            Some(
                                record_text(
                                    deleted_entry(entry_at(old(self).items()[i])->Some_0, now),
                                ),
                            ),
                        )
                },
                Err(e) => {
                    &&& final(self).items() == old(self).items()
                    &&& if has_block(old(self).items(), block_id@) {
                        &&& exists|now: i64| #[trigger] wall_told(now) && now < 0
                        &&& is_serialize_error(e, before_epoch_text())
                    } else {
                        is_missing_block(e, old(self).id(), block_id@)
                    }
                },
            },
    {
        let now = wall_millis();
        let r = self.soft_delete_at(block_id, now);
        proof {
            if r is Ok {
                let i = last_of(old(self).items(), block_id@);
                assert(now >= 0 && self.items() == old(self).items().update(
                    i,
                    Some(record_text(deleted_entry(entry_at(old(self).items()[i])->Some_0, now))),
                ));
            }
        }
        r
    }

    /// Takes the last entry for a block out of the list.
    pub fn remove_block(&mut self, block_id: &BlockId) -> (r: CoreResult<()>)
        requires
            old(self).wf(),
        ensures
            final(self).wf(),
            final(self).id() == old(self).id(),
            grew(old(self).doc(), final(self).doc()),
            doc_peer(final(self).doc()) == doc_peer(old(self).doc()),
            match r {
                Ok(_) => {
                    let i = last_of(old(self).items(), block_id@);
                    &&& has_block(old(self).items(), block_id@)
                    &&& is_last_of(old(self).items(), block_id@, i)
                    &&& final(self).items() == old(self).items().remove(i)
                },
                Err(e) => {
                    &&& final(self).items() == old(self).items()
                    &&& !has_block(old(self).items(), block_id@)
                    &&& is_missing_block(e, old(self).id(), block_id@)
                },
            },
    {
        proof {
            lemma_meta_list();
        }
        match self.find_block_index(block_id) {
            None => Err(
                CoreError::BlockNotFound {
                    doc_id: self.doc_id.0.clone(),
                    block_id: block_id.0.clone(),
                },
            ),
            Some((i, _)) => {
                proof {
                    lemma_last_of(self.items(), block_id@, i as int);
                }
                match movable_delete(&mut self.doc, META_LIST, i) {
                    Ok(_) => {},
                    Err(e) => {
                        return Err(crdt_error("MetaDoc 删除失败: ", e.as_str()));
                    },
                }
                commit_doc(&mut self.doc);
                Ok(())
            },
        }
    }

    /// The positions of the entries that are not deleted.
    fn active_positions(&self) -> (r: Vec<usize>)
        requires
            self.wf(),
        ensures
            r@.len() == active_of(self.items()).len(),
            forall|k: int| 0 <= k < r@.len() ==> is_active_at(self.items(), k, #[trigger] r@[k] as int),
    {
        proof {
            lemma_meta_list();
        }
        let len = movable_len(&self.doc, META_LIST);
        let ghost items = self.items();
        let mut out: Vec<usize> = Vec::new();
        let mut i: usize = 0;
        proof {
            assert(items.take(0) =~= Seq::<Option<Seq<char>>>::empty());
            lemma_active_empty();
        }
        while i < len
            invariant
                i <= len,
                len == items.len(),
                items == self.items(),
                self.wf(),
                out@.len() == active_of(items.take(i as int)).len(),
                forall|k: int| 0 <= k < out@.len() ==> is_active_at(items, k, #[trigger] out@[k] as int),
            decreases len - i,
        {
            let found = self.entry(i);
            proof {
                assert(items.take(i + 1) =~= items.take(i as int) + seq![items[i as int]]);
                lemma_active_of_add(items.take(i as int), seq![items[i as int]]);
                lemma_active_of_one(items[i as int]);
            }
            if let Some(record) = found {
                if !record.deleted {
                    out.push(i);
                }
            }
            i = i + 1;
        }
        assert(items.take(i as int) =~= items);
        out
    }

    /// Moves an entry among those that are not deleted: the one at `from` is at `to` afterwards.
    /// The positions count in the list of active blocks.
    pub fn move_block(&mut self, from: usize, to: usize) -> (r: CoreResult<()>)
        requires
            old(self).wf(),
        ensures
            final(self).wf(),
            final(self).id() == old(self).id(),
            grew(old(self).doc(), final(self).doc()),
            doc_peer(final(self).doc()) == doc_peer(old(self).doc()),
            match r {
                Ok(_) => {
                    &&& from < active_of(old(self).items()).len()
                    &&& to < active_of(old(self).items()).len()
                    &&& active_of(final(self).items()) == moved(
                        active_of(old(self).items()),
                        from as int,
                        to as int,
                    )
                    &&& exists|p: int, q: int|
                        is_active_at(old(self).items(), from as int, p) && is_active_at(
                            old(self).items(),
                            to as int,
                            q,
                        ) && final(self).items() == #[trigger] moved(old(self).items(), p, q)
                },
                Err(e) => {
                    &&& final(self).items() == old(self).items()
                    &&& if from >= active_of(old(self).items()).len() {
                        is_missing_block(e, old(self).id(), "index="@ + decimal(from as nat))
                    } else {
                        to >= active_of(old(self).items()).len() && is_frontier_error(
                            e,
                            beyond_text(to as nat, active_of(old(self).items()).len()),
                        )
                    }
                },
            },
    {
        proof {
            lemma_meta_list();
        }
        let positions = self.active_positions();
        let len = positions.len();
        if from >= len {
            let mut text = "index=".to_owned();
            push_decimal(&mut text, from as u64);
            return Err(
                CoreError::BlockNotFound { doc_id: self.doc_id.0.clone(), block_id: text },
            );
        }
        if to >= len {
            let mut text = "目标位置越界: to=".to_owned();
            push_decimal(&mut text, to as u64);
            text.append(", len=");
            push_decimal(&mut text, len as u64);
            return Err(CoreError::InvalidFrontier(text));
        }
        let p: usize = positions[from];
        let q: usize = positions[to];
        proof {
            law_move_orders_active_blocks(self.items(), from as int, to as int, p as int, q as int);
        }
        if from == to {
            proof {
                lemma_active_at_is_one(self.items(), from as int, p as int, q as int);
                assert(moved(self.items(), p as int, q as int) =~= self.items());
            }
            return Ok(());
        }
        match movable_move(&mut self.doc, META_LIST, p, q) {
            Ok(_) => {},
            Err(e) => {
                return Err(crdt_error("MetaDoc move 失败: ", e.as_str()));
            },
        }
        commit_doc(&mut self.doc);
        assert(self.items() == moved(old(self).items(), p as int, q as int));
        Ok(())
    }

    /// What the entries say, the deleted ones among them.
    pub fn list_blocks(&self) -> (r: CoreResult<Vec<BlockRecord>>)
        requires
            self.wf(),
        ensures
            r is Ok,
            record_views(r->Ok_0@) == readable(self.items()),
            reads_back(self.items()),
    {
        proof {
            lemma_meta_list();
        }
        let len = movable_len(&self.doc, META_LIST);
        let ghost items = self.items();
        let mut out: Vec<BlockRecord> = Vec::new();
        let mut i: usize = 0;
        assert(items.take(0) =~= Seq::<Option<Seq<char>>>::empty());
        assert(record_views(out@) =~= Seq::<RecordView>::empty());
        while i < len
            invariant
                i <= len,
                len == items.len(),
                items == self.items(),
                self.wf(),
                record_views(out@) == readable(items.take(i as int)),
                reads_back(items.take(i as int)),
            decreases len - i,
        {
            let ghost before = out@;
            let found = self.entry(i);
            proof {
                let more = items.take(i + 1);
                assert(more.drop_last() =~= items.take(i as int));
                assert(more.last() == items[i as int]);
                assert forall|j: int, v: RecordView|
                    0 <= j < more.len() && #[trigger] more[j] == Some(#[trigger] record_text(v))
                        && v.updated_at >= 0 implies entry_at(more[j]) == Some(v) by {
                    if j < i {
                        assert(items.take(i as int)[j] == more[j]);
                    }
                }
            }
            if let Some(record) = found {
                out.push(record);
                assert(record_views(out@) =~= record_views(before).push(record@));
            }
            i = i + 1;
        }
        assert(items.take(i as int) =~= items);
        Ok(out)
    }

    /// What the entries say that are not deleted.
    pub fn list_active_blocks(&self) -> (r: CoreResult<Vec<BlockRecord>>)
        requires
            self.wf(),
        ensures
            r is Ok,
            record_views(r->Ok_0@) == active_of(self.items()),
            reads_back(self.items()),
    {
        let all = match self.list_blocks() {
            Ok(all) => all,
            Err(e) => {
                return Err(e);
            },
        };
        let ghost views = record_views(all@);
        let mut out: Vec<BlockRecord> = Vec::new();
        let mut i: usize = 0;
        proof {
            assert(views.take(0) =~= Seq::<RecordView>::empty());
            lemma_active_empty();
            assert(record_views(out@) =~= Seq::<RecordView>::empty());
        }
        while i < all.len()
            invariant
                i <= all@.len(),
                views == record_views(all@),
                record_views(out@) == active(views.take(i as int)),
            decreases all@.len() - i,
        {
            let ghost before = out@;
            proof {
                assert(views.take(i + 1) =~= views.take(i as int).push(views[i as int]));
                lemma_active_push(views.take(i as int), views[i as int]);
            }
            if !all[i].deleted {
                out.push(all[i].clone());
                assert(record_views(out@) =~= record_views(before).push(views[i as int]));
            }
            i = i + 1;
        }
        assert(views.take(i as int) =~= views);
        Ok(out)
    }

    /// The whole list with its history.
    pub fn export_snapshot(&self) -> (r: CoreResult<Vec<u8>>)
        requires
            self.wf(),
        ensures
            match r {
                Ok(bytes) => granted(LoroExport::Snapshot, self.doc()) && exported(
                    LoroExport::Snapshot,
                    self.doc(),
                    bytes@,
                ),
                Err(e) => !granted(LoroExport::Snapshot, self.doc()) && is_export_error(e),
            },
    {
        LoroExport::Snapshot.export(&self.doc)
    }

    /// The changes beyond a frontier.
    pub fn export_delta_since(&self, since: &Frontier) -> (r: CoreResult<Vec<u8>>)
        requires
            self.wf(),
        ensures
            match r {
                Ok(bytes) => {
                    &&& export_fault(LoroExport::UpdatesSince(since)) is None
                    &&& granted(LoroExport::UpdatesSince(since), self.doc())
                    &&& exported(LoroExport::UpdatesSince(since), self.doc(), bytes@)
                },
                Err(e) => match export_fault(LoroExport::UpdatesSince(since)) {
                    Some(f) => is_frontier_error(e, f),
                    None => !granted(LoroExport::UpdatesSince(since), self.doc()) && is_export_error(e),
                },
            },
    {
        LoroExport::UpdatesSince(since).export(&self.doc)
    }

    /// Takes in what another replica exported. What was taken in before changes nothing.
    pub fn import(&mut self, bytes: &[u8]) -> (r: CoreResult<ImportResult>)
        requires
            old(self).wf(),
            bytes_sound(bytes@),
        ensures
            list_answers_import(*old(self), bytes@, *final(self), r),
    {
        let before = match self.frontier() {
            Ok(f) => f,
            Err(e) => {
                return Err(e);
            },
        };
        match import_into(&mut self.doc, bytes) {
            Ok(_) => {},
            Err(e) => {
                return Err(crdt_error("MetaDoc 导入失败: ", e.as_str()));
            },
        }
        let new_frontier = match self.frontier() {
            Ok(f) => f,
            Err(e) => {
                return Err(e);
            },
        };
        let changed = !new_frontier.same(&before);
        Ok(ImportResult { new_frontier, changed })
    }

    /// Another replica of the list, whose further changes are made in the name of `peer_id`.
    pub fn replica(&self, peer_id: &PeerId) -> (r: CoreResult<Self>)
        requires
            self.wf(),
        ensures
            match r {
                Ok(m) => {
                    &&& m.wf()
                    &&& m.id() == self.id()
                    &&& granted(LoroExport::Snapshot, self.doc())
                    &&& m.items() == self.items()
                    &&& doc_version(m.doc()) == doc_version(self.doc())
                    &&& doc_ops(m.doc()) == doc_ops(self.doc())
                    &&& settled(m.doc())
                    &&& doc_whole(m.doc()) == doc_whole(self.doc())
                    &&& peer_number(peer_id@) == Some(doc_peer(m.doc()))
                    &&& doc_peer(m.doc()) != u64::MAX
                },
                Err(e) => if !granted(LoroExport::Snapshot, self.doc()) {
                    is_export_error(e)
                } else {
                    match peer_number(peer_id@) {
                        None => is_frontier_error(e, bad_peer_text(peer_id@)),
                        Some(n) => n == u64::MAX && is_crdt_error(e, "设置 PeerID 失败: "@),
                    }
                },
            },
    {
        match self.export_snapshot() {
            Ok(bytes) => MetaDoc::from_snapshot(self.doc_id.clone(), peer_id, bytes.as_slice()),
            Err(e) => Err(e),
        }
    }

    /// Takes in the changes of another replica that this one, by its frontier, does not know.
    pub fn pull_from(&mut self, other: &MetaDoc) -> (r: CoreResult<ImportResult>)
        requires
            old(self).wf(),
            other.wf(),
        ensures
            final(self).wf(),
            exists|since: Frontier|
                since.wf() && since@ == frontier_of(doc_version(old(self).doc()))
                    && #[trigger] list_answers_pull(*old(self), *other, since, *final(self), r),
    {
        let since = match self.frontier() {
            Ok(f) => f,
            Err(e) => {
                return Err(e);
            },
        };
        let bytes = match other.export_delta_since(&since) {
            Ok(bytes) => bytes,
            Err(e) => {
                assert(list_answers_pull(*old(self), *other, since, *self, Err(e)));
                return Err(e);
            },
        };
        let r = self.import(bytes.as_slice());
        assert(exported(LoroExport::UpdatesSince(&since), other.doc(), bytes@));
        assert(list_answers_pull(*old(self), *other, since, *self, r));
        r
    }
}

/// Whether a list answers `r` to bytes that it was given to import, and is then `after`.
pub open spec fn list_answers_import(
    before: MetaDoc,
    bytes: Seq<u8>,
    after: MetaDoc,
    r: CoreResult<ImportResult>,
) -> bool {
    &&& after.wf()
    &&& after.id() == before.id()
    &&& doc_peer(after.doc()) == doc_peer(before.doc())
    &&& after.items() == imported_root(before.doc(), bytes, meta_list()).movable
    &&& doc_version(after.doc()) == imported_version(before.doc(), bytes)
    &&& doc_has(before.doc(), bytes) && prompt(before.doc()) ==> after.items() == before.items()
    &&& doc_pristine(before.doc()) && is_snapshot(bytes) ==> r is Ok
    &&& doc_pristine(before.doc()) && is_snapshot(bytes) && snapshot_whole(bytes) ==> {
        &&& after.items() == snapshot_root(bytes, meta_list()).movable
        &&& doc_version(after.doc()) == snapshot_version(bytes)
        &&& doc_ops(after.doc()) == snapshot_ops(bytes)
        &&& doc_whole(after.doc())
        &&& settled(after.doc())
    }
    &&& match r {
        Ok(res) => {
            &&& import_accepted(before.doc(), bytes)
            &&& res.new_frontier.wf()
            &&& res.new_frontier@ == frontier_of(doc_version(after.doc()))
            &&& res.changed == (res.new_frontier@ != frontier_of(doc_version(before.doc())))
            &&& takes_in(before.doc(), after.doc(), bytes)
            &&& doc_has(after.doc(), bytes)
            &&& doc_has(before.doc(), bytes) && prompt(before.doc()) ==> !res.changed
        },
        Err(e) => !import_accepted(before.doc(), bytes) && is_crdt_error(
            e,
            "MetaDoc 导入失败: "@,
        ),
    }
}

/// Whether a list answers `r` when it takes in the changes of `other` beyond `since`, and is then
/// `after`.
pub open spec fn list_answers_pull(
    before: MetaDoc,
    other: MetaDoc,
    since: Frontier,
    after: MetaDoc,
    r: CoreResult<ImportResult>,
) -> bool {
    match export_fault(LoroExport::UpdatesSince(&since)) {
        Some(f) => r is Err && is_frontier_error(r->Err_0, f) && after == before,
        None => if granted(LoroExport::UpdatesSince(&since), other.doc()) {
            exists|bytes: Seq<u8>| #[trigger]
                exported(LoroExport::UpdatesSince(&since), other.doc(), bytes)
                    && list_answers_import(before, bytes, after, r)
        } else {
            r is Err && is_export_error(r->Err_0) && after == before
        },
    }
}

proof fn lemma_last_of(items: Seq<Option<Seq<char>>>, id: Seq<char>, i: int)
    requires
        is_last_of(items, id, i),
    ensures
        has_block(items, id),
        last_of(items, id) == i,
{
    let j = last_of(items, id);
    assert(is_last_of(items, id, j));
    assert(names_block(items[i], id) && names_block(items[j], id));
}

proof fn lemma_active_empty()
    ensures
        active(Seq::<RecordView>::empty()) == Seq::<RecordView>::empty(),
{
    reveal(Seq::filter);
}

proof fn lemma_active_push(s: Seq<RecordView>, r: RecordView)
    ensures
        active(s.push(r)) == (if r.deleted {
            active(s)
        } else {
            active(s).push(r)
        }),
{
    reveal(Seq::filter);
    assert(s.push(r).drop_last() =~= s);
}

proof fn lemma_readable_add(a: Seq<Option<Seq<char>>>, b: Seq<Option<Seq<char>>>)
    ensures
        readable(a + b) == readable(a) + readable(b),
    decreases b.len(),
{
    if b.len() == 0 {
        assert(a + b =~= a);
        assert(readable(a) + readable(b) =~= readable(a));
    } else {
        let c = a + b;
        assert(c.drop_last() =~= a + b.drop_last());
        assert(c.last() == b.last());
        lemma_readable_add(a, b.drop_last());
        match entry_at(b.last()) {
            Some(r) => {
                assert(readable(c) =~= readable(a) + readable(b));
            },
            None => {},
        }
    }
}

proof fn lemma_readable_one(item: Option<Seq<char>>)
    ensures
        readable(seq![item]) == (match entry_at(item) {
            Some(r) => seq![r],
            None => Seq::empty(),
        }),
{
    let s = seq![item];
    assert(s.drop_last() =~= Seq::<Option<Seq<char>>>::empty());
    assert(readable(s.drop_last()) =~= Seq::<RecordView>::empty());
    match entry_at(item) {
        Some(r) => {
            assert(readable(s) =~= seq![r]);
        },
        None => {},
    }
}

proof fn lemma_active_add(a: Seq<RecordView>, b: Seq<RecordView>)
    ensures
        active(a + b) == active(a) + active(b),
    decreases b.len(),
{
    if b.len() == 0 {
        lemma_active_empty();
        assert(b =~= Seq::<RecordView>::empty());
        assert(a + b =~= a);
        assert(active(a) + active(b) =~= active(a));
    } else {
        let front = b.drop_last();
        lemma_active_add(a, front);
        assert(a + b =~= (a + front).push(b.last()));
        assert(b =~= front.push(b.last()));
        lemma_active_push(a + front, b.last());
        lemma_active_push(front, b.last());
        assert(active(a + b) =~= active(a) + active(b));
    }
}

proof fn lemma_active_of_add(a: Seq<Option<Seq<char>>>, b: Seq<Option<Seq<char>>>)
    ensures
        active_of(a + b) == active_of(a) + active_of(b),
{
    lemma_readable_add(a, b);
    lemma_active_add(readable(a), readable(b));
}

proof fn lemma_active_of_one(item: Option<Seq<char>>)
    ensures
        active_of(seq![item]) == (match entry_at(item) {
            Some(r) => if r.deleted {
                Seq::empty()
            } else {
                seq![r]
            },
            None => Seq::empty(),
        }),
{
    lemma_readable_one(item);
    lemma_active_empty();
    match entry_at(item) {
        Some(r) => {
            lemma_active_push(Seq::empty(), r);
            assert(seq![r] =~= Seq::<RecordView>::empty().push(r));
        },
        None => {},
    }
}

proof fn lemma_parts(
    a: Seq<Option<Seq<char>>>,
    b: Seq<Option<Seq<char>>>,
    c: Seq<Option<Seq<char>>>,
)
    ensures
        active_of(a + b + c) == active_of(a) + active_of(b) + active_of(c),
{
    lemma_active_of_add(a, b);
    lemma_active_of_add(a + b, c);
}

proof fn lemma_active_at_is_one(items: Seq<Option<Seq<char>>>, k: int, p: int, q: int)
    requires
        is_active_at(items, k, p),
        is_active_at(items, k, q),
    ensures
        p == q,
{
    if p < q {
        lemma_active_before(items, p, q);
    } else if q < p {
        lemma_active_before(items, q, p);
    }
}

proof fn lemma_active_before(items: Seq<Option<Seq<char>>>, p: int, q: int)
    requires
        0 <= p < q < items.len(),
        entry_at(items[p]) is Some,
        !entry_at(items[p])->Some_0.deleted,
    ensures
        active_of(items.take(p)).len() < active_of(items.take(q)).len(),
{
    let b = items.subrange(p + 1, q);
    assert(items.take(q) =~= items.take(p) + seq![items[p]] + b);
    lemma_parts(items.take(p), seq![items[p]], b);
    lemma_active_of_one(items[p]);
}

/// A block that was added is the last one listed, and the others are listed as before.
pub proof fn law_added_block_is_listed(items: Seq<Option<Seq<char>>>, record: RecordView)
    requires
        record.updated_at >= 0,
        reads_back(items.push(Some(record_text(record)))),
    ensures
        readable(items.push(Some(record_text(record)))) == readable(items).push(record),
{
    let more = items.push(Some(record_text(record)));
    assert(more.drop_last() =~= items);
    assert(more[items.len() as int] == Some(record_text(record)));
    assert(entry_at(more.last()) == Some(record));
}

/// A block that was deleted stays listed, marked as deleted, and is the only one to leave the
/// active ones.
pub proof fn law_deleted_block_is_hidden(items: Seq<Option<Seq<char>>>, i: int, now: i64)
    requires
        0 <= i < items.len(),
        entry_at(items[i]) is Some,
        now >= 0,
        reads_back(
            items.update(i, Some(record_text(deleted_entry(entry_at(items[i])->Some_0, now)))),
        ),
    ensures
        ({
            let record = entry_at(items[i])->Some_0;
            let after = items.update(i, Some(record_text(deleted_entry(record, now))));
            &&& readable(items) == readable(items.take(i)) + seq![record] + readable(
                items.skip(i + 1),
            )
            &&& readable(after) == readable(items.take(i)) + seq![deleted_entry(record, now)]
                + readable(items.skip(i + 1))
            &&& active(readable(after)) == active(readable(items.take(i))) + active(
                readable(items.skip(i + 1)),
            )
        }),
{
    let record = entry_at(items[i])->Some_0;
    let gone = deleted_entry(record, now);
    let after = items.update(i, Some(record_text(gone)));
    assert(after[i] == Some(record_text(gone)));
    assert(entry_at(after[i]) == Some(gone));
    let front = items.take(i);
    let back = items.skip(i + 1);
    assert(items =~= front + seq![items[i]] + back);
    assert(after =~= front + seq![after[i]] + back);
    lemma_readable_one(items[i]);
    lemma_readable_one(after[i]);
    lemma_readable_add(front, seq![items[i]]);
    lemma_readable_add(front + seq![items[i]], back);
    lemma_readable_add(front, seq![after[i]]);
    lemma_readable_add(front + seq![after[i]], back);
    lemma_active_add(readable(front) + seq![gone], readable(back));
    assert(readable(front) + seq![gone] =~= readable(front).push(gone));
    lemma_active_push(readable(front), gone);
}

/// Moving an entry moves it among the active ones, from and to where the positions count in the
/// list of active blocks. All entries are kept, the deleted ones too.
#[verifier::rlimit(40)]
pub proof fn law_move_orders_active_blocks(
    items: Seq<Option<Seq<char>>>,
    from: int,
    to: int,
    p: int,
    q: int,
)
    requires
        is_active_at(items, from, p),
        is_active_at(items, to, q),
    ensures
        0 <= from < active_of(items).len(),
        0 <= to < active_of(items).len(),
        active_of(moved(items, p, q)) == moved(active_of(items), from, to),
        moved(items, p, q).to_multiset() == items.to_multiset(),
{
    let x = items[p];
    let y = items[q];
    lemma_active_of_one(x);
    lemma_active_of_one(y);
    if p == q {
        lemma_parts(items.take(p), seq![x], items.skip(p + 1));
        assert(items =~= items.take(p) + seq![x] + items.skip(p + 1));
        assert(from == to);
        assert(moved(items, p, q) =~= items);
        assert(moved(active_of(items), from, to) =~= active_of(items));
    } else if p < q {
        let a = items.take(p);
        let b = items.subrange(p + 1, q);
        let c = items.skip(q + 1);
        assert(items =~= a + seq![x] + b + seq![y] + c);
        assert(moved(items, p, q) =~= a + b + seq![y] + seq![x] + c);
        assert(items.take(q) =~= a + seq![x] + b);
        lemma_parts(a, seq![x], b);
        lemma_parts(a + seq![x] + b, seq![y], c);
        lemma_parts(a, b, seq![y]);
        lemma_parts(a + b + seq![y], seq![x], c);
        assert(active_of(moved(items, p, q)) =~= moved(active_of(items), from, to));
    } else {
        let a = items.take(q);
        let b = items.subrange(q + 1, p);
        let c = items.skip(p + 1);
        assert(items =~= a + seq![y] + b + seq![x] + c);
        assert(moved(items, p, q) =~= a + seq![x] + seq![y] + b + c);
        assert(items.take(p) =~= a + seq![y] + b);
        lemma_parts(a, seq![y], b);
        lemma_parts(a + seq![y] + b, seq![x], c);
        lemma_parts(a, seq![x], seq![y]);
        lemma_parts(a + seq![x] + seq![y], b, c);
        assert(active_of(moved(items, p, q)) =~= moved(active_of(items), from, to));
    }
    lemma_move_keeps_entries(items, p, q);
}

proof fn lemma_move_keeps_entries(items: Seq<Option<Seq<char>>>, p: int, q: int)
    requires
        0 <= p < items.len(),
        0 <= q < items.len(),
    ensures
        moved(items, p, q).to_multiset() == items.to_multiset(),
{
    broadcast use vstd::seq_lib::group_to_multiset_ensures;

    let rest = items.remove(p);
    assert(rest.insert(q, items[p]).to_multiset() =~= rest.to_multiset().insert(items[p]));
    assert(items.to_multiset() =~= rest.to_multiset().insert(items[p]));
}

/// A list made from a snapshot of a list has the same entries and has come as far. So has a new
/// one that takes the snapshot in, where it has the whole history.
pub proof fn law_snapshot_restores_list(list: MetaDoc, bytes: Seq<u8>)
    requires
        list.wf(),
        exported(LoroExport::Snapshot, list.doc(), bytes),
    ensures
        is_snapshot(bytes),
        snapshot_root(bytes, meta_list()).movable == list.items(),
        snapshot_version(bytes) == doc_version(list.doc()),
        snapshot_ops(bytes) == doc_ops(list.doc()),
        snapshot_whole(bytes) == doc_whole(list.doc()),
        bytes_sound(bytes),
{
}

/// Two lists that were changed apart from each other, and take in each other's changes, have the
/// same entries, and have come equally far.
pub proof fn law_lists_converge(
    a: MetaDoc,
    a_since: &Frontier,
    a_bytes: Seq<u8>,
    a_after: MetaDoc,
    b: MetaDoc,
    b_since: &Frontier,
    b_bytes: Seq<u8>,
    b_after: MetaDoc,
)
    requires
        a.wf(),
        b.wf(),
        a_after.wf(),
        b_after.wf(),
        exported(LoroExport::UpdatesSince(a_since), a.doc(), a_bytes),
        exported(LoroExport::UpdatesSince(b_since), b.doc(), b_bytes),
        awaits(a.doc(), b.doc(), b_since),
        awaits(b.doc(), a.doc(), a_since),
        takes_in(a.doc(), a_after.doc(), b_bytes),
        takes_in(b.doc(), b_after.doc(), a_bytes),
    ensures
        a_after.items() == b_after.items(),
        doc_version(a_after.doc()) == doc_version(b_after.doc()),
        doc_given(a_after.doc()) == doc_ops(a.doc()).union(doc_ops(b.doc())),
{
    law_changes_are_added(b.doc(), b_since, b_bytes, a.doc(), a_after.doc());
    law_changes_are_added(a.doc(), a_since, a_bytes, b.doc(), b_after.doc());
    assert(doc_given(a_after.doc()) =~= doc_given(b_after.doc()));
}

/// A block that was added is listed behind all that were listed before, with its kind, not deleted, and
/// with the time at which it was added.
pub proof fn law_added_block_is_listed_last(
    list: &mut MetaDoc,
    block_id: BlockId,
    kind: BlockKind,
    now: i64,
    r: CoreResult<()>,
    before: CoreResult<Vec<BlockRecord>>,
    after: CoreResult<Vec<BlockRecord>>,
)
    requires
        call_ensures(MetaDoc::add_block_at, (list, block_id, kind, now), r),
        call_ensures(MetaDoc::list_blocks, (&*old(list),), before),
        call_ensures(MetaDoc::list_blocks, (&*final(list),), after),
    ensures
        before is Ok,
        after is Ok,
        r is Ok <==> now >= 0,
        r is Err ==> record_views(after->Ok_0@) == record_views(before->Ok_0@),
        r is Ok ==> {
            let was = record_views(before->Ok_0@);
            let now_listed = record_views(after->Ok_0@);
            &&& now_listed.len() == was.len() + 1
            &&& now_listed.drop_last() == was
            &&& now_listed.last().block_id == block_id@
            &&& now_listed.last().kind == kind
            &&& !now_listed.last().deleted
            &&& now_listed.last().updated_at == now
        },
{
    if r is Ok {
        law_added_block_is_listed(old(list).items(), new_entry(block_id@, kind, now));
        let now_listed = record_views(after->Ok_0@);
        assert(now_listed.drop_last() =~= readable(old(list).items()));
    }
}

/// A block that is added now is listed last too, as of a time that the clock told.
pub proof fn law_block_added_now_is_listed_last(
    list: &mut MetaDoc,
    block_id: BlockId,
    kind: BlockKind,
    r: CoreResult<()>,
    before: CoreResult<Vec<BlockRecord>>,
    after: CoreResult<Vec<BlockRecord>>,
)
    requires
        call_ensures(MetaDoc::add_block, (list, block_id, kind), r),
        r is Ok,
        call_ensures(MetaDoc::list_blocks, (&*old(list),), before),
        call_ensures(MetaDoc::list_blocks, (&*final(list),), after),
    ensures
        before is Ok,
        after is Ok,
        ({
            let was = record_views(before->Ok_0@);
            let now_listed = record_views(after->Ok_0@);
            &&& now_listed.len() == was.len() + 1
            &&& now_listed.drop_last() == was
            &&& now_listed.last().block_id == block_id@
            &&& now_listed.last().kind == kind
            &&& !now_listed.last().deleted
            &&& wall_told(now_listed.last().updated_at)
        }),
{
    let now = choose|now: i64| #[trigger]
        wall_told(now) && now >= 0 && final(list).items() == old(list).items().push(
            Some(record_text(new_entry(block_id@, kind, now))),
        );
    law_added_block_is_listed(old(list).items(), new_entry(block_id@, kind, now));
    let now_listed = record_views(after->Ok_0@);
    assert(now_listed.drop_last() =~= readable(old(list).items()));
}

/// The active blocks are those of the listed ones that are not deleted, in the same order.
pub proof fn law_active_blocks_are_not_deleted(
    list: &MetaDoc,
    all: CoreResult<Vec<BlockRecord>>,
    active: CoreResult<Vec<BlockRecord>>,
)
    requires
        call_ensures(MetaDoc::list_blocks, (list,), all),
        call_ensures(MetaDoc::list_active_blocks, (list,), active),
    ensures
        all is Ok,
        active is Ok,
        record_views(active->Ok_0@) == record_views(all->Ok_0@).filter(
            |r: RecordView| r.deleted == false,
        ),
{
    assert((|r: RecordView| r.deleted == false) =~= (|r: RecordView| !r.deleted));
}

proof fn lemma_readable_parts(items: Seq<Option<Seq<char>>>, i: int)
    requires
        0 <= i < items.len(),
        entry_at(items[i]) is Some,
    ensures
        readable(items) == readable(items.take(i)) + seq![entry_at(items[i])->Some_0] + readable(
            items.skip(i + 1),
        ),
{
    let front = items.take(i);
    let back = items.skip(i + 1);
    assert(items =~= front + seq![items[i]] + back);
    lemma_readable_one(items[i]);
    lemma_readable_add(front, seq![items[i]]);
    lemma_readable_add(front + seq![items[i]], back);
}

proof fn lemma_readable_names(items: Seq<Option<Seq<char>>>, id: Seq<char>)
    ensures
        has_block(items, id) <==> exists|m: int|
            0 <= m < readable(items).len() && (#[trigger] readable(items)[m]).block_id == id,
    decreases items.len(),
{
    let all = readable(items);
    if items.len() > 0 {
        let n = items.len() - 1;
        let front = items.drop_last();
        let before = readable(front);
        lemma_readable_names(front, id);
        if has_block(items, id) {
            let i = choose|i: int| 0 <= i < items.len() && names_block(#[trigger] items[i], id);
            if i < n {
                assert(names_block(front[i], id));
                let m = choose|m: int| 0 <= m < before.len() && (#[trigger] before[m]).block_id
                    == id;
                assert(all[m] == before[m]);
            } else {
                assert(all[before.len() as int].block_id == id);
            }
        }
        if exists|m: int| 0 <= m < all.len() && (#[trigger] all[m]).block_id == id {
            let m = choose|m: int| 0 <= m < all.len() && (#[trigger] all[m]).block_id == id;
            if m < before.len() {
                assert(before[m].block_id == id);
                let i = choose|i: int| 0 <= i < front.len() && names_block(#[trigger] front[i], id);
                assert(names_block(items[i], id));
            } else {
                assert(names_block(items[n], id));
            }
        }
    }
}

/// The place of the last entry for a block among those that can be read.
proof fn lemma_last_is_listed(items: Seq<Option<Seq<char>>>, id: Seq<char>, i: int) -> (n: int)
    requires
        is_last_of(items, id, i),
    ensures
        n == readable(items.take(i)).len(),
        0 <= n < readable(items).len(),
        readable(items)[n] == entry_at(items[i])->Some_0,
        readable(items)[n].block_id == id,
        forall|m: int|
            n < m < readable(items).len() ==> (#[trigger] readable(items)[m]).block_id != id,
{
    let n = readable(items.take(i)).len() as int;
    let back = items.skip(i + 1);
    lemma_readable_parts(items, i);
    lemma_readable_names(back, id);
    assert(!has_block(back, id)) by {
        assert forall|j: int| 0 <= j < back.len() implies !names_block(#[trigger] back[j], id) by {
            assert(!names_block(items[i + 1 + j], id));
        }
    }
    assert forall|m: int| n < m < readable(items).len() implies (
    #[trigger] readable(items)[m]).block_id != id by {
        assert(readable(items)[m] == readable(back)[m - n - 1]);
    }
    n
}

/// Deleting a block marks the last entry for it as deleted, at the time of the deletion: it stays listed
/// where it was, and no other entry changes. Only a block that is not listed cannot be deleted.
pub proof fn law_deleted_block_stays_listed(
    list: &mut MetaDoc,
    block_id: &BlockId,
    now: i64,
    r: CoreResult<()>,
    before: CoreResult<Vec<BlockRecord>>,
    after: CoreResult<Vec<BlockRecord>>,
)
    requires
        now >= 0,
        call_ensures(MetaDoc::soft_delete_at, (list, block_id, now), r),
        call_ensures(MetaDoc::list_blocks, (&*old(list),), before),
        call_ensures(MetaDoc::list_blocks, (&*final(list),), after),
    ensures
        before is Ok,
        after is Ok,
        r is Ok <==> exists|n: int|
            0 <= n < before->Ok_0@.len() && (#[trigger] before->Ok_0@[n]).block_id@ == block_id@,
        r matches Err(e) ==> (e matches CoreError::BlockNotFound { block_id: missing, .. }
            && missing@ == block_id@) && record_views(after->Ok_0@) == record_views(before->Ok_0@),
        r is Ok ==> exists|n: int|
            #![trigger after->Ok_0@[n]]
            {
                let was = before->Ok_0@;
                let now_listed = after->Ok_0@;
                &&& 0 <= n < was.len() == now_listed.len()
                &&& now_listed[n].block_id@ == block_id@
                &&& was[n].block_id@ == block_id@
                &&& now_listed[n].deleted
                &&& now_listed[n].kind == was[n].kind
                &&& now_listed[n].updated_at == now
                &&& forall|m: int|
                    n < m < was.len() ==> (#[trigger] before->Ok_0@[m]).block_id@ != block_id@
                &&& forall|m: int|
                    0 <= m < was.len() && m != n ==> (#[trigger] after->Ok_0@[m])@ == was[m]@
            },
{
    let items = old(list).items();
    let was = record_views(before->Ok_0@);
    let now_listed = record_views(after->Ok_0@);
    lemma_readable_names(items, block_id@);
    if r is Ok {
        let i = last_of(items, block_id@);
        let n = lemma_last_is_listed(items, block_id@, i);
        law_deleted_block_is_hidden(items, i, now);
        let record = entry_at(items[i])->Some_0;
        let front = readable(items.take(i));
        let back = readable(items.skip(i + 1));
        assert(was == front + seq![record] + back);
        assert(now_listed == front + seq![deleted_entry(record, now)] + back);
        assert(now_listed.len() == was.len());
        assert(now_listed.len() == after->Ok_0@.len());
        assert(now_listed[n] == after->Ok_0@[n]@);
        assert(was[n] == before->Ok_0@[n]@);
        assert forall|m: int| n < m < was.len() implies (
        #[trigger] before->Ok_0@[m]).block_id@ != block_id@ by {
            assert(was[m] == before->Ok_0@[m]@);
        }
        assert forall|m: int| 0 <= m < was.len() && m != n implies (
        #[trigger] after->Ok_0@[m])@ == before->Ok_0@[m]@ by {
            assert(now_listed[m] == after->Ok_0@[m]@);
            assert(was[m] == before->Ok_0@[m]@);
            assert(now_listed[m] == was[m]);
        }
    }
    if exists|n: int|
        0 <= n < before->Ok_0@.len() && (#[trigger] before->Ok_0@[n]).block_id@ == block_id@ {
        let n = choose|n: int|
            0 <= n < before->Ok_0@.len() && (#[trigger] before->Ok_0@[n]).block_id@ == block_id@;
        assert(was[n].block_id == block_id@);
        assert(has_block(items, block_id@));
    }
    if r is Err && has_block(items, block_id@) {
        assert(now < 0);
    }
}

/// Removing a block takes the last entry for it out of the list, and keeps the others in their order.
/// Only a block that is not listed cannot be removed.
pub proof fn law_removed_block_is_gone(
    list: &mut MetaDoc,
    block_id: &BlockId,
    r: CoreResult<()>,
    before: CoreResult<Vec<BlockRecord>>,
    after: CoreResult<Vec<BlockRecord>>,
)
    requires
        call_ensures(MetaDoc::remove_block, (list, block_id), r),
        call_ensures(MetaDoc::list_blocks, (&*old(list),), before),
        call_ensures(MetaDoc::list_blocks, (&*final(list),), after),
    ensures
        before is Ok,
        after is Ok,
        r is Ok <==> exists|n: int|
            0 <= n < before->Ok_0@.len() && (#[trigger] before->Ok_0@[n]).block_id@ == block_id@,
        r matches Err(e) ==> (e matches CoreError::BlockNotFound { block_id: missing, .. }
            && missing@ == block_id@) && record_views(after->Ok_0@) == record_views(before->Ok_0@),
        r is Ok ==> exists|n: int|
            #![trigger before->Ok_0@[n]]
            {
                let was = before->Ok_0@;
                &&& 0 <= n < was.len()
                &&& was[n].block_id@ == block_id@
                &&& forall|m: int|
                    n < m < was.len() ==> (#[trigger] before->Ok_0@[m]).block_id@ != block_id@
                &&& record_views(after->Ok_0@) == record_views(was).remove(n)
            },
{
    let items = old(list).items();
    let was = record_views(before->Ok_0@);
    lemma_readable_names(items, block_id@);
    if r is Ok {
        let i = last_of(items, block_id@);
        let n = lemma_last_is_listed(items, block_id@, i);
        lemma_readable_parts(items, i);
        let front = items.take(i);
        let back = items.skip(i + 1);
        assert(items.remove(i) =~= front + back);
        lemma_readable_add(front, back);
        assert(was.remove(n) =~= readable(front) + readable(back));
        assert(was[n] == before->Ok_0@[n]@);
        assert forall|m: int| n < m < was.len() implies (
        #[trigger] before->Ok_0@[m]).block_id@ != block_id@ by {
            assert(was[m] == before->Ok_0@[m]@);
        }
    }
    if exists|n: int|
        0 <= n < before->Ok_0@.len() && (#[trigger] before->Ok_0@[n]).block_id@ == block_id@ {
        let n = choose|n: int|
            0 <= n < before->Ok_0@.len() && (#[trigger] before->Ok_0@[n]).block_id@ == block_id@;
        assert(was[n].block_id == block_id@);
        assert(has_block(items, block_id@));
    }
}

/// Moving a block puts it at its new place among the active blocks, and keeps the order of the others.
/// Positions beyond the active blocks are refused, and change nothing.
pub proof fn law_moved_block_is_at_its_place(
    list: &mut MetaDoc,
    from: usize,
    to: usize,
    r: CoreResult<()>,
    before: CoreResult<Vec<BlockRecord>>,
    after: CoreResult<Vec<BlockRecord>>,
)
    requires
        call_ensures(MetaDoc::move_block, (list, from, to), r),
        call_ensures(MetaDoc::list_active_blocks, (&*old(list),), before),
        call_ensures(MetaDoc::list_active_blocks, (&*final(list),), after),
    ensures
        before is Ok,
        after is Ok,
        r is Ok <==> from < before->Ok_0@.len() && to < before->Ok_0@.len(),
        r is Err ==> record_views(after->Ok_0@) == record_views(before->Ok_0@),
        r is Ok ==> {
            let was = record_views(before->Ok_0@);
            let now_listed = record_views(after->Ok_0@);
            &&& now_listed.len() == was.len()
            &&& now_listed[to as int] == was[from as int]
            &&& now_listed.remove(to as int) == was.remove(from as int)
        },
{
    if r is Ok {
        let was = record_views(before->Ok_0@);
        let now_listed = record_views(after->Ok_0@);
        assert(now_listed.remove(to as int) =~= was.remove(from as int));
    }
}

/// A list that is made from what another one exported has the same entries, and has come as far.
pub proof fn law_exported_list_is_restored(
    list: &MetaDoc,
    bytes: CoreResult<Vec<u8>>,
    snapshot: &[u8],
    doc_id: DocId,
    peer_id: &PeerId,
    made: CoreResult<MetaDoc>,
    here: CoreResult<Frontier>,
    there: CoreResult<Frontier>,
)
    requires
        list.wf(),
        call_ensures(MetaDoc::export_snapshot, (list,), bytes),
        bytes matches Ok(b) && b@ == snapshot@,
        call_ensures(MetaDoc::from_snapshot, (doc_id, peer_id, snapshot), made),
        made matches Ok(copy) ==> call_ensures(MetaDoc::frontier, (&copy,), there),
        call_ensures(MetaDoc::frontier, (list,), here),
    ensures
        made matches Ok(copy) ==> {
            &&& copy.items() == list.items()
            &&& copy.id() == doc_id@
            &&& here is Ok && there is Ok && there->Ok_0@ == here->Ok_0@
        },
        made is Err ==> (match peer_number(peer_id@) {
            None => true,
            Some(n) => n == u64::MAX,
        }),
{
}

/// A new list that takes in the whole export of another one has the same entries.
pub proof fn law_new_list_takes_an_export_in(
    list: &MetaDoc,
    bytes: CoreResult<Vec<u8>>,
    snapshot: &[u8],
    doc_id: DocId,
    peer_id: &PeerId,
    made: CoreResult<MetaDoc>,
    copy: &mut MetaDoc,
    r: CoreResult<ImportResult>,
)
    requires
        list.wf(),
        doc_whole(list.doc()),
        call_ensures(MetaDoc::export_snapshot, (list,), bytes),
        bytes matches Ok(b) && b@ == snapshot@,
        call_ensures(MetaDoc::new, (doc_id, peer_id), made),
        made == Ok::<MetaDoc, CoreError>(*old(copy)),
        call_ensures(MetaDoc::import, (copy, snapshot), r),
    ensures
        r is Ok,
        final(copy).items() == list.items(),
        r->Ok_0.new_frontier@ == frontier_of(doc_version(list.doc())),
{
}

/// Bytes that were taken in once change nothing the second time.
pub proof fn law_second_import_changes_no_list(
    first: &mut MetaDoc,
    second: &mut MetaDoc,
    bytes: &[u8],
    once: CoreResult<ImportResult>,
    twice: CoreResult<ImportResult>,
)
    requires
        prompt(old(first).doc()),
        call_ensures(MetaDoc::import, (first, bytes), once),
        once is Ok,
        *old(second) == *final(first),
        call_ensures(MetaDoc::import, (second, bytes), twice),
    ensures
        final(second).items() == final(first).items(),
        twice matches Ok(res) ==> !res.changed && res.new_frontier@ == once->Ok_0.new_frontier@,
{
}

/// Deleting a block now marks the last entry for it as deleted, at a time that the clock told, and changes no
/// other entry; only a block that is not listed cannot be deleted, unless the clock is before the epoch.
pub proof fn law_block_deleted_now_stays_listed(
    list: &mut MetaDoc,
    block_id: &BlockId,
    r: CoreResult<()>,
    before: CoreResult<Vec<BlockRecord>>,
    after: CoreResult<Vec<BlockRecord>>,
)
    requires
        call_ensures(MetaDoc::soft_delete, (list, block_id), r),
        call_ensures(MetaDoc::list_blocks, (&*old(list),), before),
        call_ensures(MetaDoc::list_blocks, (&*final(list),), after),
    ensures
        before is Ok,
        after is Ok,
        r is Ok ==> exists|n: int|
            0 <= n < before->Ok_0@.len() && (#[trigger] before->Ok_0@[n]).block_id@ == block_id@,
        r is Err ==> record_views(after->Ok_0@) == record_views(before->Ok_0@),
        (forall|n: int|
            0 <= n < before->Ok_0@.len() ==> (#[trigger] before->Ok_0@[n]).block_id@ != block_id@)
            ==> (r matches Err(e) && (e matches CoreError::BlockNotFound { block_id: missing, .. }
            && missing@ == block_id@)),
        r is Ok ==> exists|n: int|
            #![trigger after->Ok_0@[n]]
            {
                let was = before->Ok_0@;
                let now_listed = after->Ok_0@;
                &&& 0 <= n < was.len() == now_listed.len()
                &&& now_listed[n].block_id@ == block_id@
                &&& was[n].block_id@ == block_id@
                &&& now_listed[n].deleted
                &&& now_listed[n].kind == was[n].kind
                &&& wall_told(now_listed[n].updated_at)
                &&& forall|m: int|
                    n < m < was.len() ==> (#[trigger] before->Ok_0@[m]).block_id@ != block_id@
                &&& forall|m: int|
                    0 <= m < was.len() && m != n ==> (#[trigger] after->Ok_0@[m])@ == was[m]@
            },
{
    let items = old(list).items();
    let was = record_views(before->Ok_0@);
    let now_listed = record_views(after->Ok_0@);
    lemma_readable_names(items, block_id@);
    if r is Ok {
        let i = last_of(items, block_id@);
        let n = lemma_last_is_listed(items, block_id@, i);
        let now = choose|now: i64| #[trigger]
            wall_told(now) && now >= 0 && final(list).items() == items.update(
                i,
                Some(record_text(deleted_entry(entry_at(items[i])->Some_0, now))),
            );
        law_deleted_block_is_hidden(items, i, now);
        let record = entry_at(items[i])->Some_0;
        let front = readable(items.take(i));
        let back = readable(items.skip(i + 1));
        assert(was == front + seq![record] + back);
        assert(now_listed == front + seq![deleted_entry(record, now)] + back);
        assert(now_listed.len() == was.len());
        assert(now_listed.len() == after->Ok_0@.len());
        assert(now_listed[n] == after->Ok_0@[n]@);
        assert(was[n] == before->Ok_0@[n]@);
        assert forall|m: int| n < m < was.len() implies (
        #[trigger] before->Ok_0@[m]).block_id@ != block_id@ by {
            assert(was[m] == before->Ok_0@[m]@);
        }
        assert forall|m: int| 0 <= m < was.len() && m != n implies (
        #[trigger] after->Ok_0@[m])@ == before->Ok_0@[m]@ by {
            assert(now_listed[m] == after->Ok_0@[m]@);
            assert(was[m] == before->Ok_0@[m]@);
            assert(now_listed[m] == was[m]);
        }
    }
    if has_block(items, block_id@) {
        let m = choose|m: int|
            0 <= m < readable(items).len() && (#[trigger] readable(items)[m]).block_id == block_id@;
        assert(was[m] == before->Ok_0@[m]@);
        assert(before->Ok_0@[m].block_id@ == block_id@);
    }
}

/// Two lists that were changed apart from each other and import what the other one exports of its changes
/// have the same entries then, and have come equally far.
pub proof fn law_exchanged_list_deltas_converge(
    a: &mut MetaDoc,
    b: &mut MetaDoc,
    a_since: &Frontier,
    b_since: &Frontier,
    a_delta: CoreResult<Vec<u8>>,
    b_delta: CoreResult<Vec<u8>>,
    a_bytes: &[u8],
    b_bytes: &[u8],
    at_a: CoreResult<ImportResult>,
    at_b: CoreResult<ImportResult>,
)
    requires
        old(a).wf(),
        old(b).wf(),
        awaits(old(a).doc(), old(b).doc(), b_since),
        awaits(old(b).doc(), old(a).doc(), a_since),
        call_ensures(MetaDoc::export_delta_since, (&*old(a), a_since), a_delta),
        call_ensures(MetaDoc::export_delta_since, (&*old(b), b_since), b_delta),
        a_delta matches Ok(x) && x@ == a_bytes@,
        b_delta matches Ok(x) && x@ == b_bytes@,
        call_ensures(MetaDoc::import, (a, b_bytes), at_a),
        call_ensures(MetaDoc::import, (b, a_bytes), at_b),
        at_a is Ok && at_b is Ok,
    ensures
        final(a).items() == final(b).items(),
        at_a->Ok_0.new_frontier@ == at_b->Ok_0.new_frontier@,
        final(a).id() == old(a).id() && final(b).id() == old(b).id(),
{
    law_lists_converge(
        *old(a),
        a_since,
        a_bytes@,
        *final(a),
        *old(b),
        b_since,
        b_bytes@,
        *final(b),
    );
}

/// Another replica of a list has the same entries, for the same document, and has come as far.
pub proof fn law_list_replica_has_the_same(
    list: &MetaDoc,
    peer_id: &PeerId,
    made: CoreResult<MetaDoc>,
    here: CoreResult<Vec<BlockRecord>>,
    there: CoreResult<Vec<BlockRecord>>,
    id: &DocId,
    id_there: &DocId,
)
    requires
        list.wf(),
        call_ensures(MetaDoc::replica, (list, peer_id), made),
        call_ensures(MetaDoc::list_blocks, (list,), here),
        call_ensures(MetaDoc::doc_id, (list,), id),
        made matches Ok(copy) && call_ensures(MetaDoc::list_blocks, (&copy,), there)
            && call_ensures(MetaDoc::doc_id, (&copy,), id_there),
    ensures
        here is Ok && there is Ok,
        record_views(there->Ok_0@) == record_views(here->Ok_0@),
        id_there@ == id@,
        doc_version(made->Ok_0.doc()) == doc_version(list.doc()),
{
}

/// A list that pulls from another one takes in what that one exports beyond what it knows, and tells whether
/// that brought it further.
pub proof fn law_list_pull_takes_in(
    list: &mut MetaDoc,
    other: &MetaDoc,
    r: CoreResult<ImportResult>,
    frontier: CoreResult<Frontier>,
    known: CoreResult<Frontier>,
)
    requires
        old(list).wf(),
        other.wf(),
        call_ensures(MetaDoc::pull_from, (list, other), r),
        call_ensures(MetaDoc::frontier, (&*old(list),), known),
        call_ensures(MetaDoc::frontier, (&*final(list),), frontier),
    ensures
        final(list).id() == old(list).id(),
        doc_peer(final(list).doc()) == doc_peer(old(list).doc()),
        r matches Ok(res) ==> frontier is Ok && known is Ok && res.new_frontier@
            == frontier->Ok_0@ && (res.changed <==> frontier->Ok_0@ != known->Ok_0@)
            && doc_ops(old(list).doc()).subset_of(doc_ops(final(list).doc())),
        r is Ok && doc_whole(old(list).doc()) && settled(old(list).doc()) && doc_whole(other.doc())
            && distinct_ids(doc_ops(old(list).doc()).union(doc_ops(other.doc()))) ==> exists|
            since: Frontier,
        | #[trigger]
            since.wf() && since@ == known->Ok_0@ && forall|o: Operation| #[trigger]
            doc_given(final(list).doc()).contains(o) <==> doc_ops(old(list).doc()).contains(o) || (
            doc_ops(other.doc()).contains(o) && !covered(ends_of(since.pairs()), o)),
{
    let since = choose|since: Frontier|
        since.wf() && since@ == frontier_of(doc_version(old(list).doc()))
            && #[trigger] list_answers_pull(*old(list), *other, since, *final(list), r);
    if r is Ok {
        let bytes = choose|bytes: Seq<u8>| #[trigger]
            exported(LoroExport::UpdatesSince(&since), other.doc(), bytes) && list_answers_import(
                *old(list),
                bytes,
                *final(list),
                r,
            );
        if doc_whole(old(list).doc()) && settled(old(list).doc()) && doc_whole(other.doc())
            && distinct_ids(doc_ops(old(list).doc()).union(doc_ops(other.doc()))) {
            let c = carried_ops(bytes)->Some_0;
            assert(c == ops_beyond(doc_ops(other.doc()), ends_of(since.pairs())));
            let all = doc_ops(old(list).doc()).union(doc_ops(other.doc()));
            assert(doc_ops(old(list).doc()).union(c).subset_of(all));
            assert(distinct_ids(doc_given(old(list).doc()).union(c)));
            assert(since.wf());
        }
    }
}

/// Ending a group of changes changes no entry.
pub proof fn law_list_commit_changes_nothing(list: &mut MetaDoc)
    requires
        call_ensures(MetaDoc::commit, (list,), ()),
    ensures
        final(list).items() == old(list).items(),
        final(list).id() == old(list).id(),
        doc_version(final(list).doc()) == doc_version(old(list).doc()),
        doc_committed(final(list).doc()),
{
}

/// A new list has no entries, and is made just where its peer is a number, and not the largest one.
pub proof fn law_new_list_is_empty(
    doc_id: DocId,
    peer_id: &PeerId,
    made: CoreResult<MetaDoc>,
    listed: CoreResult<Vec<BlockRecord>>,
    number: CoreResult<u64>,
    text: &str,
)
    requires
        call_ensures(MetaDoc::new, (doc_id, peer_id), made),
        made matches Ok(list) ==> call_ensures(MetaDoc::list_blocks, (&list,), listed),
        text@ == peer_id@,
        call_ensures(parse_peer_id, (text,), number),
    ensures
        made is Ok <==> (number matches Ok(n) && n < u64::MAX),
        made is Ok ==> listed is Ok && listed->Ok_0@.len() == 0,
        made matches Ok(list) ==> list.id() == doc_id@,
{
    if made is Ok {
        let items = made->Ok_0.items();
        assert(items =~= Seq::<Option<Seq<char>>>::empty());
        assert(record_views(listed->Ok_0@).len() == listed->Ok_0@.len());
    }
}

/// An export of a list is had just where the document grants it, and, where a frontier is given, that is
/// good; bytes are imported just where the document accepts them, and a list is made from bytes only where
/// they are a snapshot.
pub proof fn law_list_exports_are_owed(
    list: &MetaDoc,
    f: &Frontier,
    vv: CoreResult<crate::loro_doc::VersionVector>,
    whole: CoreResult<Vec<u8>>,
    delta: CoreResult<Vec<u8>>,
    taking: &mut MetaDoc,
    bytes: &[u8],
    r: CoreResult<ImportResult>,
    doc_id: DocId,
    peer_id: &PeerId,
    made: CoreResult<MetaDoc>,
)
    requires
        call_ensures(crate::converter::frontier_to_vv, (f,), vv),
        call_ensures(MetaDoc::export_snapshot, (list,), whole),
        call_ensures(MetaDoc::export_delta_since, (list, f), delta),
        call_ensures(MetaDoc::import, (taking, bytes), r),
        call_ensures(MetaDoc::from_snapshot, (doc_id, peer_id, bytes), made),
    ensures
        whole is Ok <==> crate::loro_doc::snapshot_granted(list.doc()),
        delta is Ok <==> vv is Ok && crate::loro_doc::updates_granted(
            list.doc(),
            crate::loro_doc::vector_ends(vv->Ok_0),
        ),
        r is Ok <==> import_accepted(old(taking).doc(), bytes@),
        r matches Err(e) ==> e is Crdt,
        made is Ok ==> is_snapshot(bytes@),
        !is_snapshot(bytes@) ==> (made matches Err(e) && e is Crdt),
{
}

/// A move from a place where there is no active block is refused as of a block that does not exist; one to
/// such a place as out of range.
pub proof fn law_bad_moves_are_told_apart(
    list: &mut MetaDoc,
    from: usize,
    to: usize,
    r: CoreResult<()>,
    before: CoreResult<Vec<BlockRecord>>,
)
    requires
        call_ensures(MetaDoc::move_block, (list, from, to), r),
        call_ensures(MetaDoc::list_active_blocks, (&*old(list),), before),
    ensures
        before is Ok,
        from >= before->Ok_0@.len() ==> (r matches Err(e) && e is BlockNotFound),
        from < before->Ok_0@.len() && to >= before->Ok_0@.len() ==> (r matches Err(e) && e
            is InvalidFrontier),
{
    assert(record_views(before->Ok_0@).len() == before->Ok_0@.len());
}

} // verus!
