//! One block of a document, kept in a replicated document of its own.
//!
//! A text block holds a text, to-do and log blocks a list of JSON values, and a settings block a
//! map to JSON values.

use loro::LoroDoc;
use vstd::prelude::*;
use vstd::string::*;
use vstd::utf8::*;

use crate::converter::{
    awaits, bad_peer_text, export_fault, exported, format_peer_id, frontier_of,
    frontiers_to_frontier, granted, is_export_error, is_frontier_error, law_changes_are_added,
    law_frontier_covers_the_past, parse_peer_id, peer_number, LoroExport,
};
use crate::error::{crdt_error, is_crdt_error, CoreError, CoreResult};
use crate::frontier::Frontier;
use crate::ids::{BlockId, PeerId};
use crate::json::{
    json_flag_at, json_flagged, json_members, json_members_of, json_quote, json_quoted,
    json_set_flag, pair_views,
};
use crate::loro_doc::{
    bytes_sound, carried_ops, commit_doc, distinct_ids, doc_committed, doc_editable,
    doc_from_snapshot, doc_given, doc_has, doc_ops, doc_peer, doc_pristine, doc_root, doc_sound,
    doc_version, doc_whole, empty_root, equal_in_docs, grew, import_accepted, import_into,
    imported_root, imported_version, inserted, is_snapshot, json_kept, keeps_json, kept_json,
    lemma_grew_twice, list_delete, list_insert, list_item, list_len, lists_texts, map_entries,
    map_insert, names_ops, new_doc, no_operations, peer_of_doc, plain_name, prompt, same_history,
    set_doc_peer, settled, snapshot_ops, snapshot_root, snapshot_version, snapshot_whole,
    state_frontiers, takes_in, text_insert, text_len, text_of, Operation, Root,
};
use crate::model::{ApplyResult, BlockKind, ImportResult};
use crate::octets::append_bytes;
use crate::text::{
    comma_joined, decimal, join2, lemma_joined_push, push_decimal, text_lt, utf8_error_text, utf8_text,
};
use crate::text_map::TextMap;

verus! {

/// The name that a block's contents are kept under.
const ROOT_CONTAINER: &'static str = "block";

/// The name that a block's contents are kept under.
pub open spec fn root_name() -> Seq<char> {
    "block"@
}

/// One block of a document.
pub struct BlockDoc {
    doc: LoroDoc,
    block_id: BlockId,
    kind: BlockKind,
    peer_id: PeerId,
}

/// Whether `e` is a document error with text `m`.
pub open spec fn is_crdt_text(e: CoreError, m: Seq<char>) -> bool {
    e matches CoreError::Crdt(t) && t@ == m
}

/// Whether a member of an object can be kept in a settings block.
pub open spec fn settable(p: (Seq<char>, Seq<char>)) -> bool {
    kept_json(p.1) is Some && keeps_json(p.1)
}

/// Whether a map was left by setting a key to the value of a JSON text. A value that a document
/// takes for equal to the one that is there may be left out.
pub open spec fn was_set(
    m: Map<Seq<char>, Seq<char>>,
    pair: (Seq<char>, Seq<char>),
    after: Map<Seq<char>, Seq<char>>,
) -> bool {
    ||| after == m.insert(pair.0, kept_json(pair.1)->Some_0)
    ||| m.contains_key(pair.0) && equal_in_docs(m[pair.0], kept_json(pair.1)->Some_0) && after == m
}

/// Whether a map was left by setting keys to values in turn.
pub open spec fn all_set(
    m: Map<Seq<char>, Seq<char>>,
    pairs: Seq<(Seq<char>, Seq<char>)>,
    after: Map<Seq<char>, Seq<char>>,
) -> bool
    decreases pairs.len(),
{
    if pairs.len() == 0 {
        after == m
    } else {
        exists|mid: Map<Seq<char>, Seq<char>>|
            all_set(m, pairs.drop_last(), mid) && #[trigger] was_set(mid, pairs.last(), after)
    }
}

/// Whether `n` is the first of `pairs` that cannot be kept.
pub open spec fn first_unsettable(pairs: Seq<(Seq<char>, Seq<char>)>, n: int) -> bool {
    &&& 0 <= n < pairs.len()
    &&& !settable(pairs[n])
    &&& forall|i: int| 0 <= i < n ==> settable(#[trigger] pairs[i])
}

/// Whether an edit of a block of this kind succeeds.
pub open spec fn edit_fits(kind: BlockKind, bytes: Seq<u8>) -> bool {
    valid_utf8(bytes) && match kind {
        BlockKind::Text => true,
        BlockKind::Todo | BlockKind::Log => kept_json(decode_utf8(bytes)) is Some && keeps_json(
            decode_utf8(bytes),
        ),
        BlockKind::Settings => json_members_of(decode_utf8(bytes)) is Some && forall|i: int|
            0 <= i < json_members_of(decode_utf8(bytes))->Some_0.len() ==> settable(
                #[trigger] json_members_of(decode_utf8(bytes))->Some_0[i],
            ),
    }
}

/// Whether a block holds `after` after an edit that succeeds.
pub open spec fn edited(kind: BlockKind, root: Root, bytes: Seq<u8>, after: Root) -> bool {
    let s = decode_utf8(bytes);
    match kind {
        BlockKind::Text => after == (Root { text: root.text + s, ..root }),
        BlockKind::Todo | BlockKind::Log => after == (Root {
            list: root.list.push(kept_json(s)),
            ..root
        }),
        BlockKind::Settings => all_set(root.map, json_members_of(s)->Some_0, after.map) && after
            == (Root { map: after.map, ..root }),
    }
}

/// Whether a block holds `after` after an edit that fails: of settings, those are kept that came
/// before the one that failed.
pub open spec fn left_by_edit(kind: BlockKind, root: Root, bytes: Seq<u8>, after: Root) -> bool {
    if kind is Settings && valid_utf8(bytes) && json_members_of(decode_utf8(bytes)) is Some {
        &&& after == (Root { map: after.map, ..root })
        &&& exists|n: int| #[trigger]
            first_unsettable(json_members_of(decode_utf8(bytes))->Some_0, n) && all_set(
                root.map,
                json_members_of(decode_utf8(bytes))->Some_0.take(n),
                after.map,
            )
    } else {
        after == root
    }
}

/// Whether `e` is the error of an edit that does not fit.
pub open spec fn is_edit_error(e: CoreError, kind: BlockKind, bytes: Seq<u8>) -> bool {
    if !valid_utf8(bytes) {
        is_crdt_text(e, "编辑字节非 UTF-8: "@ + utf8_error_text(bytes))
    } else {
        match kind {
            BlockKind::Text => false,
            BlockKind::Todo | BlockKind::Log => if kept_json(decode_utf8(bytes)) is None {
                is_crdt_error(e, "JSON 解析失败: "@)
            } else {
                is_crdt_error(e, "List 插入失败: "@)
            },
            BlockKind::Settings => if json_members_of(decode_utf8(bytes)) is None {
                is_crdt_error(e, "JSON 解析失败: "@)
            } else {
                is_crdt_error(e, "JSON 值转换失败: "@) || is_crdt_error(e, "Map 插入失败: "@)
            },
        }
    }
}

/// JSON values with commas between them; items that are no values are passed over.
pub open spec fn values_text(items: Seq<Option<Seq<char>>>) -> Seq<char>
    decreases items.len(),
{
    if items.len() == 0 {
        Seq::empty()
    } else {
        let front = values_text(items.drop_last());
        match items.last() {
            None => front,
            Some(v) => if no_values(items.drop_last()) {
                v
            } else {
                front + ","@ + v
            },
        }
    }
}

/// Whether no item is a value.
pub open spec fn no_values(items: Seq<Option<Seq<char>>>) -> bool {
    forall|i: int| 0 <= i < items.len() ==> #[trigger] items[i] is None
}

/// Names with JSON values, with commas between them.
pub open spec fn settings_text(pairs: Seq<(Seq<char>, Seq<char>)>) -> Seq<char>
    decreases pairs.len(),
{
    if pairs.len() == 0 {
        Seq::empty()
    } else {
        let last = json_quoted(pairs.last().0) + ":"@ + pairs.last().1;
        if pairs.len() == 1 {
            last
        } else {
            settings_text(pairs.drop_last()) + ","@ + last
        }
    }
}

/// Whether `pairs` lists a map in the order of the keys.
pub open spec fn in_order(pairs: Seq<(Seq<char>, Seq<char>)>, m: Map<Seq<char>, Seq<char>>) -> bool {
    &&& forall|i: int|
        0 <= i < pairs.len() ==> m.contains_key((#[trigger] pairs[i]).0) && m[pairs[i].0]
            == pairs[i].1
    &&& forall|k: Seq<char>| #[trigger]
        m.contains_key(k) ==> exists|i: int| 0 <= i < pairs.len() && (#[trigger] pairs[i]).0 == k
    &&& forall|i: int, j: int|
        0 <= i < j < pairs.len() ==> text_lt((#[trigger] pairs[i]).0, (#[trigger] pairs[j]).0)
}

/// Whether `text` is how a block of this kind is shown.
pub open spec fn shown(kind: BlockKind, root: Root, text: Seq<char>) -> bool {
    match kind {
        BlockKind::Text => text == root.text,
        BlockKind::Todo | BlockKind::Log => text == "["@ + values_text(root.list) + "]"@,
        BlockKind::Settings => exists|pairs: Seq<(Seq<char>, Seq<char>)>|
            in_order(pairs, root.map) && text == "{"@ + #[trigger] settings_text(pairs) + "}"@,
    }
}

/// What is said of a to-do that does not exist.
pub open spec fn beyond_list_text(index: nat) -> Seq<char> {
    "Todo 索引超出范围: "@ + decimal(index)
}

/// What is said of a to-do that is no value.
pub open spec fn no_value_text(index: nat) -> Seq<char> {
    "Todo 索引 "@ + decimal(index) + " 处的元素不是值类型"@
}

/// What is said of a to-do that is no object.
pub open spec fn no_object_text(index: nat) -> Seq<char> {
    "Todo 索引 "@ + decimal(index) + " 处的元素不是 JSON 对象"@
}

/// A to-do with its `completed` member set.
pub open spec fn todo_set(item: Seq<char>, completed: bool) -> Option<Seq<char>> {
    json_flagged(item, "completed"@, completed)
}

proof fn lemma_root_name()
    ensures
        plain_name(root_name()),
{
    reveal_strlit("block");
    let s = "block"@;
    assert(s =~= seq!['b', 'l', 'o', 'c', 'k']);
}

/// The text that `bytes` encode.
fn edit_text(bytes: &[u8]) -> (r: CoreResult<String>)
    ensures
        match r {
            Ok(s) => valid_utf8(bytes@) && s@ == decode_utf8(bytes@),
            Err(e) => !valid_utf8(bytes@) && is_crdt_text(
                e,
                "编辑字节非 UTF-8: "@ + utf8_error_text(bytes@),
            ),
        },
{
    let mut copy: Vec<u8> = Vec::new();
    append_bytes(&mut copy, bytes);
    assert(copy@ =~= bytes@);
    match utf8_text(copy) {
        Ok(s) => {
            proof {
                encode_utf8_decode_utf8(s@);
            }
            Ok(s)
        },
        Err(e) => Err(CoreError::Crdt(join2("编辑字节非 UTF-8: ", e.as_str()))),
    }
}

/// The bytes that encode `text`.
fn text_bytes(text: &str) -> (r: Vec<u8>)
    ensures
        r@ == encode_utf8(text@),
{
    let mut out: Vec<u8> = Vec::new();
    append_bytes(&mut out, text.as_bytes());
    assert(out@ =~= encode_utf8(text@));
    out
}

impl BlockDoc {
    /// The replicated document.
    pub closed spec fn doc(&self) -> LoroDoc {
        self.doc
    }

    /// The block's identifier.
    pub closed spec fn id(&self) -> BlockId {
        self.block_id
    }

    /// The block's kind.
    pub closed spec fn the_kind(&self) -> BlockKind {
        self.kind
    }

    /// The device in whose name changes are made.
    pub closed spec fn peer(&self) -> PeerId {
        self.peer_id
    }

    /// The replicated document takes edits, and all that it holds can be read.
    pub open spec fn wf(&self) -> bool {
        doc_editable(self.doc()) && doc_sound(self.doc())
    }

    /// What the block holds.
    pub open spec fn root(&self) -> Root {
        doc_root(self.doc(), root_name())
    }

    /// Whether nothing but what the block holds differs.
    pub open spec fn same_block(&self, other: &BlockDoc) -> bool {
        &&& self.id() == other.id()
        &&& self.the_kind() == other.the_kind()
        &&& self.peer() == other.peer()
        &&& doc_peer(self.doc()) == doc_peer(other.doc())
    }

    /// A new, empty block, whose changes are made in the name of `peer_id`.
    pub fn new(block_id: BlockId, kind: BlockKind, peer_id: &PeerId) -> (r: CoreResult<Self>)
        ensures
            match r {
                Ok(b) => {
                    &&& b.wf()
                    &&& b.id() == block_id
                    &&& b.the_kind() == kind
                    &&& b.peer() == *peer_id
                    &&& b.root() == empty_root()
                    &&& doc_version(b.doc()) == no_operations()
                    &&& doc_pristine(b.doc())
                    &&& doc_ops(b.doc()) == Set::<Operation>::empty()
                    &&& settled(b.doc())
                    &&& doc_whole(b.doc())
                    &&& peer_number(peer_id@) == Some(doc_peer(b.doc()))
                    &&& doc_peer(b.doc()) != u64::MAX
                },
                Err(e) => match peer_number(peer_id@) {
                    None => is_frontier_error(e, bad_peer_text(peer_id@)),
                    Some(n) => n == u64::MAX && is_crdt_error(e, "设置 PeerID 失败: "@),
                },
            },
    {
        let mut doc = new_doc();
        let peer = match parse_peer_id(peer_id.as_str()) {
            Ok(peer) => peer,
            Err(e) => {
                return Err(e);
            },
        };
        match set_doc_peer(&mut doc, peer) {
            Ok(_) => Ok(BlockDoc { doc, block_id, kind, peer_id: peer_id.clone() }),
            Err(e) => Err(crdt_error("设置 PeerID 失败: ", e.as_str())),
        }
    }

    /// A block from a snapshot, whose further changes are made in the name of `peer_id`.
    ///
    /// The snapshot is one that a block gave, or bytes that are none: states that cannot be read
    /// are not to be in it.
    pub fn from_snapshot(
        block_id: BlockId,
        kind: BlockKind,
        peer_id: &PeerId,
        bytes: &[u8],
    ) -> (r: CoreResult<Self>)
        requires
            bytes_sound(bytes@),
        ensures
            match r {
                Ok(b) => {
                    &&& b.wf()
                    &&& b.id() == block_id
                    &&& b.the_kind() == kind
                    &&& b.peer() == *peer_id
                    &&& is_snapshot(bytes@)
                    &&& b.root() == snapshot_root(bytes@, root_name())
                    &&& doc_version(b.doc()) == snapshot_version(bytes@)
                    &&& doc_ops(b.doc()) == snapshot_ops(bytes@)
                    &&& settled(b.doc())
                    &&& doc_whole(b.doc()) == snapshot_whole(bytes@)
                    &&& peer_number(peer_id@) == Some(doc_peer(b.doc()))
                    &&& doc_peer(b.doc()) != u64::MAX
                },
                Err(e) => if !is_snapshot(bytes@) {
                    is_crdt_error(e, "从 snapshot 恢复失败: "@)
                } else {
                    match peer_number(peer_id@) {
                        None => is_frontier_error(e, bad_peer_text(peer_id@)),
                        Some(n) => n == u64::MAX && is_crdt_error(e, "设置 PeerID 失败: "@),
                    }
                },
            },
    {
        let mut doc = match doc_from_snapshot(bytes) {
            Ok(doc) => doc,
            Err(e) => {
                return Err(crdt_error("从 snapshot 恢复失败: ", e.as_str()));
            },
        };
        let peer = match parse_peer_id(peer_id.as_str()) {
            Ok(peer) => peer,
            Err(e) => {
                return Err(e);
            },
        };
        match set_doc_peer(&mut doc, peer) {
            Ok(_) => Ok(BlockDoc { doc, block_id, kind, peer_id: peer_id.clone() }),
            Err(e) => Err(crdt_error("设置 PeerID 失败: ", e.as_str())),
        }
    }

    pub fn block_id(&self) -> (r: &BlockId)
        ensures
            *r == self.id(),
    {
        &self.block_id
    }

    pub fn kind(&self) -> (r: BlockKind)
        ensures
            r == self.the_kind(),
    {
        self.kind
    }

    /// The device in whose name changes are made.
    pub fn peer_id(&self) -> (r: &PeerId)
        ensures
            *r == self.peer(),
    {
        &self.peer_id
    }

    /// The device in whose name the replicated document makes changes.
    pub fn loro_peer_id_str(&self) -> (r: String)
        ensures
            r@ == decimal(doc_peer(self.doc()) as nat),
    {
        format_peer_id(peer_of_doc(&self.doc))
    }

    /// Up to where the block has come.
    pub fn frontier(&self) -> (r: CoreResult<Frontier>)
        ensures
            r is Ok,
            r->Ok_0.wf(),
            r->Ok_0@ == frontier_of(doc_version(self.doc())),
            names_ops(self.doc()),
    {
        frontiers_to_frontier(&state_frontiers(&self.doc))
    }

    /// Ends the group of changes under way: all changes that were made are recorded, and the block
    /// holds what it held.
    pub fn commit(&mut self)
        ensures
            doc_committed(final(self).doc()),
            old(self).wf() ==> final(self).wf(),
            final(self).same_block(old(self)),
            final(self).root() == old(self).root(),
            doc_version(final(self).doc()) == doc_version(old(self).doc()),
            same_history(final(self).doc(), old(self).doc()),
    {
        commit_doc(&mut self.doc);
    }

    /// Commits, and says how far the block has come.
    fn committed(&mut self) -> (r: CoreResult<ApplyResult>)
        requires
            old(self).wf(),
        ensures
            final(self).wf(),
            final(self).same_block(old(self)),
            final(self).root() == old(self).root(),
            same_history(final(self).doc(), old(self).doc()),
            r is Ok,
            r->Ok_0.has_delta,
            r->Ok_0.new_frontier.wf(),
            r->Ok_0.new_frontier@ == frontier_of(doc_version(final(self).doc())),
    {
        commit_doc(&mut self.doc);
        match self.frontier() {
            Ok(new_frontier) => Ok(ApplyResult { new_frontier, has_delta: true }),
            Err(e) => Err(e),
        }
    }

    /// Applies an edit: text is appended, a JSON value becomes the last item, and the members of
    /// a JSON object become settings.
    pub fn apply_edit(&mut self, edit_bytes: &[u8]) -> (r: CoreResult<ApplyResult>)
        requires
            old(self).wf(),
        ensures
            final(self).wf(),
            final(self).same_block(old(self)),
            grew(old(self).doc(), final(self).doc()),
            match r {
                Ok(res) => {
                    &&& edit_fits(old(self).the_kind(), edit_bytes@)
                    &&& edited(
                        old(self).the_kind(),
                        old(self).root(),
                        edit_bytes@,
                        final(self).root(),
                    )
                    &&& res.has_delta
                    &&& res.new_frontier.wf()
                    &&& res.new_frontier@ == frontier_of(doc_version(final(self).doc()))
                },
                Err(e) => {
                    &&& !edit_fits(old(self).the_kind(), edit_bytes@)
                    &&& is_edit_error(e, old(self).the_kind(), edit_bytes@)
                    &&& left_by_edit(
                        old(self).the_kind(),
                        old(self).root(),
                        edit_bytes@,
                        final(self).root(),
                    )
                },
            },
    {
        match self.kind {
            BlockKind::Text => self.apply_text_edit(edit_bytes),
            BlockKind::Todo | BlockKind::Log => self.apply_list_edit(edit_bytes),
            BlockKind::Settings => self.apply_map_edit(edit_bytes),
        }
    }

    fn apply_text_edit(&mut self, edit_bytes: &[u8]) -> (r: CoreResult<ApplyResult>)
        requires
            old(self).wf(),
        ensures
            final(self).wf(),
            final(self).same_block(old(self)),
            grew(old(self).doc(), final(self).doc()),
            match r {
                Ok(res) => {
                    &&& edit_fits(BlockKind::Text, edit_bytes@)
                    &&& edited(
                        BlockKind::Text,
                        old(self).root(),
                        edit_bytes@,
                        final(self).root(),
                    )
                    &&& res.has_delta
                    &&& res.new_frontier.wf()
                    &&& res.new_frontier@ == frontier_of(doc_version(final(self).doc()))
                },
                Err(e) => {
                    &&& !edit_fits(BlockKind::Text, edit_bytes@)
                    &&& is_edit_error(e, BlockKind::Text, edit_bytes@)
                    &&& final(self).root() == old(self).root()
                },
            },
    {
        proof {
            lemma_root_name();
        }
        let s = match edit_text(edit_bytes) {
            Ok(s) => s,
            Err(e) => {
                return Err(e);
            },
        };
        let pos = text_len(&self.doc, ROOT_CONTAINER);
        let ghost before = self.root();
        match text_insert(&mut self.doc, ROOT_CONTAINER, pos, s.as_str()) {
            Ok(_) => {},
            Err(e) => {
                return Err(crdt_error("插入文本失败: ", e.as_str()));
            },
        }
        assert(inserted(before.text, pos as int, s@) =~= before.text + s@);
        self.committed()
    }

    fn apply_list_edit(&mut self, edit_bytes: &[u8]) -> (r: CoreResult<ApplyResult>)
        requires
            old(self).wf(),
        ensures
            final(self).wf(),
            final(self).same_block(old(self)),
            grew(old(self).doc(), final(self).doc()),
            match r {
                Ok(res) => {
                    &&& edit_fits(BlockKind::Todo, edit_bytes@)
                    &&& edited(
                        BlockKind::Todo,
                        old(self).root(),
                        edit_bytes@,
                        final(self).root(),
                    )
                    &&& res.has_delta
                    &&& res.new_frontier.wf()
                    &&& res.new_frontier@ == frontier_of(doc_version(final(self).doc()))
                },
                Err(e) => {
                    &&& !edit_fits(BlockKind::Todo, edit_bytes@)
                    &&& is_edit_error(e, BlockKind::Todo, edit_bytes@)
                    &&& final(self).root() == old(self).root()
                },
            },
    {
        proof {
            lemma_root_name();
        }
        let s = match edit_text(edit_bytes) {
            Ok(s) => s,
            Err(e) => {
                return Err(e);
            },
        };
        match json_kept(s.as_str()) {
            Ok(_) => {},
            Err(e) => {
                return Err(crdt_error("JSON 解析失败: ", e.as_str()));
            },
        }
        let pos = list_len(&self.doc, ROOT_CONTAINER);
        let ghost before = self.root();
        match list_insert(&mut self.doc, ROOT_CONTAINER, pos, s.as_str()) {
            Ok(_) => {},
            Err(e) => {
                return Err(crdt_error("List 插入失败: ", e.as_str()));
            },
        }
        assert(before.list.insert(pos as int, kept_json(s@)) =~= before.list.push(kept_json(s@)));
        self.committed()
    }

    fn apply_map_edit(&mut self, edit_bytes: &[u8]) -> (r: CoreResult<ApplyResult>)
        requires
            old(self).wf(),
        ensures
            final(self).wf(),
            final(self).same_block(old(self)),
            grew(old(self).doc(), final(self).doc()),
            match r {
                Ok(res) => {
                    &&& edit_fits(BlockKind::Settings, edit_bytes@)
                    &&& edited(
                        BlockKind::Settings,
                        old(self).root(),
                        edit_bytes@,
                        final(self).root(),
                    )
                    &&& res.has_delta
                    &&& res.new_frontier.wf()
                    &&& res.new_frontier@ == frontier_of(doc_version(final(self).doc()))
                },
                Err(e) => {
                    &&& !edit_fits(BlockKind::Settings, edit_bytes@)
                    &&& is_edit_error(e, BlockKind::Settings, edit_bytes@)
                    &&& left_by_edit(
                        BlockKind::Settings,
                        old(self).root(),
                        edit_bytes@,
                        final(self).root(),
                    )
                },
            },
    {
        proof {
            lemma_root_name();
        }
        let s = match edit_text(edit_bytes) {
            Ok(s) => s,
            Err(e) => {
                return Err(e);
            },
        };
        let kvs = match json_members(s.as_str()) {
            Ok(kvs) => kvs,
            Err(e) => {
                return Err(crdt_error("JSON 解析失败: ", e.as_str()));
            },
        };
        let ghost pairs = json_members_of(s@)->Some_0;
        let ghost before = self.root();
        assert(pairs == pair_views(kvs@));
        assert(pairs.take(0) =~= Seq::<(Seq<char>, Seq<char>)>::empty());
        let mut i: usize = 0;
        while i < kvs.len()
            invariant
                i <= kvs@.len(),
                pairs == pair_views(kvs@),
                before == old(self).root(),
                valid_utf8(edit_bytes@),
                s@ == decode_utf8(edit_bytes@),
                json_members_of(s@) == Some(pairs),
                plain_name(root_name()),
                self.wf(),
                self.same_block(old(self)),
                grew(old(self).doc(), self.doc()),
                self.root() == (Root { map: self.root().map, ..before }),
                all_set(before.map, pairs.take(i as int), self.root().map),
                forall|j: int| 0 <= j < i ==> settable(#[trigger] pairs[j]),
            decreases kvs@.len() - i,
        {
            proof {
                assert(pairs[i as int] == (kvs@[i as int].0@, kvs@[i as int].1@));
                assert(pairs.take(i + 1).drop_last() =~= pairs.take(i as int));
                assert(pairs.take(i + 1).last() == pairs[i as int]);
                if !settable(pairs[i as int]) {
                    let all = json_members_of(decode_utf8(edit_bytes@))->Some_0;
                    assert(all == pairs);
                    assert(!settable(all[i as int]));
                    assert(first_unsettable(all, i as int));
                    assert(!edit_fits(BlockKind::Settings, edit_bytes@));
                    assert(left_by_edit(
                        BlockKind::Settings,
                        before,
                        edit_bytes@,
                        self.root(),
                    ));
                }
            }
            let key = kvs[i].0.as_str();
            let value = kvs[i].1.as_str();
            match json_kept(value) {
                Ok(_) => {},
                Err(e) => {
                    return Err(crdt_error("JSON 值转换失败: ", e.as_str()));
                },
            }
            let ghost then = self.doc();
            let ghost mid = self.root().map;
            match map_insert(&mut self.doc, ROOT_CONTAINER, key, value) {
                Ok(_) => {
                    proof {
                        lemma_grew_twice(old(self).doc(), then, self.doc());
                        assert(all_set(before.map, pairs.take(i + 1).drop_last(), mid));
                        assert(was_set(mid, pairs.take(i + 1).last(), self.root().map));
                        assert(all_set(before.map, pairs.take(i + 1), self.root().map));
                    }
                },
                Err(e) => {
                    return Err(crdt_error("Map 插入失败: ", e.as_str()));
                },
            }
            i = i + 1;
        }
        assert(pairs.take(i as int) =~= pairs);
        self.committed()
    }

    /// Sets whether the to-do at `index` is completed.
    ///
    /// The item is taken out and put in again with its `completed` member set.
    pub fn apply_todo_update(&mut self, index: usize, completed: bool) -> (r: CoreResult<()>)
        requires
            old(self).wf(),
        ensures
            final(self).wf(),
            final(self).same_block(old(self)),
            grew(old(self).doc(), final(self).doc()),
            ({
                let list = old(self).root().list;
                match r {
                    Ok(_) => {
                        &&& index < list.len()
                        &&& list[index as int] is Some
                        &&& todo_set(list[index as int]->Some_0, completed) is Some
                        &&& keeps_json(todo_set(list[index as int]->Some_0, completed)->Some_0)
                        &&& final(self).root() == (Root {
                            list: list.update(
                                index as int,
                                kept_json(
                                    todo_set(list[index as int]->Some_0, completed)->Some_0,
                                ),
                            ),
                            ..old(self).root()
                        })
                        &&& final(self).root().list[index as int] is Some
                        &&& json_flag_at(
                            final(self).root().list[index as int]->Some_0,
                            "completed"@,
                        ) == Some(completed)
                    },
                    Err(e) => if index >= list.len() {
                        is_crdt_text(e, beyond_list_text(index as nat)) && final(self).root()
                            == old(self).root()
                    } else if list[index as int] is None {
                        is_crdt_text(e, no_value_text(index as nat)) && final(self).root() == old(self).root()
                    } else {
                        match todo_set(list[index as int]->Some_0, completed) {
                            None => is_crdt_text(e, no_object_text(index as nat)) && final(self).root() == old(self).root(),
                            Some(t) => if kept_json(t) is None {
                                is_crdt_error(e, "JSON 值转换失败: "@) && final(self).root()
                                    == old(self).root()
                            } else {
                                !keeps_json(t) && is_crdt_error(e, "List 插入失败: "@) && final(self).root() == (Root {
                                    list: list.remove(index as int),
                                    ..old(self).root()
                                })
                            },
                        }
                    },
                }
            }),
    {
        proof {
            lemma_root_name();
        }
        let item = match list_item(&self.doc, ROOT_CONTAINER, index) {
            None => {
                let mut text = "Todo 索引超出范围: ".to_owned();
                push_decimal(&mut text, index as u64);
                return Err(CoreError::Crdt(text));
            },
            Some(None) => {
                let mut text = "Todo 索引 ".to_owned();
                push_decimal(&mut text, index as u64);
                text.append(" 处的元素不是值类型");
                return Err(CoreError::Crdt(text));
            },
            Some(Some(item)) => item,
        };
        let json = match json_set_flag(item.as_str(), "completed", completed) {
            Some(json) => json,
            None => {
                let mut text = "Todo 索引 ".to_owned();
                push_decimal(&mut text, index as u64);
                text.append(" 处的元素不是 JSON 对象");
                return Err(CoreError::Crdt(text));
            },
        };
        match json_kept(json.as_str()) {
            Ok(_) => {},
            Err(e) => {
                return Err(crdt_error("JSON 值转换失败: ", e.as_str()));
            },
        }
        let ghost list = self.root().list;
        let ghost start = self.doc();
        match list_delete(&mut self.doc, ROOT_CONTAINER, index) {
            Ok(_) => {},
            Err(e) => {
                return Err(crdt_error("List 删除失败: ", e.as_str()));
            },
        }
        let ghost then = self.doc();
        match list_insert(&mut self.doc, ROOT_CONTAINER, index, json.as_str()) {
            Ok(_) => {
                proof {
                    lemma_grew_twice(start, then, self.doc());
                }
            },
            Err(e) => {
                return Err(crdt_error("List 插入失败: ", e.as_str()));
            },
        }
        assert(list.remove(index as int).insert(index as int, kept_json(json@)) =~= list.update(
            index as int,
            kept_json(json@),
        ));
        commit_doc(&mut self.doc);
        Ok(())
    }

    /// The whole block with its history.
    pub fn export_snapshot(&self) -> (r: CoreResult<Vec<u8>>)
        requires
            self.wf(),
        ensures
            match r {
                Ok(bytes) => granted(LoroExport::Snapshot, self.doc()) && exported(
                    LoroExport::Snapshot,
                    self.doc(),
                    bytes@,
                ),
                Err(e) => !granted(LoroExport::Snapshot, self.doc()) && is_export_error(e),
            },
    {
        LoroExport::Snapshot.export(&self.doc)
    }

    /// The changes beyond a frontier.
    pub fn export_delta_since(&self, since: &Frontier) -> (r: CoreResult<Vec<u8>>)
        requires
            self.wf(),
        ensures
            match r {
                Ok(bytes) => {
                    &&& export_fault(LoroExport::UpdatesSince(since)) is None
                    &&& granted(LoroExport::UpdatesSince(since), self.doc())
                    &&& exported(LoroExport::UpdatesSince(since), self.doc(), bytes@)
                },
                Err(e) => match export_fault(LoroExport::UpdatesSince(since)) {
                    Some(f) => is_frontier_error(e, f),
                    None => !granted(LoroExport::UpdatesSince(since), self.doc()) && is_export_error(e),
                },
            },
    {
        LoroExport::UpdatesSince(since).export(&self.doc)
    }

    /// The block, with the history before a frontier left out.
    pub fn export_shallow_snapshot(&self, at: &Frontier) -> (r: CoreResult<Vec<u8>>)
        requires
            self.wf(),
        ensures
            match r {
                Ok(bytes) => {
                    &&& export_fault(LoroExport::ShallowSnapshot(at)) is None
                    &&& granted(LoroExport::ShallowSnapshot(at), self.doc())
                    &&& exported(LoroExport::ShallowSnapshot(at), self.doc(), bytes@)
                },
                Err(e) => match export_fault(LoroExport::ShallowSnapshot(at)) {
                    Some(f) => is_frontier_error(e, f),
                    None => !granted(LoroExport::ShallowSnapshot(at), self.doc()) && is_export_error(e),
                },
            },
    {
        LoroExport::ShallowSnapshot(at).export(&self.doc)
    }

    /// Takes in what another replica exported. What was taken in before changes nothing.
    pub fn import(&mut self, bytes: &[u8]) -> (r: CoreResult<ImportResult>)
        requires
            old(self).wf(),
            bytes_sound(bytes@),
        ensures
            answers_import(*old(self), bytes@, *final(self), r),
    {
        let before = match self.frontier() {
            Ok(f) => f,
            Err(e) => {
                return Err(e);
            },
        };
        match import_into(&mut self.doc, bytes) {
            Ok(_) => {},
            Err(e) => {
                return Err(crdt_error("导入失败: ", e.as_str()));
            },
        }
        let new_frontier = match self.frontier() {
            Ok(f) => f,
            Err(e) => {
                return Err(e);
            },
        };
        let changed = !new_frontier.same(&before);
        Ok(ImportResult { new_frontier, changed })
    }

    /// Another replica of the block, whose further changes are made in the name of `peer_id`.
    pub fn replica(&self, peer_id: &PeerId) -> (r: CoreResult<Self>)
        requires
            self.wf(),
        ensures
            match r {
                Ok(b) => {
                    &&& b.wf()
                    &&& b.id() == self.id()
                    &&& b.the_kind() == self.the_kind()
                    &&& b.peer() == *peer_id
                    &&& granted(LoroExport::Snapshot, self.doc())
                    &&& b.root() == self.root()
                    &&& doc_version(b.doc()) == doc_version(self.doc())
                    &&& doc_ops(b.doc()) == doc_ops(self.doc())
                    &&& settled(b.doc())
                    &&& doc_whole(b.doc()) == doc_whole(self.doc())
                    &&& peer_number(peer_id@) == Some(doc_peer(b.doc()))
                    &&& doc_peer(b.doc()) != u64::MAX
                },
                Err(e) => if !granted(LoroExport::Snapshot, self.doc()) {
                    is_export_error(e)
                } else {
                    match peer_number(peer_id@) {
                        None => is_frontier_error(e, bad_peer_text(peer_id@)),
                        Some(n) => n == u64::MAX && is_crdt_error(e, "设置 PeerID 失败: "@),
                    }
                },
            },
    {
        match self.export_snapshot() {
            Ok(bytes) => BlockDoc::from_snapshot(
                self.block_id.clone(),
                self.kind,
                peer_id,
                bytes.as_slice(),
            ),
            Err(e) => Err(e),
        }
    }

    /// Takes in the changes of another replica that this one, by its frontier, does not know.
    pub fn pull_from(&mut self, other: &BlockDoc) -> (r: CoreResult<ImportResult>)
        requires
            old(self).wf(),
            other.wf(),
        ensures
            final(self).wf(),
            exists|since: Frontier|
                since.wf() && since@ == frontier_of(doc_version(old(self).doc()))
                    && #[trigger] answers_pull(*old(self), *other, since, *final(self), r),
    {
        let since = match self.frontier() {
            Ok(f) => f,
            Err(e) => {
                return Err(e);
            },
        };
        let bytes = match other.export_delta_since(&since) {
            Ok(bytes) => bytes,
            Err(e) => {
                assert(answers_pull(*old(self), *other, since, *self, Err(e)));
                return Err(e);
            },
        };
        let r = self.import(bytes.as_slice());
        assert(exported(LoroExport::UpdatesSince(&since), other.doc(), bytes@));
        assert(answers_pull(*old(self), *other, since, *self, r));
        r
    }

    /// The block as it is shown: its text, or its list or settings as JSON.
    pub fn export_render_bytes(&self) -> (r: CoreResult<Vec<u8>>)
        requires
            self.wf(),
        ensures
            r is Ok,
            valid_utf8(r->Ok_0@),
            shown(self.the_kind(), self.root(), decode_utf8(r->Ok_0@)),
    {
        proof {
            lemma_root_name();
        }
        let text = match self.kind {
            BlockKind::Text => text_of(&self.doc, ROOT_CONTAINER),
            BlockKind::Todo | BlockKind::Log => self.list_text(),
            BlockKind::Settings => self.map_text(),
        };
        let bytes = text_bytes(text.as_str());
        proof {
            encode_utf8_decode_utf8(text@);
            encode_utf8_valid_utf8(text@);
        }
        Ok(bytes)
    }

    fn list_text(&self) -> (r: String)
        requires
            self.wf(),
        ensures
            r@ == "["@ + values_text(self.root().list) + "]"@,
    {
        proof {
            lemma_root_name();
        }
        let ghost list = self.root().list;
        let len = list_len(&self.doc, ROOT_CONTAINER);
        let mut out = "[".to_owned();
        let mut first = true;
        let mut i: usize = 0;
        assert(list.take(0) =~= Seq::<Option<Seq<char>>>::empty());
        assert(out@ =~= "["@ + values_text(list.take(0)));
        while i < len
            invariant
                i <= len,
                len == list.len(),
                list == self.root().list,
                self.wf(),
                plain_name(root_name()),
                out@ == "["@ + values_text(list.take(i as int)),
                first == no_values(list.take(i as int)),
            decreases len - i,
        {
            let ghost so_far = out@;
            let ghost more = list.take(i + 1);
            proof {
                assert(more.drop_last() =~= list.take(i as int));
                assert(more.last() == list[i as int]);
                assert(forall|j: int| 0 <= j < i ==> more[j] == list.take(i as int)[j]);
                if !no_values(list.take(i as int)) {
                    let j = choose|j: int|
                        0 <= j < i && !(#[trigger] list.take(i as int)[j] is None);
                    assert(!(more[j] is None));
                }
            }
            if let Some(Some(value)) = list_item(&self.doc, ROOT_CONTAINER, i) {
                assert(!(more[i as int] is None));
                if !first {
                    out.append(",");
                }
                out.append(value.as_str());
                if first {
                    proof {
                        lemma_no_values(list.take(i as int));
                    }
                }
                assert(out@ =~= "["@ + values_text(more));
                first = false;
            } else {
                assert(more[i as int] is None);
            }
            i = i + 1;
        }
        assert(list.take(i as int) =~= list);
        out.append("]");
        out
    }

    fn map_text(&self) -> (r: String)
        requires
            self.wf(),
        ensures
            shown(BlockKind::Settings, self.root(), r@),
    {
        proof {
            lemma_root_name();
        }
        let ghost want = self.root().map;
        let entries = map_entries(&self.doc, ROOT_CONTAINER);
        let mut sorted: TextMap<String> = TextMap::new();
        let mut i: usize = 0;
        while i < entries.len()
            invariant
                i <= entries@.len(),
                lists_texts(entries@, want),
                sorted.wf(),
                forall|k: Seq<char>| #[trigger]
                    sorted@.dom().contains(k) ==> want.contains_key(k) && sorted@[k]@ == want[k],
                forall|j: int| 0 <= j < i ==> sorted@.dom().contains((#[trigger] entries@[j]).0@),
            decreases entries@.len() - i,
        {
            let ghost before = sorted@;
            sorted.insert(entries[i].0.clone(), entries[i].1.clone());
            assert(sorted@ == before.insert(entries@[i as int].0@, entries@[i as int].1));
            i = i + 1;
        }
        let ghost pairs = sorted.pairs().map_values(|p: (Seq<char>, String)| (p.0, p.1@));
        proof {
            sorted.lemma_pairs();
            assert forall|i: int| 0 <= i < pairs.len() implies want.contains_key(
                (#[trigger] pairs[i]).0,
            ) && want[pairs[i].0] == pairs[i].1 by {
                assert(sorted@.dom().contains(sorted.pairs()[i].0));
            }
            assert forall|k: Seq<char>| #[trigger] want.contains_key(k) implies exists|i: int|
                0 <= i < pairs.len() && (#[trigger] pairs[i]).0 == k by {
                let j = choose|j: int| 0 <= j < entries@.len() && (#[trigger] entries@[j]).0@ == k;
                assert(sorted@.dom().contains(entries@[j].0@));
                let i = choose|i: int|
                    0 <= i < sorted.pairs().len() && (#[trigger] sorted.pairs()[i]).0 == k;
                assert(pairs[i].0 == k);
            }
            assert forall|i: int, j: int| 0 <= i < j < pairs.len() implies text_lt(
                (#[trigger] pairs[i]).0,
                (#[trigger] pairs[j]).0,
            ) by {
                assert(text_lt(sorted.pairs()[i].0, sorted.pairs()[j].0));
            }
            assert(in_order(pairs, want));
        }
        let mut out = "{".to_owned();
        let mut i: usize = 0;
        assert(pairs.take(0) =~= Seq::<(Seq<char>, Seq<char>)>::empty());
        assert(out@ =~= "{"@ + settings_text(pairs.take(0)));
        while i < sorted.len()
            invariant
                i <= pairs.len(),
                pairs == sorted.pairs().map_values(|p: (Seq<char>, String)| (p.0, p.1@)),
                out@ == "{"@ + settings_text(pairs.take(i as int)),
            decreases pairs.len() - i,
        {
            if i > 0 {
                out.append(",");
            }
            let key = json_quote(sorted.key_at(i).as_str());
            out.append(key.as_str());
            out.append(":");
            out.append(sorted.value_at(i).as_str());
            proof {
                let more = pairs.take(i + 1);
                assert(more.drop_last() =~= pairs.take(i as int));
                assert(more.last() == pairs[i as int]);
                assert(out@ =~= "{"@ + settings_text(more));
            }
            i = i + 1;
        }
        assert(pairs.take(i as int) =~= pairs);
        out.append("}");
        assert(out@ == "{"@ + settings_text(pairs) + "}"@);
        out
    }
}

/// Whether a block answers `r` to bytes that it was given to import, and is then `after`.
pub open spec fn answers_import(
    before: BlockDoc,
    bytes: Seq<u8>,
    after: BlockDoc,
    r: CoreResult<ImportResult>,
) -> bool {
    &&& after.wf()
    &&& after.same_block(&before)
    &&& after.root() == imported_root(before.doc(), bytes, root_name())
    &&& doc_version(after.doc()) == imported_version(before.doc(), bytes)
    &&& doc_has(before.doc(), bytes) && prompt(before.doc()) ==> after.root() == before.root()
    &&& doc_pristine(before.doc()) && is_snapshot(bytes) ==> r is Ok
    &&& doc_pristine(before.doc()) && is_snapshot(bytes) && snapshot_whole(bytes) ==> {
        &&& after.root() == snapshot_root(bytes, root_name())
        &&& doc_version(after.doc()) == snapshot_version(bytes)
        &&& doc_ops(after.doc()) == snapshot_ops(bytes)
        &&& doc_whole(after.doc())
        &&& settled(after.doc())
    }
    &&& match r {
        Ok(res) => {
            &&& import_accepted(before.doc(), bytes)
            &&& res.new_frontier.wf()
            &&& res.new_frontier@ == frontier_of(doc_version(after.doc()))
            &&& res.changed == (res.new_frontier@ != frontier_of(doc_version(before.doc())))
            &&& takes_in(before.doc(), after.doc(), bytes)
            &&& doc_has(after.doc(), bytes)
            &&& doc_has(before.doc(), bytes) && prompt(before.doc()) ==> !res.changed
        },
        Err(e) => !import_accepted(before.doc(), bytes) && is_crdt_error(e, "导入失败: "@),
    }
}

/// Whether a block answers `r` when it takes in the changes of `other` beyond `since`, and is then
/// `after`.
pub open spec fn answers_pull(
    before: BlockDoc,
    other: BlockDoc,
    since: Frontier,
    after: BlockDoc,
    r: CoreResult<ImportResult>,
) -> bool {
    match export_fault(LoroExport::UpdatesSince(&since)) {
        Some(f) => r is Err && is_frontier_error(r->Err_0, f) && after == before,
        None => if granted(LoroExport::UpdatesSince(&since), other.doc()) {
            exists|bytes: Seq<u8>| #[trigger]
                exported(LoroExport::UpdatesSince(&since), other.doc(), bytes)
                    && answers_import(before, bytes, after, r)
        } else {
            r is Err && is_export_error(r->Err_0) && after == before
        },
    }
}

/// A block made from a snapshot of a block holds the same and has come as far. So does a new one
/// that takes the snapshot in, where it has the whole history.
pub proof fn law_snapshot_restores_block(block: BlockDoc, bytes: Seq<u8>)
    requires
        block.wf(),
        exported(LoroExport::Snapshot, block.doc(), bytes),
    ensures
        is_snapshot(bytes),
        snapshot_root(bytes, root_name()) == block.root(),
        snapshot_version(bytes) == doc_version(block.doc()),
        snapshot_ops(bytes) == doc_ops(block.doc()),
        snapshot_whole(bytes) == doc_whole(block.doc()),
        bytes_sound(bytes),
{
}

/// A block made from a block with part of its history left out holds the same and has come as far:
/// a new device is up to date with it.
pub proof fn law_shallow_snapshot_restores_block(block: BlockDoc, at: &Frontier, bytes: Seq<u8>)
    requires
        block.wf(),
        exported(LoroExport::ShallowSnapshot(at), block.doc(), bytes),
    ensures
        is_snapshot(bytes),
        snapshot_root(bytes, root_name()) == block.root(),
        snapshot_version(bytes) == doc_version(block.doc()),
        bytes_sound(bytes),
{
}

/// Whether `after` is `before` once it has taken bytes in.
pub open spec fn imported(before: BlockDoc, after: BlockDoc, bytes: Seq<u8>) -> bool {
    before.wf() && after.wf() && after.same_block(&before) && takes_in(
        before.doc(),
        after.doc(),
        bytes,
    )
}

/// A replica that has nothing of its own, and takes in the changes that it lacks, holds what the
/// other one holds, and has come as far.
pub proof fn law_delta_brings_up_to_date(
    source: BlockDoc,
    since: &Frontier,
    bytes: Seq<u8>,
    before: BlockDoc,
    after: BlockDoc,
)
    requires
        source.wf(),
        exported(LoroExport::UpdatesSince(since), source.doc(), bytes),
        awaits(before.doc(), source.doc(), since),
        doc_ops(before.doc()).subset_of(doc_ops(source.doc())),
        imported(before, after, bytes),
    ensures
        after.root() == source.root(),
        doc_version(after.doc()) == doc_version(source.doc()),
        doc_ops(after.doc()) == doc_ops(source.doc()),
{
    law_changes_are_added(source.doc(), since, bytes, before.doc(), after.doc());
    assert(doc_ops(before.doc()).union(doc_ops(source.doc())) =~= doc_given(source.doc()));
}

/// Two replicas that were changed apart from each other, and take in each other's changes, hold
/// the same, and have come equally far.
pub proof fn law_replicas_converge(
    a: BlockDoc,
    a_since: &Frontier,
    a_bytes: Seq<u8>,
    a_after: BlockDoc,
    b: BlockDoc,
    b_since: &Frontier,
    b_bytes: Seq<u8>,
    b_after: BlockDoc,
)
    requires
        exported(LoroExport::UpdatesSince(a_since), a.doc(), a_bytes),
        exported(LoroExport::UpdatesSince(b_since), b.doc(), b_bytes),
        awaits(a.doc(), b.doc(), b_since),
        awaits(b.doc(), a.doc(), a_since),
        imported(a, a_after, b_bytes),
        imported(b, b_after, a_bytes),
    ensures
        a_after.root() == b_after.root(),
        doc_version(a_after.doc()) == doc_version(b_after.doc()),
        doc_given(a_after.doc()) == doc_ops(a.doc()).union(doc_ops(b.doc())),
{
    law_changes_are_added(b.doc(), b_since, b_bytes, a.doc(), a_after.doc());
    law_changes_are_added(a.doc(), a_since, a_bytes, b.doc(), b_after.doc());
    assert(doc_given(a_after.doc()) =~= doc_given(b_after.doc()));
}

/// In whichever order a block takes in the changes of others, it holds the same, and has come as
/// far.
pub proof fn law_order_of_changes_is_free(
    start: BlockDoc,
    first: Seq<u8>,
    second: Seq<u8>,
    one: BlockDoc,
    one_then_other: BlockDoc,
    other: BlockDoc,
    other_then_one: BlockDoc,
)
    requires
        doc_whole(start.doc()),
        prompt(start.doc()),
        carried_ops(first) is Some,
        carried_ops(second) is Some,
        distinct_ids(
            doc_given(start.doc()).union(carried_ops(first)->Some_0).union(
                carried_ops(second)->Some_0,
            ),
        ),
        imported(start, one, first),
        imported(one, one_then_other, second),
        imported(start, other, second),
        imported(other, other_then_one, first),
    ensures
        one_then_other.root() == other_then_one.root(),
        doc_version(one_then_other.doc()) == doc_version(other_then_one.doc()),
{
    let c = carried_ops(first)->Some_0;
    let d = carried_ops(second)->Some_0;
    let g = doc_given(start.doc());
    assert(g.union(d).union(c) =~= g.union(c).union(d));
    lemma_fewer_are_distinct(g.union(c), g.union(c).union(d));
    lemma_fewer_are_distinct(g.union(d), g.union(c).union(d));
    assert(doc_given(one_then_other.doc()) =~= doc_given(other_then_one.doc()));
}

proof fn lemma_fewer_are_distinct(few: Set<Operation>, many: Set<Operation>)
    requires
        few.subset_of(many),
        distinct_ids(many),
    ensures
        distinct_ids(few),
{
}

/// A replica that took in a snapshot of a block takes in, whatever is changed in the block
/// afterwards, the changes since then.
pub proof fn law_changes_follow_snapshot(
    source: BlockDoc,
    snapshot: Seq<u8>,
    since: &Frontier,
    later: BlockDoc,
    replica: BlockDoc,
)
    requires
        source.wf(),
        doc_whole(source.doc()),
        names_ops(source.doc()),
        exported(LoroExport::Snapshot, source.doc(), snapshot),
        since.wf(),
        since@ == frontier_of(doc_version(source.doc())),
        forall|p: u64| #[trigger]
            doc_version(source.doc()).contains_key(p) ==> 0 <= doc_version(source.doc())[p]
                < i32::MAX,
        grew(source.doc(), later.doc()),
        doc_ops(replica.doc()) == snapshot_ops(snapshot),
        doc_whole(replica.doc()) == snapshot_whole(snapshot),
        settled(source.doc()),
        settled(replica.doc()),
        distinct_ids(doc_ops(source.doc())),
    ensures
        awaits(replica.doc(), later.doc(), since),
        doc_ops(replica.doc()).subset_of(doc_ops(later.doc())),
{
    law_frontier_covers_the_past(source.doc(), later.doc(), since);
    assert(doc_given(later.doc()) =~= doc_ops(later.doc()));
    let all = doc_ops(replica.doc()).union(doc_ops(later.doc()));
    assert(all =~= doc_ops(later.doc()));
    assert(distinct_ids(all));
}

/// Edits of a text block add up: it shows them in the order in which they were made.
pub proof fn law_text_edits_add_up(
    root: Root,
    a: Seq<u8>,
    mid: Root,
    b: Seq<u8>,
    after: Root,
    text: Seq<char>,
)
    requires
        edited(BlockKind::Text, root, a, mid),
        edited(BlockKind::Text, mid, b, after),
        shown(BlockKind::Text, after, text),
    ensures
        text == root.text + decode_utf8(a) + decode_utf8(b),
{
}

proof fn lemma_no_values(items: Seq<Option<Seq<char>>>)
    requires
        no_values(items),
    ensures
        values_text(items) == Seq::<char>::empty(),
    decreases items.len(),
{
    if items.len() > 0 {
        assert(items[items.len() - 1] is None);
        let front = items.drop_last();
        assert forall|i: int| 0 <= i < front.len() implies #[trigger] front[i] is None by {
            assert(items[i] is None);
        }
        lemma_no_values(front);
    }
}

/// A to-do block and a log block are shown as a JSON array with one element for each item that is a
/// value, in the order of the items.
pub proof fn law_list_shows_every_value(block: &BlockDoc, r: CoreResult<Vec<u8>>)
    requires
        call_ensures(BlockDoc::export_render_bytes, (block,), r),
        block.the_kind() is Todo || block.the_kind() is Log,
    ensures
        r is Ok,
        decode_utf8(r->Ok_0@) == seq!['['] + comma_joined(
            block.root().list.filter(|item: Option<Seq<char>>| item is Some).map_values(
                |item: Option<Seq<char>>| item->Some_0,
            ),
        ) + seq![']'],
{
    lemma_values_are_joined(block.root().list);
    reveal_strlit("[");
    reveal_strlit("]");
    assert("["@ =~= seq!['[']);
    assert("]"@ =~= seq![']']);
}

proof fn lemma_values_are_joined(items: Seq<Option<Seq<char>>>)
    ensures
        values_text(items) == comma_joined(
            items.filter(|item: Option<Seq<char>>| item is Some).map_values(
                |item: Option<Seq<char>>| item->Some_0,
            ),
        ),
        no_values(items) <==> items.filter(|item: Option<Seq<char>>| item is Some).len() == 0,
    decreases items.len(),
{
    let is_value = |item: Option<Seq<char>>| item is Some;
    let value = |item: Option<Seq<char>>| item->Some_0;
    reveal(Seq::filter);
    if items.len() > 0 {
        let front = items.drop_last();
        lemma_values_are_joined(front);
        let before = front.filter(is_value);
        assert(forall|i: int| 0 <= i < front.len() ==> front[i] == items[i]);
        if no_values(items) {
            assert(no_values(front)) by {
                assert forall|i: int| 0 <= i < front.len() implies #[trigger] front[i] is None by {
                    assert(items[i] is None);
                }
            }
            assert(items[items.len() - 1] is None);
        }
        match items.last() {
            None => {
                if no_values(front) {
                    assert forall|i: int| 0 <= i < items.len() implies #[trigger] items[i] is None by {
                        if i < front.len() {
                            assert(front[i] is None);
                        }
                    }
                }
            },
            Some(v) => {
                assert(!(items[items.len() - 1] is None));
                let all = before.push(Some(v));
                assert(items.filter(is_value) =~= all);
                assert(all.map_values(value) =~= before.map_values(value).push(v));
                lemma_joined_push(before.map_values(value), v);
                reveal_strlit(",");
                assert(","@ =~= seq![',']);
            },
        }
    } else {
        assert(items.filter(is_value).map_values(value) =~= Seq::<Seq<char>>::empty());
    }
}

/// A value that is added to a to-do block or a log block is shown behind all that was shown before.
pub proof fn law_added_value_is_shown_last(
    block: &mut BlockDoc,
    edit: &[u8],
    r: CoreResult<ApplyResult>,
    before: CoreResult<Vec<u8>>,
    after: CoreResult<Vec<u8>>,
)
    requires
        old(block).the_kind() is Todo || old(block).the_kind() is Log,
        call_ensures(BlockDoc::apply_edit, (block, edit), r),
        r is Ok,
        call_ensures(BlockDoc::export_render_bytes, (&*old(block),), before),
        call_ensures(BlockDoc::export_render_bytes, (&*final(block),), after),
    ensures
        before is Ok,
        after is Ok,
        kept_json(decode_utf8(edit@)) is Some,
        ({
            let shown_before = decode_utf8(before->Ok_0@);
            let shown_after = decode_utf8(after->Ok_0@);
            let value = kept_json(decode_utf8(edit@))->Some_0;
            if forall|i: int|
                0 <= i < old(block).root().list.len() ==> #[trigger] old(block).root().list[i]
                    is None {
                shown_before == seq!['[', ']'] && shown_after == seq!['['] + value + seq![']']
            } else {
                shown_after == shown_before.drop_last() + seq![','] + value + seq![']']
            }
        }),
{
    let list = old(block).root().list;
    let value = kept_json(decode_utf8(edit@));
    let is_value = |item: Option<Seq<char>>| item is Some;
    let text = |item: Option<Seq<char>>| item->Some_0;
    law_list_shows_every_value(&*old(block), before);
    law_list_shows_every_value(&*final(block), after);
    lemma_values_are_joined(list);
    let values = list.filter(is_value).map_values(text);
    assert(list.push(value).filter(is_value) == list.filter(is_value).push(value)) by {
        reveal(Seq::filter);
        assert(list.push(value).drop_last() =~= list);
    }
    assert(list.filter(is_value).push(value).map_values(text) =~= values.push(value->Some_0));
    lemma_joined_push(values, value->Some_0);
    let shown_before = decode_utf8(before->Ok_0@);
    assert(shown_before.drop_last() =~= seq!['['] + comma_joined(values));
    if values.len() == 0 {
        assert(shown_before =~= seq!['[', ']']);
    }
    assert(decode_utf8(after->Ok_0@) =~= if values.len() == 0 {
        seq!['['] + value->Some_0 + seq![']']
    } else {
        shown_before.drop_last() + seq![','] + value->Some_0 + seq![']']
    });
}

/// What is added to a text block is shown behind what was shown before.
pub proof fn law_added_text_is_shown_last(
    block: &mut BlockDoc,
    edit: &[u8],
    r: CoreResult<ApplyResult>,
    before: CoreResult<Vec<u8>>,
    after: CoreResult<Vec<u8>>,
)
    requires
        old(block).the_kind() is Text,
        call_ensures(BlockDoc::apply_edit, (block, edit), r),
        call_ensures(BlockDoc::export_render_bytes, (&*old(block),), before),
        call_ensures(BlockDoc::export_render_bytes, (&*final(block),), after),
    ensures
        r is Ok <==> valid_utf8(edit@),
        before is Ok,
        after is Ok,
        r is Ok ==> decode_utf8(after->Ok_0@) == decode_utf8(before->Ok_0@) + decode_utf8(edit@),
        r is Err ==> decode_utf8(after->Ok_0@) == decode_utf8(before->Ok_0@),
{
}

/// A new block shows nothing: no text, no values, no settings.
pub proof fn law_new_block_shows_nothing(
    block_id: BlockId,
    kind: BlockKind,
    peer_id: &PeerId,
    made: CoreResult<BlockDoc>,
    r: CoreResult<Vec<u8>>,
)
    requires
        call_ensures(BlockDoc::new, (block_id, kind, peer_id), made),
        made matches Ok(block) && call_ensures(BlockDoc::export_render_bytes, (&block,), r),
    ensures
        r is Ok,
        decode_utf8(r->Ok_0@) == (match kind {
            BlockKind::Text => Seq::<char>::empty(),
            BlockKind::Todo | BlockKind::Log => seq!['[', ']'],
            BlockKind::Settings => seq!['{', '}'],
        }),
{
    let block = made->Ok_0;
    let text = decode_utf8(r->Ok_0@);
    if kind is Todo || kind is Log {
        law_list_shows_every_value(&block, r);
        lemma_values_are_joined(block.root().list);
        assert(text =~= seq!['[', ']']);
    }
    if kind is Settings {
        let pairs = choose|pairs: Seq<(Seq<char>, Seq<char>)>|
            in_order(pairs, block.root().map) && text == "{"@ + #[trigger] settings_text(pairs)
                + "}"@;
        if pairs.len() > 0 {
            assert(block.root().map.contains_key(pairs[0].0));
        }
        reveal_strlit("{");
        reveal_strlit("}");
        assert(text =~= seq!['{', '}']);
    }
}

/// Names as JSON, each with a colon and its value behind it.
pub open spec fn named_entries(
    names: Seq<Seq<char>>,
    values: Map<Seq<char>, Seq<char>>,
) -> Seq<Seq<char>> {
    Seq::new(names.len(), |i: int| json_quoted(names[i]) + seq![':'] + values[names[i]])
}

/// A settings block is shown as a JSON object that has each setting once, by the order of the names.
pub proof fn law_settings_show_every_entry(block: &BlockDoc, r: CoreResult<Vec<u8>>)
    requires
        call_ensures(BlockDoc::export_render_bytes, (block,), r),
        block.the_kind() is Settings,
    ensures
        r is Ok,
        exists|names: Seq<Seq<char>>|
            {
                &&& forall|k: Seq<char>|
                    block.root().map.contains_key(k) <==> #[trigger] names.contains(k)
                &&& forall|i: int, j: int|
                    0 <= i < j < names.len() ==> text_lt(#[trigger] names[i], #[trigger] names[j])
                &&& decode_utf8(r->Ok_0@) == seq!['{'] + comma_joined(
                    #[trigger] named_entries(names, block.root().map),
                ) + seq!['}']
            },
{
    let m = block.root().map;
    let text = decode_utf8(r->Ok_0@);
    let pairs = choose|pairs: Seq<(Seq<char>, Seq<char>)>|
        in_order(pairs, m) && text == "{"@ + #[trigger] settings_text(pairs) + "}"@;
    let names = pairs.map_values(|p: (Seq<char>, Seq<char>)| p.0);
    lemma_settings_are_joined(pairs);
    let entries = pairs.map_values(
        |p: (Seq<char>, Seq<char>)| json_quoted(p.0) + seq![':'] + p.1,
    );
    assert(named_entries(names, m) =~= entries);
    reveal_strlit("{");
    reveal_strlit("}");
    assert("{"@ =~= seq!['{']);
    assert("}"@ =~= seq!['}']);
    assert forall|k: Seq<char>| m.contains_key(k) <==> #[trigger] names.contains(k) by {
        if m.contains_key(k) {
            let i = choose|i: int| 0 <= i < pairs.len() && (#[trigger] pairs[i]).0 == k;
            assert(names[i] == k);
        }
        if names.contains(k) {
            let i = choose|i: int| 0 <= i < names.len() && names[i] == k;
            assert(pairs[i].0 == k);
        }
    }
    assert forall|i: int, j: int| 0 <= i < j < names.len() implies text_lt(
        #[trigger] names[i],
        #[trigger] names[j],
    ) by {
        assert(text_lt(pairs[i].0, pairs[j].0));
    }
}

proof fn lemma_settings_are_joined(pairs: Seq<(Seq<char>, Seq<char>)>)
    ensures
        settings_text(pairs) == comma_joined(
            pairs.map_values(|p: (Seq<char>, Seq<char>)| json_quoted(p.0) + seq![':'] + p.1),
        ),
    decreases pairs.len(),
{
    let entry = |p: (Seq<char>, Seq<char>)| json_quoted(p.0) + seq![':'] + p.1;
    reveal_strlit(",");
    reveal_strlit(":");
    assert(","@ =~= seq![',']);
    assert(":"@ =~= seq![':']);
    if pairs.len() > 0 {
        let front = pairs.drop_last();
        lemma_settings_are_joined(front);
        assert(pairs.map_values(entry) =~= front.map_values(entry).push(entry(pairs.last())));
        lemma_joined_push(front.map_values(entry), entry(pairs.last()));
    }
}

/// An edit of a settings block sets each name of the object to the value that the object gives it last,
/// or leaves an equal one, and touches no other setting.
pub proof fn law_settings_are_set(
    block: &mut BlockDoc,
    edit: &[u8],
    r: CoreResult<ApplyResult>,
    name: Seq<char>,
)
    requires
        old(block).the_kind() is Settings,
        call_ensures(BlockDoc::apply_edit, (block, edit), r),
        r is Ok,
    ensures
        json_members_of(decode_utf8(edit@)) is Some,
        ({
            let members = json_members_of(decode_utf8(edit@))->Some_0;
            let before = old(block).root().map;
            let after = final(block).root().map;
            &&& (forall|i: int| 0 <= i < members.len() ==> (#[trigger] members[i]).0 != name) ==> (
            before.contains_key(name) <==> after.contains_key(name)) && (before.contains_key(name)
                ==> after[name] == before[name])
            &&& forall|i: int|
                #![trigger members[i]]
                0 <= i < members.len() && members[i].0 == name && (forall|j: int|
                    i < j < members.len() ==> (#[trigger] members[j]).0 != name)
                    ==> after.contains_key(name) && (Some(after[name]) == kept_json(members[i].1)
                    || equal_in_docs(after[name], kept_json(members[i].1)->Some_0))
        }),
{
    let members = json_members_of(decode_utf8(edit@))->Some_0;
    let before = old(block).root().map;
    let after = final(block).root().map;
    if forall|i: int| 0 <= i < members.len() ==> (#[trigger] members[i]).0 != name {
        lemma_not_named(before, members, after, name);
    }
    assert forall|i: int|
        #![trigger members[i]]
        0 <= i < members.len() && members[i].0 == name && (forall|j: int|
            i < j < members.len() ==> (#[trigger] members[j]).0 != name) implies after.contains_key(
        name,
    ) && (Some(after[name]) == kept_json(members[i].1) || equal_in_docs(
        after[name],
        kept_json(members[i].1)->Some_0,
    )) by {
        assert(settable(members[i]));
        lemma_last_named(before, members, after, name, i);
    }
}

proof fn lemma_not_named(
    m: Map<Seq<char>, Seq<char>>,
    pairs: Seq<(Seq<char>, Seq<char>)>,
    after: Map<Seq<char>, Seq<char>>,
    name: Seq<char>,
)
    requires
        all_set(m, pairs, after),
        forall|i: int| 0 <= i < pairs.len() ==> (#[trigger] pairs[i]).0 != name,
    ensures
        m.contains_key(name) <==> after.contains_key(name),
        m.contains_key(name) ==> after[name] == m[name],
    decreases pairs.len(),
{
    if pairs.len() > 0 {
        let front = pairs.drop_last();
        let mid = choose|mid: Map<Seq<char>, Seq<char>>|
            all_set(m, front, mid) && #[trigger] was_set(mid, pairs.last(), after);
        assert(pairs[pairs.len() - 1].0 != name);
        assert forall|i: int| 0 <= i < front.len() implies (#[trigger] front[i]).0 != name by {
            assert(pairs[i].0 != name);
        }
        lemma_not_named(m, front, mid, name);
    }
}

proof fn lemma_last_named(
    m: Map<Seq<char>, Seq<char>>,
    pairs: Seq<(Seq<char>, Seq<char>)>,
    after: Map<Seq<char>, Seq<char>>,
    name: Seq<char>,
    i: int,
)
    requires
        all_set(m, pairs, after),
        0 <= i < pairs.len(),
        pairs[i].0 == name,
        forall|j: int| i < j < pairs.len() ==> (#[trigger] pairs[j]).0 != name,
    ensures
        after.contains_key(name),
        after[name] == kept_json(pairs[i].1)->Some_0 || equal_in_docs(
            after[name],
            kept_json(pairs[i].1)->Some_0,
        ),
    decreases pairs.len(),
{
    let n = pairs.len() - 1;
    let front = pairs.drop_last();
    let mid = choose|mid: Map<Seq<char>, Seq<char>>|
        all_set(m, front, mid) && #[trigger] was_set(mid, pairs.last(), after);
    if i < n {
        assert(pairs[n].0 != name);
        assert forall|j: int| i < j < front.len() implies (#[trigger] front[j]).0 != name by {
            assert(pairs[j].0 != name);
        }
        lemma_last_named(m, front, mid, name, i);
    }
}

/// Setting whether a to-do is completed changes that to-do only: it is completed or not as was asked, it
/// stays where it is, and the others stay as they are.
pub proof fn law_todo_is_ticked(
    block: &mut BlockDoc,
    index: usize,
    completed: bool,
    r: CoreResult<()>,
)
    requires
        call_ensures(BlockDoc::apply_todo_update, (block, index, completed), r),
    ensures
        index >= old(block).root().list.len() ==> r is Err,
        r is Ok ==> {
            let before = old(block).root().list;
            let after = final(block).root().list;
            &&& index < before.len()
            &&& after.len() == before.len()
            &&& after[index as int] is Some
            &&& json_flag_at(after[index as int]->Some_0, "completed"@) == Some(completed)
            &&& forall|i: int| 0 <= i < before.len() && i != index ==> after[i] == #[trigger] before[i]
        },
        r is Ok ==> final(block).root().text == old(block).root().text && final(block).root().map
            == old(block).root().map,
        final(block).id() == old(block).id() && final(block).the_kind() == old(block).the_kind(),
{
}

/// An edit that is refused changes nothing, but that of several settings those before the first bad one
/// are kept. An edit that succeeds is reported with how far the block has come.
pub proof fn law_refused_edit_changes_nothing(
    block: &mut BlockDoc,
    edit: &[u8],
    r: CoreResult<ApplyResult>,
    frontier: CoreResult<Frontier>,
)
    requires
        call_ensures(BlockDoc::apply_edit, (block, edit), r),
        call_ensures(BlockDoc::frontier, (&*final(block),), frontier),
    ensures
        r is Err && !(old(block).the_kind() is Settings) ==> final(block).root() == old(block).root(),
        !valid_utf8(edit@) ==> r is Err && final(block).root() == old(block).root(),
        frontier is Ok,
        r matches Ok(res) ==> res.has_delta && res.new_frontier@ == frontier->Ok_0@,
        final(block).id() == old(block).id() && final(block).the_kind() == old(block).the_kind()
            && final(block).peer() == old(block).peer(),
{
}

/// A block that is made from what another one exported, whole or with part of its history left out,
/// holds what that one held, and has come as far.
pub proof fn law_exported_block_is_restored(
    block: &BlockDoc,
    at: &Frontier,
    bytes: CoreResult<Vec<u8>>,
    snapshot: &[u8],
    block_id: BlockId,
    kind: BlockKind,
    peer_id: &PeerId,
    made: CoreResult<BlockDoc>,
    here: CoreResult<Frontier>,
    there: CoreResult<Frontier>,
)
    requires
        block.wf(),
        call_ensures(BlockDoc::export_snapshot, (block,), bytes) || call_ensures(
            BlockDoc::export_shallow_snapshot,
            (block, at),
            bytes,
        ),
        bytes matches Ok(b) && b@ == snapshot@,
        call_ensures(BlockDoc::from_snapshot, (block_id, kind, peer_id, snapshot), made),
        made matches Ok(copy) ==> call_ensures(BlockDoc::frontier, (&copy,), there),
        call_ensures(BlockDoc::frontier, (block,), here),
    ensures
        made matches Ok(copy) ==> {
            &&& copy.root() == block.root()
            &&& copy.id() == block_id
            &&& copy.the_kind() == kind
            &&& copy.peer() == *peer_id
            &&& here is Ok && there is Ok && there->Ok_0@ == here->Ok_0@
        },
        made is Err ==> (match peer_number(peer_id@) {
            None => true,
            Some(n) => n == u64::MAX,
        }),
{
}

/// A new block that takes in the whole export of another one holds what that one held, and has come as
/// far.
pub proof fn law_new_block_takes_an_export_in(
    block: &BlockDoc,
    bytes: CoreResult<Vec<u8>>,
    snapshot: &[u8],
    block_id: BlockId,
    kind: BlockKind,
    peer_id: &PeerId,
    made: CoreResult<BlockDoc>,
    copy: &mut BlockDoc,
    r: CoreResult<ImportResult>,
)
    requires
        block.wf(),
        doc_whole(block.doc()),
        call_ensures(BlockDoc::export_snapshot, (block,), bytes),
        bytes matches Ok(b) && b@ == snapshot@,
        call_ensures(BlockDoc::new, (block_id, kind, peer_id), made),
        made == Ok::<BlockDoc, CoreError>(*old(copy)),
        call_ensures(BlockDoc::import, (copy, snapshot), r),
    ensures
        r is Ok,
        final(copy).root() == block.root(),
        doc_version(final(copy).doc()) == doc_version(block.doc()),
        r->Ok_0.new_frontier@ == frontier_of(doc_version(block.doc())),
{
}

/// Bytes that were taken in once change nothing the second time.
pub proof fn law_second_import_changes_nothing(
    first: &mut BlockDoc,
    second: &mut BlockDoc,
    bytes: &[u8],
    once: CoreResult<ImportResult>,
    twice: CoreResult<ImportResult>,
)
    requires
        prompt(old(first).doc()),
        call_ensures(BlockDoc::import, (first, bytes), once),
        once is Ok,
        *old(second) == *final(first),
        call_ensures(BlockDoc::import, (second, bytes), twice),
    ensures
        final(second).root() == final(first).root(),
        twice matches Ok(res) ==> !res.changed && res.new_frontier@ == once->Ok_0.new_frontier@,
{
}

/// A replica that was made of a block, and pulls what the block came to by edits since, holds what the
/// block holds, and has come as far.
pub proof fn law_replica_pulls_what_is_new(
    block: BlockDoc,
    peer_id: &PeerId,
    made: CoreResult<BlockDoc>,
    known: CoreResult<Frontier>,
    later: &BlockDoc,
    replica: &mut BlockDoc,
    r: CoreResult<ImportResult>,
)
    requires
        block.wf(),
        later.wf(),
        doc_whole(block.doc()),
        settled(block.doc()),
        distinct_ids(doc_ops(block.doc())),
        call_ensures(BlockDoc::frontier, (&block,), known),
        forall|p: u64| #[trigger]
            doc_version(block.doc()).contains_key(p) ==> 0 <= doc_version(block.doc())[p]
                < i32::MAX,
        call_ensures(BlockDoc::replica, (&block, peer_id), made),
        made == Ok::<BlockDoc, CoreError>(*old(replica)),
        grew(block.doc(), later.doc()),
        call_ensures(BlockDoc::pull_from, (replica, later), r),
        r is Ok,
    ensures
        final(replica).root() == later.root(),
        doc_version(final(replica).doc()) == doc_version(later.doc()),
        doc_ops(final(replica).doc()) == doc_ops(later.doc()),
{
    let since = choose|since: Frontier|
        since.wf() && since@ == frontier_of(doc_version(old(replica).doc()))
            && #[trigger] answers_pull(*old(replica), *later, since, *final(replica), r);
    law_frontier_covers_the_past(block.doc(), later.doc(), &since);
    assert(doc_given(later.doc()) =~= doc_ops(later.doc()));
    let all = doc_ops(old(replica).doc()).union(doc_ops(later.doc()));
    assert(all =~= doc_ops(later.doc()));
    assert(distinct_ids(all));
    let bytes = choose|bytes: Seq<u8>| #[trigger]
        exported(LoroExport::UpdatesSince(&since), later.doc(), bytes) && answers_import(
            *old(replica),
            bytes,
            *final(replica),
            r,
        );
    law_delta_brings_up_to_date(*later, &since, bytes, *old(replica), *final(replica));
}

/// A replica that has nothing of its own and takes in what another one exports of its changes since a
/// frontier that the replica knows all of, holds what the other one holds, and has come as far.
pub proof fn law_delta_is_all_that_is_lacking(
    source: &BlockDoc,
    since: &Frontier,
    delta: CoreResult<Vec<u8>>,
    bytes: &[u8],
    replica: &mut BlockDoc,
    r: CoreResult<ImportResult>,
)
    requires
        source.wf(),
        old(replica).wf(),
        awaits(old(replica).doc(), source.doc(), since),
        doc_ops(old(replica).doc()).subset_of(doc_ops(source.doc())),
        call_ensures(BlockDoc::export_delta_since, (source, since), delta),
        delta matches Ok(b) && b@ == bytes@,
        call_ensures(BlockDoc::import, (replica, bytes), r),
        r is Ok,
    ensures
        final(replica).root() == source.root(),
        doc_version(final(replica).doc()) == doc_version(source.doc()),
        r->Ok_0.new_frontier@ == frontier_of(doc_version(source.doc())),
        r->Ok_0.changed <==> frontier_of(doc_version(source.doc())) != frontier_of(
            doc_version(old(replica).doc()),
        ),
        final(replica).id() == old(replica).id() && final(replica).the_kind() == old(replica).the_kind() && final(replica).peer() == old(replica).peer(),
{
    law_delta_brings_up_to_date(*source, since, bytes@, *old(replica), *final(replica));
}

/// Two replicas that were changed apart from each other and import what the other one exports of its changes
/// hold the same then, and have come equally far.
pub proof fn law_exchanged_deltas_converge(
    a: &mut BlockDoc,
    b: &mut BlockDoc,
    a_since: &Frontier,
    b_since: &Frontier,
    a_delta: CoreResult<Vec<u8>>,
    b_delta: CoreResult<Vec<u8>>,
    a_bytes: &[u8],
    b_bytes: &[u8],
    at_a: CoreResult<ImportResult>,
    at_b: CoreResult<ImportResult>,
)
    requires
        old(a).wf(),
        old(b).wf(),
        awaits(old(a).doc(), old(b).doc(), b_since),
        awaits(old(b).doc(), old(a).doc(), a_since),
        call_ensures(BlockDoc::export_delta_since, (&*old(a), a_since), a_delta),
        call_ensures(BlockDoc::export_delta_since, (&*old(b), b_since), b_delta),
        a_delta matches Ok(x) && x@ == a_bytes@,
        b_delta matches Ok(x) && x@ == b_bytes@,
        call_ensures(BlockDoc::import, (a, b_bytes), at_a),
        call_ensures(BlockDoc::import, (b, a_bytes), at_b),
        at_a is Ok && at_b is Ok,
    ensures
        final(a).root() == final(b).root(),
        at_a->Ok_0.new_frontier@ == at_b->Ok_0.new_frontier@,
{
    law_replicas_converge(
        *old(a),
        a_since,
        a_bytes@,
        *final(a),
        *old(b),
        b_since,
        b_bytes@,
        *final(b),
    );
}

/// A block tells what it was made of, and nothing that is done to it changes that.
pub proof fn law_block_tells_what_it_is(
    block_id: BlockId,
    kind: BlockKind,
    peer_id: &PeerId,
    made: CoreResult<BlockDoc>,
    block: &BlockDoc,
    id: &BlockId,
    told_kind: BlockKind,
    peer: &PeerId,
    number: String,
)
    requires
        call_ensures(BlockDoc::new, (block_id, kind, peer_id), made),
        made == Ok::<BlockDoc, CoreError>(*block),
        call_ensures(BlockDoc::block_id, (block,), id),
        call_ensures(BlockDoc::kind, (block,), told_kind),
        call_ensures(BlockDoc::peer_id, (block,), peer),
        call_ensures(BlockDoc::loro_peer_id_str, (block,), number),
    ensures
        *id == block_id,
        told_kind == kind,
        *peer == *peer_id,
        exists|n: u64| #[trigger] decimal(n as nat) == number@ && peer_number(peer_id@) == Some(n),
{
}

/// A block is made just where its peer is a number, and not the largest one, which is reserved.
pub proof fn law_block_needs_a_peer_number(
    block_id: BlockId,
    kind: BlockKind,
    peer_id: &PeerId,
    r: CoreResult<BlockDoc>,
    number: CoreResult<u64>,
    text: &str,
)
    requires
        call_ensures(BlockDoc::new, (block_id, kind, peer_id), r),
        text@ == peer_id@,
        call_ensures(parse_peer_id, (text,), number),
    ensures
        r is Ok <==> (number matches Ok(n) && n < u64::MAX),
        number is Err ==> (r matches Err(e) && e is InvalidFrontier),
        number matches Ok(n) ==> (n == u64::MAX ==> (r matches Err(e) && e is Crdt)),
{
}

/// Ending a group of changes changes nothing that the block holds or how far it has come.
pub proof fn law_commit_changes_nothing(
    block: &mut BlockDoc,
    before: CoreResult<Frontier>,
    after: CoreResult<Frontier>,
)
    requires
        call_ensures(BlockDoc::commit, (block,), ()),
        call_ensures(BlockDoc::frontier, (&*old(block),), before),
        call_ensures(BlockDoc::frontier, (&*final(block),), after),
    ensures
        final(block).root() == old(block).root(),
        before is Ok && after is Ok && before->Ok_0@ == after->Ok_0@,
        final(block).id() == old(block).id() && final(block).the_kind() == old(block).the_kind(),
        doc_committed(final(block).doc()),
{
}

/// Edits of a to-do or log block that succeed add their values one behind the other: after any number of
/// them a new block has just these values, first to last.
pub proof fn law_list_edits_add_up(
    kind: BlockKind,
    roots: Seq<Root>,
    edits: Seq<Seq<u8>>,
    text: Seq<char>,
)
    requires
        kind is Todo || kind is Log,
        roots.len() == edits.len() + 1,
        roots[0].list.len() == 0,
        forall|i: int|
            0 <= i < edits.len() ==> edit_fits(kind, edits[i]) && #[trigger] edited(
                kind,
                roots[i],
                edits[i],
                roots[i + 1],
            ),
        shown(kind, roots.last(), text),
    ensures
        roots.last().list.len() == edits.len(),
        forall|i: int|
            0 <= i < edits.len() ==> #[trigger] roots.last().list[i] == kept_json(
                decode_utf8(edits[i]),
            ) && roots.last().list[i] is Some,
        text == seq!['['] + comma_joined(
            Seq::new(edits.len(), |i: int| kept_json(decode_utf8(edits[i]))->Some_0),
        ) + seq![']'],
{
    let n = edits.len() as int;
    lemma_edits_pile_up(kind, roots, edits, n);
    let list = roots.last().list;
    assert forall|i: int| 0 <= i < n implies #[trigger] list[i] == kept_json(decode_utf8(edits[i]))
        && list[i] is Some by {
        assert(edited(kind, roots[i], edits[i], roots[i + 1]));
    }
    let is_value = |item: Option<Seq<char>>| item is Some;
    let value = |item: Option<Seq<char>>| item->Some_0;
    lemma_filter_keeps_all(list);
    assert(list.map_values(value) =~= Seq::new(
        edits.len(),
        |i: int| kept_json(decode_utf8(edits[i]))->Some_0,
    ));
    lemma_values_are_joined(list);
    reveal_strlit("[");
    reveal_strlit("]");
    assert("["@ =~= seq!['[']);
    assert("]"@ =~= seq![']']);
}

proof fn lemma_edits_pile_up(kind: BlockKind, roots: Seq<Root>, edits: Seq<Seq<u8>>, n: int)
    requires
        kind is Todo || kind is Log,
        roots.len() == edits.len() + 1,
        roots[0].list.len() == 0,
        forall|i: int|
            0 <= i < edits.len() ==> #[trigger] edited(kind, roots[i], edits[i], roots[i + 1]),
        0 <= n <= edits.len(),
    ensures
        roots[n].list.len() == n,
        forall|i: int|
            0 <= i < n ==> #[trigger] roots[n].list[i] == kept_json(decode_utf8(edits[i])),
    decreases n,
{
    if n > 0 {
        let k = n - 1;
        lemma_edits_pile_up(kind, roots, edits, k);
        assert(edited(kind, roots[k], edits[k], roots[k + 1]));
        assert forall|i: int| 0 <= i < n implies #[trigger] roots[n].list[i] == kept_json(
            decode_utf8(edits[i]),
        ) by {
            if i < n - 1 {
                assert(roots[n].list[i] == roots[n - 1].list[i]);
            }
        }
    }
}

proof fn lemma_filter_keeps_all(items: Seq<Option<Seq<char>>>)
    requires
        forall|i: int| 0 <= i < items.len() ==> #[trigger] items[i] is Some,
    ensures
        items.filter(|item: Option<Seq<char>>| item is Some) == items,
    decreases items.len(),
{
    reveal(Seq::filter);
    if items.len() > 0 {
        let front = items.drop_last();
        assert forall|i: int| 0 <= i < front.len() implies #[trigger] front[i] is Some by {
            assert(items[i] is Some);
        }
        lemma_filter_keeps_all(front);
        assert(items[items.len() - 1] is Some);
        assert(front.push(items.last()) =~= items);
    } else {
        assert(items.filter(|item: Option<Seq<char>>| item is Some) =~= items);
    }
}

/// A block that pulls from another one takes in what that one exports beyond what it knows, loses nothing, and
/// tells whether that brought it further.
pub proof fn law_pull_takes_in_what_is_unknown(
    block: &mut BlockDoc,
    other: &BlockDoc,
    r: CoreResult<ImportResult>,
    known: CoreResult<Frontier>,
    frontier: CoreResult<Frontier>,
)
    requires
        old(block).wf(),
        other.wf(),
        call_ensures(BlockDoc::pull_from, (block, other), r),
        call_ensures(BlockDoc::frontier, (&*old(block),), known),
        call_ensures(BlockDoc::frontier, (&*final(block),), frontier),
    ensures
        final(block).id() == old(block).id() && final(block).the_kind() == old(block).the_kind()
            && final(block).peer() == old(block).peer(),
        r matches Ok(res) ==> frontier is Ok && known is Ok && res.new_frontier@
            == frontier->Ok_0@ && (res.changed <==> frontier->Ok_0@ != known->Ok_0@)
            && doc_ops(old(block).doc()).subset_of(doc_ops(final(block).doc())),
        r is Ok && doc_whole(old(block).doc()) && settled(old(block).doc()) && doc_whole(
            other.doc(),
        ) && distinct_ids(doc_ops(old(block).doc()).union(doc_ops(other.doc()))) ==> exists|
            since: Frontier,
        | #[trigger]
            since.wf() && since@ == known->Ok_0@ && forall|o: Operation| #[trigger]
            doc_given(final(block).doc()).contains(o) <==> doc_ops(old(block).doc()).contains(o)
                || (doc_ops(other.doc()).contains(o) && !crate::loro_doc::covered(
                crate::converter::ends_of(since.pairs()),
                o,
            )),
{
    let since = choose|since: Frontier|
        since.wf() && since@ == frontier_of(doc_version(old(block).doc()))
            && #[trigger] answers_pull(*old(block), *other, since, *final(block), r);
    if r is Ok {
        let bytes = choose|bytes: Seq<u8>| #[trigger]
            exported(LoroExport::UpdatesSince(&since), other.doc(), bytes) && answers_import(
                *old(block),
                bytes,
                *final(block),
                r,
            );
        if doc_whole(old(block).doc()) && settled(old(block).doc()) && doc_whole(other.doc())
            && distinct_ids(doc_ops(old(block).doc()).union(doc_ops(other.doc()))) {
            let c = carried_ops(bytes)->Some_0;
            let all = doc_ops(old(block).doc()).union(doc_ops(other.doc()));
            assert(doc_ops(old(block).doc()).union(c).subset_of(all));
            assert(distinct_ids(doc_given(old(block).doc()).union(c)));
            assert(since.wf());
        }
    }
}

/// An edit succeeds just where it can be made: a text block takes any text, a list any JSON value that can be
/// kept, and a settings block any JSON object whose values can all be kept.
pub proof fn law_edits_that_fit_succeed(
    block: &mut BlockDoc,
    edit: &[u8],
    r: CoreResult<ApplyResult>,
)
    requires
        call_ensures(BlockDoc::apply_edit, (block, edit), r),
    ensures
        old(block).the_kind() is Text ==> (r is Ok <==> valid_utf8(edit@)),
        old(block).the_kind() is Todo || old(block).the_kind() is Log ==> (r is Ok <==> valid_utf8(
            edit@,
        ) && kept_json(decode_utf8(edit@)) is Some && keeps_json(decode_utf8(edit@))),
        old(block).the_kind() is Settings ==> (r is Ok <==> valid_utf8(edit@) && (match json_members_of(
            decode_utf8(edit@),
        ) {
            Some(members) => forall|i: int|
                0 <= i < members.len() ==> kept_json((#[trigger] members[i]).1) is Some
                    && keeps_json(members[i].1),
            None => false,
        })),
        r matches Err(e) ==> e is Crdt,
{
    if old(block).the_kind() is Settings && valid_utf8(edit@) {
        let text = decode_utf8(edit@);
        match json_members_of(text) {
            Some(members) => {
                if r is Ok {
                    assert forall|i: int| 0 <= i < members.len() implies kept_json(
                        (#[trigger] members[i]).1,
                    ) is Some && keeps_json(members[i].1) by {
                        assert(settable(members[i]));
                    }
                } else {
                    let n = choose|n: int|
                        0 <= n < members.len() && !settable(#[trigger] members[n]);
                    assert(!(kept_json(members[n].1) is Some && keeps_json(members[n].1)));
                }
            },
            None => {},
        }
    }
}

/// A to-do is ticked just where it is there and is a JSON object that can be kept with the mark; it is then
/// what it was, with the mark set, as far as JSON is kept.
pub proof fn law_todo_that_is_there_is_ticked(
    block: &mut BlockDoc,
    index: usize,
    completed: bool,
    r: CoreResult<()>,
)
    requires
        call_ensures(BlockDoc::apply_todo_update, (block, index, completed), r),
    ensures
        ({
            let list = old(block).root().list;
            let there = index < list.len() && list[index as int] is Some;
            let marked = json_flagged(list[index as int]->Some_0, "completed"@, completed);
            &&& r is Ok <==> there && marked is Some && kept_json(marked->Some_0) is Some
                && keeps_json(marked->Some_0)
            &&& r is Ok ==> final(block).root().list[index as int] == kept_json(marked->Some_0)
            &&& r is Err && !(there && marked is Some && kept_json(marked->Some_0) is Some)
                ==> final(block).root() == old(block).root()
        }),
        r matches Err(e) ==> e is Crdt,
{
}

/// Bytes are imported just where the document accepts them, and a block is made from bytes only where they
/// are a snapshot.
pub proof fn law_bytes_are_refused_where_they_are_none(
    block: &mut BlockDoc,
    bytes: &[u8],
    r: CoreResult<ImportResult>,
    block_id: BlockId,
    kind: BlockKind,
    peer_id: &PeerId,
    made: CoreResult<BlockDoc>,
)
    requires
        call_ensures(BlockDoc::import, (block, bytes), r),
        call_ensures(BlockDoc::from_snapshot, (block_id, kind, peer_id, bytes), made),
    ensures
        r is Ok <==> import_accepted(old(block).doc(), bytes@),
        r matches Err(e) ==> e is Crdt,
        made is Ok ==> is_snapshot(bytes@),
        !is_snapshot(bytes@) ==> (made matches Err(e) && e is Crdt),
{
}

/// An export is had just where the document grants it, and, where a frontier is given, that is good.
pub proof fn law_block_exports_are_owed(
    block: &BlockDoc,
    f: &Frontier,
    vv: CoreResult<crate::loro_doc::VersionVector>,
    whole: CoreResult<Vec<u8>>,
    delta: CoreResult<Vec<u8>>,
    shallow: CoreResult<Vec<u8>>,
)
    requires
        call_ensures(crate::converter::frontier_to_vv, (f,), vv),
        call_ensures(BlockDoc::export_snapshot, (block,), whole),
        call_ensures(BlockDoc::export_delta_since, (block, f), delta),
        call_ensures(BlockDoc::export_shallow_snapshot, (block, f), shallow),
    ensures
        whole is Ok <==> crate::loro_doc::snapshot_granted(block.doc()),
        delta is Ok <==> vv is Ok && crate::loro_doc::updates_granted(
            block.doc(),
            crate::loro_doc::vector_ends(vv->Ok_0),
        ),
        shallow is Ok <==> vv is Ok && crate::loro_doc::shallow_granted(
            block.doc(),
            crate::loro_doc::last_ids(crate::loro_doc::vector_ends(vv->Ok_0)),
        ),
        whole matches Err(e) ==> e is Crdt,
{
}

} // verus!
