//! Replicated documents.
//!
//! A document holds containers under names: a text, a list, a map and a list whose items can be
//! moved. What they hold is changed only by the functions here.

use loro::{ExportMode, Frontiers, LoroDoc, LoroValue, ValueOrContainer, ID};
use std::borrow::Cow;
use vstd::prelude::*;

use crate::json::json_flag_at;

verus! {

#[verifier::external_type_specification]
#[verifier::external_body]
pub struct ExLoroDoc(loro::LoroDoc);

/// Of each peer, how many of its operations are covered; a `loro::VersionVector`.
#[verifier::external_body]
pub struct VersionVector(loro::VersionVector);

#[verifier::external_type_specification]
#[verifier::external_body]
pub struct ExFrontiers(loro::Frontiers);

/// What a document holds under one name.
#[verifier::ext_equal]
pub struct Root {
    pub text: Seq<char>,
    /// The items of the list, each as JSON with the members of objects in order; nothing where an
    /// item is a container of its own.
    pub list: Seq<Option<Seq<char>>>,
    /// The values of the map, each as JSON with the members of objects in order.
    pub map: Map<Seq<char>, Seq<char>>,
    /// The items of the list whose items can be moved; nothing where an item is not a text.
    pub movable: Seq<Option<Seq<char>>>,
}

/// An operation: the peer that made it, its number among those of the peer, and what it does.
#[verifier::ext_equal]
pub struct Operation {
    pub peer: u64,
    pub counter: i32,
    pub change: Seq<u8>,
}

/// What a document holds under a name.
pub uninterp spec fn doc_root(doc: LoroDoc, name: Seq<char>) -> Root;

/// The last operations that a document's state contains: of each peer that made one of them, the
/// counter of the operation.
pub uninterp spec fn doc_version(doc: LoroDoc) -> Map<u64, i32>;

/// The peer in whose name a document's operations are made.
pub uninterp spec fn doc_peer(doc: LoroDoc) -> u64;

/// Whether a document takes edits: it commits by itself and shows its latest state.
pub uninterp spec fn doc_editable(doc: LoroDoc) -> bool;

/// The operations that a document's state contains, those before the start of its history too.
pub uninterp spec fn doc_ops(doc: LoroDoc) -> Set<Operation>;

/// The operations that a document made or was given: those in its state, and those that wait for
/// others that they rest on.
pub uninterp spec fn doc_given(doc: LoroDoc) -> Set<Operation>;

/// Whether each operation that waits in a document rests on one that its state lacks.
pub uninterp spec fn doc_prompt(doc: LoroDoc) -> bool;

/// Whether a document has its whole history.
pub uninterp spec fn doc_whole(doc: LoroDoc) -> bool;

/// Whether no group of operations is under way in a document: every operation that it made is
/// recorded in its history.
pub uninterp spec fn doc_committed(doc: LoroDoc) -> bool;

/// Whether nothing was put into a document yet.
pub uninterp spec fn doc_pristine(doc: LoroDoc) -> bool;

/// Whether every state that bytes hold can be read: a document that takes such bytes in, or is made
/// from them, can be read too. Bytes that were exported from such a document are so.
pub uninterp spec fn bytes_sound(bytes: Seq<u8>) -> bool;

/// Whether every state that a document holds can be read. States are read when they are first
/// needed, and one that was put together otherwise than by an export may turn out malformed then.
pub uninterp spec fn doc_sound(doc: LoroDoc) -> bool;

/// Whether a document takes these bytes in.
pub uninterp spec fn import_accepted(doc: LoroDoc, bytes: Seq<u8>) -> bool;

/// What a document holds under a name once it was given these bytes to import.
pub uninterp spec fn imported_root(doc: LoroDoc, bytes: Seq<u8>, name: Seq<char>) -> Root;

/// The last operations in a document once it was given these bytes to import.
pub uninterp spec fn imported_version(doc: LoroDoc, bytes: Seq<u8>) -> Map<u64, i32>;

/// Whether a document can be exported as a snapshot.
pub uninterp spec fn snapshot_granted(doc: LoroDoc) -> bool;

/// Whether the operations of a document beyond these ends can be exported.
pub uninterp spec fn updates_granted(doc: LoroDoc, ends: Map<u64, i32>) -> bool;

/// Whether a document can be exported with its history before these operations left out.
pub uninterp spec fn shallow_granted(doc: LoroDoc, ids: Map<u64, i32>) -> bool;

/// Whether a document has been given these bytes to import.
pub uninterp spec fn doc_has(doc: LoroDoc, bytes: Seq<u8>) -> bool;

/// Whether bytes are an export of the operations of a document beyond these ends.
pub uninterp spec fn doc_updates(doc: LoroDoc, ends: Map<u64, i32>, bytes: Seq<u8>) -> bool;

/// Whether bytes are an export of a document with its history before these operations left out.
pub uninterp spec fn doc_shallow(doc: LoroDoc, ids: Map<u64, i32>, bytes: Seq<u8>) -> bool;

/// Whether bytes are a snapshot of a document.
pub uninterp spec fn is_snapshot(bytes: Seq<u8>) -> bool;

/// The last operations in a document made from a snapshot.
pub uninterp spec fn snapshot_version(bytes: Seq<u8>) -> Map<u64, i32>;

/// The operations that bytes carry; nothing where they carry a state without its whole history.
pub uninterp spec fn carried_ops(bytes: Seq<u8>) -> Option<Set<Operation>>;

/// The operations in a document made from a snapshot.
pub uninterp spec fn snapshot_ops(bytes: Seq<u8>) -> Set<Operation>;

/// Whether a snapshot has the whole history.
pub uninterp spec fn snapshot_whole(bytes: Seq<u8>) -> bool;

/// What a document made from a snapshot holds under a name.
pub uninterp spec fn snapshot_root(bytes: Seq<u8>, name: Seq<char>) -> Root;

/// Of each peer, the end of the operations that a version vector covers.
pub uninterp spec fn vector_ends(vv: VersionVector) -> Map<u64, i32>;

/// The operations that frontiers name, as the peer and the counter of each.
pub uninterp spec fn frontiers_ids(f: Frontiers) -> Map<u64, i32>;

/// What becomes of a JSON text that is kept in a document and taken out again.
pub uninterp spec fn kept_json(json: Seq<char>) -> Option<Seq<char>>;

/// Whether a JSON text can be kept in a document.
pub uninterp spec fn keeps_json(json: Seq<char>) -> bool;

/// Whether a document may take the values that two JSON texts write for equal, so that one is not
/// put in place of the other.
pub uninterp spec fn equal_in_docs(a: Seq<char>, b: Seq<char>) -> bool;

/// Whether a name is one that any document can hold containers under.
pub open spec fn plain_name(name: Seq<char>) -> bool {
    name.len() > 0 && forall|i: int| 0 <= i < name.len() ==> 'a' <= #[trigger] name[i] <= 'z'
}

/// No operation of any peer.
pub open spec fn no_operations() -> Map<u64, i32> {
    Map::empty()
}

/// Nothing under a name.
pub open spec fn empty_root() -> Root {
    Root { text: Seq::empty(), list: Seq::empty(), map: Map::empty(), movable: Seq::empty() }
}

/// `s` with the item at `from` taken out and put in again at `to`.
pub open spec fn moved<A>(s: Seq<A>, from: int, to: int) -> Seq<A> {
    s.remove(from).insert(to, s[from])
}

/// `s` with `t` put in front of what is at `pos`.
pub open spec fn inserted(s: Seq<char>, pos: int, t: Seq<char>) -> Seq<char> {
    s.take(pos) + t + s.skip(pos)
}

/// An item that was read, taken as characters.
pub open spec fn item_view(r: Option<Option<String>>) -> Option<Option<Seq<char>>> {
    match r {
        None => None,
        Some(None) => Some(None),
        Some(Some(t)) => Some(Some(t@)),
    }
}

/// The item at `i`, where there is one.
pub open spec fn item_at<A>(s: Seq<A>, i: int) -> Option<A> {
    if 0 <= i < s.len() {
        Some(s[i])
    } else {
        None
    }
}

/// Whether `s` lists a map, each key once.
pub open spec fn lists(s: Seq<(u64, i32)>, m: Map<u64, i32>) -> bool {
    &&& forall|i: int|
        0 <= i < s.len() ==> m.contains_key((#[trigger] s[i]).0) && m[s[i].0] == s[i].1
    &&& forall|k: u64| #[trigger]
        m.contains_key(k) ==> exists|i: int| 0 <= i < s.len() && (#[trigger] s[i]).0 == k
    &&& forall|i: int, j: int|
        0 <= i < j < s.len() ==> (#[trigger] s[i]).0 != (#[trigger] s[j]).0
}

/// Whether `s` lists a map of texts, each key once.
pub open spec fn lists_texts(s: Seq<(String, String)>, m: Map<Seq<char>, Seq<char>>) -> bool {
    &&& forall|i: int|
        0 <= i < s.len() ==> m.contains_key((#[trigger] s[i]).0@) && m[s[i].0@] == s[i].1@
    &&& forall|k: Seq<char>| #[trigger]
        m.contains_key(k) ==> exists|i: int| 0 <= i < s.len() && (#[trigger] s[i]).0@ == k
}

/// The end of the operations of a peer whose last one has the counter `last`.
pub open spec fn end_after(last: i32) -> i32 {
    if last < 0 {
        0
    } else if last == i32::MAX {
        i32::MAX
    } else {
        (last + 1) as i32
    }
}

/// `ends` with the operations of `peer` covered up to the one with the counter `last`.
pub open spec fn with_last(ends: Map<u64, i32>, peer: u64, last: i32) -> Map<u64, i32> {
    if end_after(last) == 0 {
        ends.remove(peer)
    } else {
        ends.insert(peer, end_after(last))
    }
}

/// The last operations of what a version vector covers.
pub open spec fn last_ids(ends: Map<u64, i32>) -> Map<u64, i32> {
    Map::new(|p: u64| ends.contains_key(p) && ends[p] > 0, |p: u64| (ends[p] - 1) as i32)
}

/// Whether there is an operation of this peer with this counter.
pub open spec fn has_op(ops: Set<Operation>, peer: u64, counter: i32) -> bool {
    exists|o: Operation| #[trigger] ops.contains(o) && o.peer == peer && o.counter == counter
}

/// Whether the last operations in a document are among its operations.
pub open spec fn names_ops(doc: LoroDoc) -> bool {
    forall|p: u64| #[trigger]
        doc_version(doc).contains_key(p) ==> has_op(doc_ops(doc), p, doc_version(doc)[p])
}

/// Whether the same peer and counter never stand for two operations.
pub open spec fn one_history(x: Set<Operation>, y: Set<Operation>) -> bool {
    forall|p: Operation, q: Operation| #[trigger]
        x.contains(p) && #[trigger] y.contains(q) && p.peer == q.peer && p.counter == q.counter
            ==> p == q
}

/// Whether no two operations go by the same peer and counter.
pub open spec fn distinct_ids(ops: Set<Operation>) -> bool {
    one_history(ops, ops)
}

/// Whether ends cover an operation.
pub open spec fn covered(ends: Map<u64, i32>, o: Operation) -> bool {
    ends.contains_key(o.peer) && o.counter < ends[o.peer]
}

/// Those of `ops` that `ends` do not cover.
pub open spec fn ops_beyond(ops: Set<Operation>, ends: Map<u64, i32>) -> Set<Operation> {
    ops.filter(|o: Operation| !covered(ends, o))
}

/// Whether `known` has all of `ops` that `ends` cover.
pub open spec fn knows_up_to(
    known: Set<Operation>,
    ops: Set<Operation>,
    ends: Map<u64, i32>,
) -> bool {
    forall|o: Operation| #[trigger] ops.contains(o) && covered(ends, o) ==> known.contains(o)
}

/// Whether nothing that a document was given waits.
pub open spec fn settled(doc: LoroDoc) -> bool {
    doc_given(doc) == doc_ops(doc)
}

/// Whether no operation waits longer than it has to. A document that takes in changes while
/// nothing that it makes itself is waited for stays so.
pub open spec fn prompt(doc: LoroDoc) -> bool {
    settled(doc) || doc_prompt(doc)
}

/// Whether two documents have the same operations.
pub open spec fn same_history(a: LoroDoc, b: LoroDoc) -> bool {
    &&& doc_ops(a) == doc_ops(b)
    &&& doc_given(a) == doc_given(b)
    &&& doc_prompt(a) == doc_prompt(b)
    &&& doc_whole(a) == doc_whole(b)
}

/// Whether a document has come from another one by operations of its own peer only, each later
/// than all that the peer had made.
pub open spec fn grew(before: LoroDoc, after: LoroDoc) -> bool {
    &&& doc_ops(before).subset_of(doc_ops(after))
    &&& forall|o: Operation, q: Operation| #[trigger]
        doc_ops(after).contains(o) && !doc_ops(before).contains(o) && #[trigger] doc_ops(
            before,
        ).contains(q) && q.peer == o.peer ==> q.counter < o.counter
    &&& forall|o: Operation| #[trigger]
        doc_ops(after).contains(o) && !doc_ops(before).contains(o) ==> o.peer == doc_peer(before)
    &&& forall|o: Operation, q: Operation| #[trigger]
        doc_ops(after).contains(o) && !doc_ops(before).contains(o) && #[trigger] doc_ops(
            after,
        ).contains(q) && !doc_ops(before).contains(q) && q.counter == o.counter ==> q == o
    &&& forall|o: Operation| #[trigger]
        doc_given(after).contains(o) <==> doc_given(before).contains(o) || (doc_ops(
            after,
        ).contains(o) && !doc_ops(before).contains(o))
    &&& doc_whole(after) == doc_whole(before)
}

/// Whether two documents hold the same, and have come as far.
pub open spec fn same_contents(a: LoroDoc, b: LoroDoc) -> bool {
    &&& doc_ops(a) == doc_ops(b)
    &&& doc_version(a) == doc_version(b)
    &&& forall|name: Seq<char>| #[trigger] doc_root(a, name) == doc_root(b, name)
}

/// Whether a document has come from another one by taking bytes in.
///
/// None of its operations is lost, and those that the bytes carry are added, unless two of them
/// all go by the same peer and counter. What waited for one of them waits no more. What a document
/// holds, where no operation waits longer than it has to, rests on the operations that it was
/// given, and not on the way they came.
pub open spec fn takes_in(before: LoroDoc, after: LoroDoc, bytes: Seq<u8>) -> bool {
    &&& doc_ops(before).subset_of(doc_ops(after))
    &&& match carried_ops(bytes) {
        Some(c) => doc_whole(before) && distinct_ids(doc_given(before).union(c)) ==> doc_given(
            after,
        ) == doc_given(before).union(c) && doc_whole(after),
        None => true,
    }
    &&& prompt(before) ==> doc_prompt(after)
    &&& forall|a: LoroDoc|
        doc_editable(a) && doc_editable(after) && doc_whole(a) && doc_whole(after) && prompt(a)
            && prompt(after) && distinct_ids(doc_given(after)) && #[trigger] doc_given(a)
            == doc_given(after) ==> same_contents(a, after)
}

/// Operations of its own peer only, and later ones only, come to a document in two steps too.
pub proof fn lemma_grew_twice(a: LoroDoc, b: LoroDoc, c: LoroDoc)
    requires
        grew(a, b),
        grew(b, c),
        doc_peer(b) == doc_peer(a),
    ensures
        grew(a, c),
{
    assert forall|o: Operation, q: Operation| #[trigger]
        doc_ops(c).contains(o) && !doc_ops(a).contains(o) && #[trigger] doc_ops(a).contains(q)
            && q.peer == o.peer implies q.counter < o.counter by {
        assert(doc_ops(b).contains(q));
        if doc_ops(b).contains(o) {
            assert(q.counter < o.counter);
        }
    }
    assert forall|o: Operation| #[trigger]
        doc_given(c).contains(o) <==> doc_given(a).contains(o) || (doc_ops(c).contains(o)
            && !doc_ops(a).contains(o)) by {
        assert(doc_given(b).contains(o) <==> doc_given(a).contains(o) || (doc_ops(b).contains(o)
            && !doc_ops(a).contains(o)));
    }
}

/// Whether a document differs from another only in what it holds under `name`, which is `root`.
pub open spec fn root_became(before: LoroDoc, after: LoroDoc, name: Seq<char>, root: Root) -> bool {
    &&& doc_root(after, name) == root
    &&& doc_peer(after) == doc_peer(before)
    &&& doc_editable(after) == doc_editable(before)
    &&& doc_sound(after) == doc_sound(before)
    &&& grew(before, after)
}

/// Whether a document differs from another only in the movable list under `name`, which is
/// `items`.
pub open spec fn movable_became(
    before: LoroDoc,
    after: LoroDoc,
    name: Seq<char>,
    items: Seq<Option<Seq<char>>>,
) -> bool {
    root_became(before, after, name, Root { movable: items, ..doc_root(before, name) })
}

/// An empty document that takes edits. Calls `LoroDoc::new`; the peer is drawn at random.
#[verifier::external_body]
pub(crate) fn new_doc() -> (r: LoroDoc)
    ensures
        forall|name: Seq<char>| #[trigger] doc_root(r, name) == empty_root(),
        doc_version(r) == no_operations(),
        doc_ops(r) == Set::<Operation>::empty(),
        doc_editable(r),
        doc_sound(r),
        doc_pristine(r),
        doc_given(r) == Set::<Operation>::empty(),
        doc_whole(r),
{
    LoroDoc::new()
}

/// A document made from a snapshot.
///
/// Calls `LoroDoc::from_snapshot`, whose success is named by `is_snapshot`; what the document
/// holds is named by `snapshot_root`, how far it has come by `snapshot_version`, its operations by
/// `snapshot_ops`, and whether its history is whole by `snapshot_whole`. It takes edits. Bytes with
/// states that cannot be read are left out, since it may panic on them. What the text of an error
/// says is left unsaid.
#[verifier::external_body]
pub(crate) fn doc_from_snapshot(bytes: &[u8]) -> (r: Result<LoroDoc, String>)
    requires
        bytes_sound(bytes@),
    ensures
        (r is Ok) == is_snapshot(bytes@),
        r is Ok ==> forall|name: Seq<char>| #[trigger] doc_root(r->Ok_0, name) == snapshot_root(bytes@, name),
        r is Ok ==> doc_version(r->Ok_0) == snapshot_version(bytes@),
        r is Ok ==> doc_ops(r->Ok_0) == snapshot_ops(bytes@),
        r is Ok ==> doc_whole(r->Ok_0) == snapshot_whole(bytes@),
        r is Ok ==> doc_given(r->Ok_0) == snapshot_ops(bytes@),
        r is Ok ==> doc_editable(r->Ok_0),
        r is Ok ==> doc_sound(r->Ok_0),
{
    LoroDoc::from_snapshot(bytes).map_err(|e| e.to_string())
}

/// Makes `peer` the one in whose name operations are made.
///
/// Calls `LoroDoc::set_peer_id`, which refuses the largest number only. What the document holds
/// stays as it is.
#[verifier::external_body]
pub(crate) fn set_doc_peer(doc: &mut LoroDoc, peer: u64) -> (r: Result<(), String>)
    requires
        doc_editable(*old(doc)),
    ensures
        (r is Ok) == (peer != u64::MAX),
        r is Ok ==> doc_peer(*final(doc)) == peer,
        forall|name: Seq<char>| #[trigger] doc_root(*final(doc), name) == doc_root(*old(doc), name),
        doc_version(*final(doc)) == doc_version(*old(doc)),
        same_history(*final(doc), *old(doc)),
        doc_editable(*final(doc)),
        doc_pristine(*old(doc)) ==> doc_pristine(*final(doc)),
        doc_sound(*old(doc)) ==> doc_sound(*final(doc)),
{
    doc.set_peer_id(peer).map_err(|e| e.to_string())
}

/// The peer in whose name operations are made. Calls `LoroDoc::peer_id`.
#[verifier::external_body]
pub(crate) fn peer_of_doc(doc: &LoroDoc) -> (r: u64)
    ensures
        r == doc_peer(*doc),
{
    doc.peer_id()
}

/// The last operations in the document's state. Calls `LoroDoc::state_frontiers`. They are among
/// the document's operations.
#[verifier::external_body]
pub(crate) fn state_frontiers(doc: &LoroDoc) -> (r: Frontiers)
    ensures
        frontiers_ids(r) == doc_version(*doc),
        forall|p: u64| #[trigger] frontiers_ids(r).contains_key(p) ==> has_op(doc_ops(*doc), p, frontiers_ids(r)[p]),
{
    doc.state_frontiers()
}

/// Ends the group of operations under way. Calls `LoroDoc::commit`, which records the operations
/// of the group in the history and begins an empty one; `LoroDoc::get_pending_txn_len` is zero
/// afterwards, which is named by `doc_committed`. Nothing that the document holds changes.
#[verifier::external_body]
pub(crate) fn commit_doc(doc: &mut LoroDoc)
    ensures
        doc_committed(*final(doc)),
        forall|name: Seq<char>| #[trigger] doc_root(*final(doc), name) == doc_root(*old(doc), name),
        doc_version(*final(doc)) == doc_version(*old(doc)),
        same_history(*final(doc), *old(doc)),
        doc_peer(*final(doc)) == doc_peer(*old(doc)),
        doc_editable(*old(doc)) ==> doc_editable(*final(doc)),
        doc_sound(*old(doc)) ==> doc_sound(*final(doc)),
{
    doc.commit()
}

/// Takes in what another replica exported.
///
/// Calls `LoroDoc::import`, whose success is named by `import_accepted`; what the document holds
/// afterwards is named by `imported_root`, and how far it has come by `imported_version`.
/// Operations that are known are left out, so that bytes imported before change nothing, where no
/// operation waits longer than it has to. A document that nothing was put into yet takes every
/// snapshot, and holds then what a document made from it holds, where the snapshot has the whole
/// history; whether one without takes effect is left unsaid, since that rests on what the document
/// was asked before. No operation is lost. The
/// operations that the bytes carry are added; those that rest on others wait for them, and are
/// taken in as soon as an import brings what they wait for; an operation that the document makes
/// itself does not release them. Documents that were given the same operations hold the same, in
/// whichever order they came, where none waits longer than it has to. What operations that were
/// made apart from each other come to is left unsaid.
#[verifier::external_body]
pub(crate) fn import_into(doc: &mut LoroDoc, bytes: &[u8]) -> (r: Result<(), String>)
    requires
        doc_sound(*old(doc)),
        bytes_sound(bytes@),
    ensures
        (r is Ok) == import_accepted(*old(doc), bytes@),
        forall|name: Seq<char>| #[trigger] doc_root(*final(doc), name) == imported_root(*old(doc), bytes@, name),
        doc_version(*final(doc)) == imported_version(*old(doc), bytes@),
        doc_pristine(*old(doc)) && is_snapshot(bytes@) ==> r is Ok,
        doc_pristine(*old(doc)) && is_snapshot(bytes@) && snapshot_whole(bytes@) ==> forall|name: Seq<char>| #[trigger] doc_root(*final(doc), name) == snapshot_root(bytes@, name),
        doc_pristine(*old(doc)) && is_snapshot(bytes@) && snapshot_whole(bytes@) ==> doc_version(*final(doc)) == snapshot_version(bytes@),
        doc_pristine(*old(doc)) && is_snapshot(bytes@) && snapshot_whole(bytes@) ==> doc_ops(*final(doc)) == snapshot_ops(bytes@),
        doc_pristine(*old(doc)) && is_snapshot(bytes@) && snapshot_whole(bytes@) ==> doc_whole(*final(doc)),
        doc_pristine(*old(doc)) && is_snapshot(bytes@) && snapshot_whole(bytes@) ==> doc_given(*final(doc)) == snapshot_ops(bytes@),
        r is Ok ==> takes_in(*old(doc), *final(doc), bytes@),
        r is Ok && prompt(*old(doc)) ==> doc_prompt(*final(doc)),
        r is Ok ==> doc_has(*final(doc), bytes@),
        doc_has(*old(doc), bytes@) && prompt(*old(doc)) ==> doc_version(*final(doc)) == doc_version(*old(doc)),
        doc_has(*old(doc), bytes@) && prompt(*old(doc)) ==> forall|name: Seq<char>| #[trigger] doc_root(*final(doc), name) == doc_root(*old(doc), name),
        doc_peer(*final(doc)) == doc_peer(*old(doc)),
        doc_editable(*old(doc)) ==> doc_editable(*final(doc)),
        doc_sound(*final(doc)),
{
    doc.import(bytes).map(|_| ()).map_err(|e| e.to_string())
}

/// A snapshot of the document, with its whole history.
///
/// Calls `LoroDoc::export` with `ExportMode::Snapshot`, whose success is named by
/// `snapshot_granted`. A document made from the snapshot of one that shows its latest state holds
/// what that one holds, has come as far, and has the same operations and as much history. All that
/// the bytes hold can be read.
#[verifier::external_body]
pub(crate) fn export_snapshot_of(doc: &LoroDoc) -> (r: Result<Vec<u8>, String>)
    requires
        doc_sound(*doc),
    ensures
        (r is Ok) == snapshot_granted(*doc),
        r is Ok ==> bytes_sound(r->Ok_0@),
        r is Ok ==> is_snapshot(r->Ok_0@),
        r is Ok && doc_editable(*doc) ==> forall|name: Seq<char>| #[trigger] snapshot_root(r->Ok_0@, name) == doc_root(*doc, name),
        r is Ok && doc_editable(*doc) ==> snapshot_version(r->Ok_0@) == doc_version(*doc),
        r is Ok && doc_editable(*doc) ==> snapshot_ops(r->Ok_0@) == doc_ops(*doc),
        r is Ok && doc_editable(*doc) ==> snapshot_whole(r->Ok_0@) == doc_whole(*doc),
        r is Ok && doc_editable(*doc) && doc_whole(*doc) ==> carried_ops(r->Ok_0@) == Some(doc_ops(*doc)),
{
    doc.export(ExportMode::Snapshot).map_err(|e| e.to_string())
}

/// The operations of the document that `vv` does not cover.
///
/// Calls `LoroDoc::export` with `ExportMode::Updates`, whose success is named by
/// `updates_granted`. That the bytes come from this document and these ends is named by
/// `doc_updates`. They carry the operations that `vv` does not cover, where the document has its
/// whole history; no two operations of a document go by the same peer and counter.
#[verifier::external_body]
pub(crate) fn export_updates_of(doc: &LoroDoc, vv: VersionVector) -> (r: Result<Vec<u8>, String>)
    requires
        doc_sound(*doc),
    ensures
        (r is Ok) == updates_granted(*doc, vector_ends(vv)),
        r is Ok ==> bytes_sound(r->Ok_0@),
        r is Ok ==> doc_updates(*doc, vector_ends(vv), r->Ok_0@),
        r is Ok && doc_editable(*doc) && doc_whole(*doc) ==> carried_ops(r->Ok_0@) == Some(ops_beyond(doc_ops(*doc), vector_ends(vv))),
        r is Ok && doc_editable(*doc) && doc_whole(*doc) ==> one_history(doc_ops(*doc), carried_ops(r->Ok_0@)->Some_0),
{
    doc.export(ExportMode::Updates { from: Cow::Owned(vv.0) }).map_err(|e| e.to_string())
}

/// The document with its history before `at` left out.
///
/// Calls `LoroDoc::export` with `ExportMode::ShallowSnapshot`, whose success is named by
/// `shallow_granted`. That the bytes come from this document and these operations is named by
/// `doc_shallow`. They are a snapshot too: a document made from it holds what this one holds, where
/// this one shows its latest state, and has come as far. How much history they hold is left unsaid.
#[verifier::external_body]
pub(crate) fn export_shallow_of(doc: &LoroDoc, at: Frontiers) -> (r: Result<Vec<u8>, String>)
    requires
        doc_sound(*doc),
    ensures
        (r is Ok) == shallow_granted(*doc, frontiers_ids(at)),
        r is Ok ==> bytes_sound(r->Ok_0@),
        r is Ok ==> doc_shallow(*doc, frontiers_ids(at), r->Ok_0@),
        r is Ok && doc_editable(*doc) ==> is_snapshot(r->Ok_0@),
        r is Ok && doc_editable(*doc) ==> forall|name: Seq<char>| #[trigger] snapshot_root(r->Ok_0@, name) == doc_root(*doc, name),
        r is Ok && doc_editable(*doc) ==> snapshot_version(r->Ok_0@) == doc_version(*doc),
{
    doc.export(ExportMode::ShallowSnapshot(Cow::Owned(at))).map_err(|e| e.to_string())
}

/// A version vector that covers nothing. Calls `VersionVector::new`.
#[verifier::external_body]
pub(crate) fn new_vector() -> (r: VersionVector)
    ensures
        vector_ends(r) == no_operations(),
{
    VersionVector(loro::VersionVector::new())
}

/// Covers the operations of `peer` up to the one with the counter `last`. Calls
/// `VersionVector::set_last`, which covers none of them where the counter is negative, and has
/// the largest number as the last end.
#[verifier::external_body]
pub(crate) fn set_vector_last(vv: &mut VersionVector, peer: u64, last: i32)
    ensures
        vector_ends(*final(vv)) == with_last(vector_ends(*old(vv)), peer, last),
{
    vv.0.set_last(ID::new(peer, last))
}

/// The last operations of what `vv` covers. Calls `VersionVector::get_frontiers`.
#[verifier::external_body]
pub(crate) fn frontiers_of_vector(vv: &VersionVector) -> (r: Frontiers)
    ensures
        frontiers_ids(r) == last_ids(vector_ends(*vv)),
{
    vv.0.get_frontiers()
}

/// The operations that `f` names. Calls `Frontiers::iter`; the order is left unsaid.
#[verifier::external_body]
pub(crate) fn ids_of_frontiers(f: &Frontiers) -> (r: Vec<(u64, i32)>)
    ensures
        lists(r@, frontiers_ids(*f)),
{
    f.iter().map(|id| (id.peer, id.counter)).collect()
}

/// How many items the movable list under `name` has. Calls `LoroMovableList::len`.
#[verifier::external_body]
pub(crate) fn movable_len(doc: &LoroDoc, name: &str) -> (r: usize)
    requires
        plain_name(name@),
        doc_sound(*doc),
    ensures
        r as nat == doc_root(*doc, name@).movable.len(),
{
    doc.get_movable_list(name).len()
}

/// The item at `i` of the movable list under `name`. Calls `LoroMovableList::get`.
#[verifier::external_body]
pub(crate) fn movable_item(doc: &LoroDoc, name: &str, i: usize) -> (r: Option<Option<String>>)
    requires
        plain_name(name@),
        doc_sound(*doc),
    ensures
        item_view(r) == item_at(doc_root(*doc, name@).movable, i as int),
{
    match doc.get_movable_list(name).get(i) {
        None => None,
        Some(ValueOrContainer::Value(LoroValue::String(s))) => Some(Some(s.to_string())),
        Some(_) => Some(None),
    }
}

/// Puts a text into the movable list under `name`, in front of what is at `pos`.
///
/// Calls `LoroMovableList::insert`, which refuses a position beyond the end only.
#[verifier::external_body]
pub(crate) fn movable_insert(doc: &mut LoroDoc, name: &str, pos: usize, text: &str) -> (r: Result<(), String>)
    requires
        plain_name(name@),
        doc_editable(*old(doc)),
        doc_sound(*old(doc)),
    ensures
        (r is Ok) == (pos <= doc_root(*old(doc), name@).movable.len()),
        r is Ok ==> movable_became(*old(doc), *final(doc), name@, doc_root(*old(doc), name@).movable.insert(pos as int, Some(text@))),
        r is Err ==> *final(doc) == *old(doc),
{
    doc.get_movable_list(name).insert(pos, text).map_err(|e| e.to_string())
}

/// Replaces the item at `i` of the movable list under `name`.
///
/// Calls `LoroMovableList::set`, which refuses a position at or beyond the end only.
#[verifier::external_body]
pub(crate) fn movable_set(doc: &mut LoroDoc, name: &str, i: usize, text: &str) -> (r: Result<(), String>)
    requires
        plain_name(name@),
        doc_editable(*old(doc)),
        doc_sound(*old(doc)),
    ensures
        (r is Ok) == (i < doc_root(*old(doc), name@).movable.len()),
        r is Ok ==> movable_became(*old(doc), *final(doc), name@, doc_root(*old(doc), name@).movable.update(i as int, Some(text@))),
        r is Err ==> *final(doc) == *old(doc),
{
    doc.get_movable_list(name).set(i, text).map_err(|e| e.to_string())
}

/// Takes the item at `i` out of the movable list under `name`. Calls `LoroMovableList::delete`
/// for one item.
#[verifier::external_body]
pub(crate) fn movable_delete(doc: &mut LoroDoc, name: &str, i: usize) -> (r: Result<(), String>)
    requires
        plain_name(name@),
        doc_editable(*old(doc)),
        doc_sound(*old(doc)),
        i < doc_root(*old(doc), name@).movable.len(),
    ensures
        r is Ok,
        movable_became(*old(doc), *final(doc), name@, doc_root(*old(doc), name@).movable.remove(i as int)),
{
    doc.get_movable_list(name).delete(i, 1).map_err(|e| e.to_string())
}

/// Moves the item at `from` of the movable list under `name`, so that it is at `to` afterwards.
///
/// Calls `LoroMovableList::mov`, which refuses positions at or beyond the end only.
#[verifier::external_body]
pub(crate) fn movable_move(doc: &mut LoroDoc, name: &str, from: usize, to: usize) -> (r: Result<(), String>)
    requires
        plain_name(name@),
        doc_editable(*old(doc)),
        doc_sound(*old(doc)),
        from < doc_root(*old(doc), name@).movable.len(),
        to < doc_root(*old(doc), name@).movable.len(),
    ensures
        r is Ok,
        movable_became(*old(doc), *final(doc), name@, moved(doc_root(*old(doc), name@).movable, from as int, to as int)),
{
    doc.get_movable_list(name).mov(from, to).map_err(|e| e.to_string())
}

/// How many characters the text under `name` has. Calls `LoroText::len_unicode`.
#[verifier::external_body]
pub(crate) fn text_len(doc: &LoroDoc, name: &str) -> (r: usize)
    requires
        plain_name(name@),
        doc_sound(*doc),
    ensures
        r as nat == doc_root(*doc, name@).text.len(),
{
    doc.get_text(name).len_unicode()
}

/// The text under `name`. Calls `LoroText::to_string`.
#[verifier::external_body]
pub(crate) fn text_of(doc: &LoroDoc, name: &str) -> (r: String)
    requires
        plain_name(name@),
        doc_sound(*doc),
    ensures
        r@ == doc_root(*doc, name@).text,
{
    doc.get_text(name).to_string()
}

/// Puts characters into the text under `name`, in front of the one at `pos`.
///
/// Calls `LoroText::insert`, which refuses a position beyond the end only.
#[verifier::external_body]
pub(crate) fn text_insert(doc: &mut LoroDoc, name: &str, pos: usize, s: &str) -> (r: Result<(), String>)
    requires
        plain_name(name@),
        doc_editable(*old(doc)),
        doc_sound(*old(doc)),
        pos <= doc_root(*old(doc), name@).text.len(),
    ensures
        r is Ok,
        root_became(*old(doc), *final(doc), name@, (Root { text: inserted(doc_root(*old(doc), name@).text, pos as int, s@), ..doc_root(*old(doc), name@) })),
{
    doc.get_text(name).insert(pos, s).map_err(|e| e.to_string())
}

/// What becomes of a JSON text in a document.
///
/// Calls `serde_json::from_str` for a `LoroValue` and writes that out with `serde_json::to_value`
/// and `serde_json::to_string`; the result is named by `kept_json`. Truth values of objects are
/// kept. What the text of an error says is left unsaid.
#[verifier::external_body]
pub(crate) fn json_kept(json: &str) -> (r: Result<String, String>)
    ensures
        (r is Ok) == (kept_json(json@) is Some),
        r is Ok ==> Some(r->Ok_0@) == kept_json(json@),
        r is Ok ==> forall|m: Seq<char>| json_flag_at(r->Ok_0@, m) == #[trigger] json_flag_at(json@, m),
{
    let value: LoroValue = serde_json::from_str(json).map_err(|e: serde_json::Error| e.to_string())?;
    let plain = serde_json::to_value(&value).map_err(|e| e.to_string())?;
    serde_json::to_string(&plain).map_err(|e| e.to_string())
}

/// How many items the list under `name` has. Calls `LoroList::len`.
#[verifier::external_body]
pub(crate) fn list_len(doc: &LoroDoc, name: &str) -> (r: usize)
    requires
        plain_name(name@),
        doc_sound(*doc),
    ensures
        r as nat == doc_root(*doc, name@).list.len(),
{
    doc.get_list(name).len()
}

/// The item at `i` of the list under `name`, as JSON. Calls `LoroList::get` and writes the value
/// out with `serde_json::to_value`, which puts the members of objects in order.
#[verifier::external_body]
pub(crate) fn list_item(doc: &LoroDoc, name: &str, i: usize) -> (r: Option<Option<String>>)
    requires
        plain_name(name@),
        doc_sound(*doc),
    ensures
        item_view(r) == item_at(doc_root(*doc, name@).list, i as int),
{
    match doc.get_list(name).get(i) {
        None => None,
        Some(ValueOrContainer::Value(v)) => Some(serde_json::to_value(&v).ok().map(|v| v.to_string())),
        Some(ValueOrContainer::Container(_)) => Some(None),
    }
}

/// Puts a JSON text into the list under `name`, in front of what is at `pos`.
///
/// Calls `LoroList::insert` on the value that the text writes. It refuses, besides positions
/// beyond the end, values that name containers; those are named by `keeps_json`.
#[verifier::external_body]
pub(crate) fn list_insert(doc: &mut LoroDoc, name: &str, pos: usize, json: &str) -> (r: Result<(), String>)
    requires
        plain_name(name@),
        doc_editable(*old(doc)),
        doc_sound(*old(doc)),
        kept_json(json@) is Some,
        pos <= doc_root(*old(doc), name@).list.len(),
    ensures
        (r is Ok) == keeps_json(json@),
        r is Ok ==> root_became(*old(doc), *final(doc), name@, (Root { list: doc_root(*old(doc), name@).list.insert(pos as int, kept_json(json@)), ..doc_root(*old(doc), name@) })),
        r is Err ==> *final(doc) == *old(doc),
{
    let value: LoroValue = serde_json::from_str(json).map_err(|e: serde_json::Error| e.to_string())?;
    doc.get_list(name).insert(pos, value).map_err(|e| e.to_string())
}

/// Takes the item at `i` out of the list under `name`. Calls `LoroList::delete` for one item.
#[verifier::external_body]
pub(crate) fn list_delete(doc: &mut LoroDoc, name: &str, i: usize) -> (r: Result<(), String>)
    requires
        plain_name(name@),
        doc_editable(*old(doc)),
        doc_sound(*old(doc)),
        i < doc_root(*old(doc), name@).list.len(),
    ensures
        r is Ok,
        root_became(*old(doc), *final(doc), name@, (Root { list: doc_root(*old(doc), name@).list.remove(i as int), ..doc_root(*old(doc), name@) })),
{
    doc.get_list(name).delete(i, 1).map_err(|e| e.to_string())
}

/// Sets a key of the map under `name` to the value that a JSON text writes.
///
/// Calls `LoroMap::insert`, which refuses values that name containers only, and does nothing
/// where the key has a value that it takes for equal, such as 0.0 for -0.0. Which texts write
/// such values is named by `equal_in_docs`; whether the old text stays is then left unsaid.
#[verifier::external_body]
pub(crate) fn map_insert(doc: &mut LoroDoc, name: &str, key: &str, json: &str) -> (r: Result<(), String>)
    requires
        plain_name(name@),
        doc_editable(*old(doc)),
        doc_sound(*old(doc)),
        kept_json(json@) is Some,
    ensures
        (r is Ok) == keeps_json(json@),
        r is Ok ==> root_became(*old(doc), *final(doc), name@, (Root { map: doc_root(*old(doc), name@).map.insert(key@, kept_json(json@)->Some_0), ..doc_root(*old(doc), name@) })) || (doc_root(*old(doc), name@).map.contains_key(key@) && equal_in_docs(doc_root(*old(doc), name@).map[key@], kept_json(json@)->Some_0) && root_became(*old(doc), *final(doc), name@, doc_root(*old(doc), name@))),
        r is Err ==> *final(doc) == *old(doc),
{
    let value: LoroValue = serde_json::from_str(json).map_err(|e: serde_json::Error| e.to_string())?;
    doc.get_map(name).insert(key, value).map_err(|e| e.to_string())
}

/// The keys and values of the map under `name`. Calls `LoroMap::get_value` and writes the values
/// out with `serde_json::to_value`, which puts the members of objects in order. In which order
/// the keys come is left unsaid.
#[verifier::external_body]
pub(crate) fn map_entries(doc: &LoroDoc, name: &str) -> (r: Vec<(String, String)>)
    requires
        plain_name(name@),
        doc_sound(*doc),
    ensures
        lists_texts(r@, doc_root(*doc, name@).map),
{
    match doc.get_map(name).get_value() {
        LoroValue::Map(m) => m.iter().map(|(k, v)| (k.to_string(), serde_json::to_value(v).unwrap_or_default().to_string())).collect(),
        _ => Vec::new(),
    }
}

} // verus!
