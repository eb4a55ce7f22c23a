//! How a snapshot is put in place of a document's last one.
//!
//! The snapshot is first written under a pending identifier and read back. Only when it reads
//! back as it was, and has the hash that it should have, does the document come to point to it.

use vstd::prelude::*;
use vstd::string::*;

use crate::dao::{is_store_error, DocRecord};
use crate::digest::{
    hex_bytes, hex_decode, hex_encode, is_hex, law_hex_roundtrip, sha256, sha256_digest,
};
use crate::error::{CoreError, CoreResult};
use crate::frontier::Frontier;
use crate::ids::{CheckpointId, DocId};
use crate::model::SnapshotKind;
use crate::octets::same_bytes;
use crate::text::{hex_chars, join2, same_text};

verus! {

/// What the identifiers of pending snapshots begin with.
pub open spec fn pending_prefix() -> Seq<char> {
    "__pending_"@
}

/// How a snapshot is to be written.
#[derive(Debug)]
pub struct InstallPlan {
    pub doc_id: DocId,
    /// The identifier that the snapshot is written under.
    pub pending_id: CheckpointId,
    pub kind: SnapshotKind,
}

/// The kind of snapshot that a text names: full, unless it names the shallow kind.
pub open spec fn install_kind(name: Seq<char>) -> SnapshotKind {
    if name == "Shallow"@ || name == "shallow"@ {
        SnapshotKind::Shallow
    } else {
        SnapshotKind::Full
    }
}

/// The hash in hexadecimal that names a snapshot: the one given, or that of the snapshot.
pub open spec fn install_hash(snapshot: Seq<u8>, state_hash: Seq<char>) -> Seq<char> {
    if state_hash.len() == 0 {
        hex_chars(sha256_digest(snapshot))
    } else {
        state_hash
    }
}

/// Whether a snapshot has the hash that it should have, if one is given.
pub open spec fn hash_fits(snapshot: Seq<u8>, state_hash: Seq<char>) -> bool {
    state_hash.len() == 0 || (is_hex(state_hash) && hex_bytes(state_hash) == sha256_digest(
        snapshot,
    ))
}

/// Whether a snapshot was read back as it is.
pub open spec fn read_back(snapshot: Seq<u8>, stored: Option<Vec<u8>>) -> bool {
    stored is Some && stored->Some_0@ == snapshot
}

/// The notation of a truth value.
pub open spec fn truth_text(b: bool) -> Seq<char> {
    if b {
        "true"@
    } else {
        "false"@
    }
}

/// What is said of a snapshot that does not hold.
pub open spec fn check_text(blob_ok: bool, hash_ok: bool) -> Seq<char> {
    "快照校验失败: blob_ok="@ + truth_text(blob_ok) + ", hash_ok="@ + truth_text(hash_ok)
}

/// How a snapshot is to be written. An empty one is refused.
pub fn plan_install(
    doc_id: &str,
    snapshot: &[u8],
    state_hash: &str,
    snapshot_kind: &str,
) -> (r: CoreResult<InstallPlan>)
    ensures
        match r {
            Ok(p) => {
                &&& snapshot@.len() > 0
                &&& p.doc_id@ == doc_id@
                &&& p.pending_id@ == pending_prefix() + install_hash(snapshot@, state_hash@)
                &&& p.kind == install_kind(snapshot_kind@)
            },
            Err(e) => snapshot@.len() == 0 && is_store_error(
                e,
                "install_snapshot_atomically: snapshot 不能为空"@,
            ),
        },
{
    if snapshot.len() == 0 {
        return Err(
            CoreError::Store("install_snapshot_atomically: snapshot 不能为空".to_owned()),
        );
    }
    let kind = if same_text(snapshot_kind, "Shallow") || same_text(snapshot_kind, "shallow") {
        SnapshotKind::Shallow
    } else {
        SnapshotKind::Full
    };
    let pending = if state_hash.unicode_len() == 0 {
        let digest = sha256(snapshot);
        let hash = hex_encode(digest.as_slice());
        join2("__pending_", hash.as_str())
    } else {
        join2("__pending_", state_hash)
    };
    Ok(InstallPlan { doc_id: DocId::new(doc_id), pending_id: CheckpointId(pending), kind })
}

/// Whether a snapshot has the hash that it should have, if one is given.
fn has_hash(snapshot: &[u8], state_hash: &str) -> (r: bool)
    ensures
        r == hash_fits(snapshot@, state_hash@),
{
    if state_hash.unicode_len() == 0 {
        return true;
    }
    let digest = sha256(snapshot);
    match hex_decode(state_hash) {
        Ok(expected) => same_bytes(digest.as_slice(), expected.as_slice()),
        Err(_) => false,
    }
}

/// Whether what was read back holds: it is the snapshot, and has the hash that it should have.
pub fn check_install(snapshot: &[u8], stored: &Option<Vec<u8>>, state_hash: &str) -> (r: CoreResult<
    (),
>)
    ensures
        match r {
            Ok(_) => read_back(snapshot@, *stored) && hash_fits(snapshot@, state_hash@),
            Err(e) => {
                &&& !(read_back(snapshot@, *stored) && hash_fits(snapshot@, state_hash@))
                &&& is_store_error(
                    e,
                    check_text(read_back(snapshot@, *stored), hash_fits(snapshot@, state_hash@)),
                )
            },
        },
{
    let blob_ok = match stored {
        Some(blob) => same_bytes(blob.as_slice(), snapshot),
        None => false,
    };
    let hash_ok = has_hash(snapshot, state_hash);
    if blob_ok && hash_ok {
        return Ok(());
    }
    let mut text = "快照校验失败: blob_ok=".to_owned();
    text.append(
        if blob_ok {
            "true"
        } else {
            "false"
        },
    );
    text.append(", hash_ok=");
    text.append(
        if hash_ok {
            "true"
        } else {
            "false"
        },
    );
    Err(CoreError::Store(text))
}

/// The document once the snapshot is in place. A new document is a note.
pub fn installed_doc(
    plan: &InstallPlan,
    existing_kind: Option<String>,
    frontier: Frontier,
    now: i64,
) -> (r: DocRecord)
    ensures
        r.doc_id == plan.doc_id,
        r.kind@ == (match existing_kind {
            Some(kind) => kind@,
            None => "note"@,
        }),
        r.current_frontier == frontier,
        r.current_snapshot_id is Some,
        r.current_snapshot_id->Some_0@ == plan.pending_id@,
        r.updated_at == now,
{
    let kind = match existing_kind {
        Some(kind) => kind,
        None => "note".to_owned(),
    };
    DocRecord {
        doc_id: plan.doc_id.clone(),
        kind,
        current_frontier: frontier,
        current_snapshot_id: Some(plan.pending_id.0.clone()),
        updated_at: now,
    }
}

/// The snapshot that is deleted once another is in place: the document's last one, where its
/// identifier is a pending one and not the one of the snapshot that was put in place.
pub fn replaced_snapshot(latest: Option<CheckpointId>, pending_id: &CheckpointId) -> (r: Option<
    CheckpointId,
>)
    ensures
        r == (match latest {
            Some(id) => if pending_prefix().is_prefix_of(id@) && id@ != pending_id@ {
                Some(id)
            } else {
                None
            },
            None => None,
        }),
{
    match latest {
        Some(id) => {
            let text = id.as_str();
            if same_text(text, pending_id.as_str()) {
                return None;
            }
            proof {
                reveal_strlit("__pending_");
            }
            if text.unicode_len() < 10 {
                return None;
            }
            let head = text.substring_char(0, 10);
            assert(pending_prefix().len() == 10);
            if same_text(head, "__pending_") {
                assert(id@.subrange(0, 10) =~= id@.take(10));
                Some(id)
            } else {
                proof {
                    if pending_prefix().is_prefix_of(id@) {
                        assert(id@.subrange(0, 10) =~= pending_prefix());
                    }
                }
                None
            }
        },
        None => None,
    }
}

/// What is stored of a document's snapshots once one was written under `pending_id` and the
/// replaced one was deleted.
pub open spec fn after_install(
    stored: Map<Seq<char>, Seq<u8>>,
    pending_id: Seq<char>,
    snapshot: Seq<u8>,
    replaced: Option<CheckpointId>,
) -> Map<Seq<char>, Seq<u8>> {
    let written = stored.insert(pending_id, snapshot);
    match replaced {
        Some(id) => written.remove(id@),
        None => written,
    }
}

/// Whichever snapshot came before, the same one among them, the snapshot that the document points
/// to after an install is stored, and is the one that was installed. No snapshot but a pending
/// one is gone.
pub proof fn law_document_keeps_its_snapshot(
    stored: Map<Seq<char>, Seq<u8>>,
    latest: Option<CheckpointId>,
    plan: InstallPlan,
    snapshot: Seq<u8>,
    doc: DocRecord,
    replaced: Option<CheckpointId>,
    other: Seq<char>,
)
    requires
        doc.current_snapshot_id is Some,
        doc.current_snapshot_id->Some_0@ == plan.pending_id@,
        replaced == (match latest {
            Some(id) => if pending_prefix().is_prefix_of(id@) && id@ != plan.pending_id@ {
                Some(id)
            } else {
                None
            },
            None => None,
        }),
    ensures
        ({
            let after = after_install(stored, plan.pending_id@, snapshot, replaced);
            &&& after.contains_key(doc.current_snapshot_id->Some_0@)
            &&& after[doc.current_snapshot_id->Some_0@] == snapshot
            &&& stored.contains_key(other) && !pending_prefix().is_prefix_of(other) && other
                != plan.pending_id@ ==> after.contains_key(other) && after[other]
                == stored[other]
        }),
{
}

/// A snapshot that is read back as it was written is put in place, where no hash is asked for or
/// the one asked for is its own.
pub proof fn law_true_snapshot_is_installed(snapshot: Seq<u8>, stored: Vec<u8>, state_hash: Seq<char>)
    requires
        stored@ == snapshot,
        state_hash.len() == 0 || state_hash == hex_chars(sha256_digest(snapshot)),
    ensures
        read_back(snapshot, Some(stored)),
        hash_fits(snapshot, state_hash),
        install_hash(snapshot, state_hash) == hex_chars(sha256_digest(snapshot)),
{
    law_hex_roundtrip(sha256_digest(snapshot));
}

/// A snapshot that is not empty is planned under an identifier of its own, which is a pending one, for the
/// document that was named; shallow only where that is asked for. Without a hash given, it is named by
/// its own.
pub proof fn law_snapshot_is_written_as_pending(
    doc_id: &str,
    snapshot: &[u8],
    state_hash: &str,
    kind: &str,
    r: CoreResult<InstallPlan>,
)
    requires
        call_ensures(plan_install, (doc_id, snapshot, state_hash, kind), r),
    ensures
        r is Ok <==> snapshot@.len() > 0,
        r matches Err(e) ==> e is Store,
        r matches Ok(p) ==> {
            &&& p.doc_id@ == doc_id@
            &&& "__pending_"@.is_prefix_of(p.pending_id@)
            &&& state_hash@.len() > 0 ==> p.pending_id@ == "__pending_"@ + state_hash@
            &&& state_hash@.len() == 0 ==> p.pending_id@ == "__pending_"@ + hex_chars(
                sha256_digest(snapshot@),
            )
            &&& p.kind is Shallow <==> kind@ == "Shallow"@ || kind@ == "shallow"@
        },
{
    if r is Ok {
        let p = r->Ok_0;
        assert("__pending_"@ =~= p.pending_id@.take("__pending_"@.len() as int));
    }
}

/// A snapshot is put in place only where it was read back as it was written and has the hash that was
/// asked for; and then it is.
pub proof fn law_only_true_snapshots_are_installed(
    snapshot: &[u8],
    stored: &Option<Vec<u8>>,
    state_hash: &str,
    r: CoreResult<()>,
)
    requires
        call_ensures(check_install, (snapshot, stored, state_hash), r),
    ensures
        r is Ok ==> (*stored matches Some(bytes) && bytes@ == snapshot@),
        r is Ok && state_hash@.len() > 0 ==> is_hex(state_hash@) && hex_bytes(state_hash@)
            == sha256_digest(snapshot@),
        (*stored matches Some(bytes) && bytes@ == snapshot@) && (state_hash@.len() == 0
            || state_hash@ == hex_chars(sha256_digest(snapshot@))) ==> r is Ok,
        r matches Err(e) ==> e is Store,
{
    if (*stored matches Some(bytes) && bytes@ == snapshot@) && (state_hash@.len() == 0
        || state_hash@ == hex_chars(sha256_digest(snapshot@))) {
        law_true_snapshot_is_installed(snapshot@, stored->Some_0, state_hash@);
    }
}

/// The document comes to point to the snapshot that was planned, at the frontier and the time that were
/// given, and keeps its kind; a new one is a note. Of the snapshots before, only a pending one is deleted,
/// and never the one that was just put in place.
pub proof fn law_document_points_to_the_snapshot(
    plan: &InstallPlan,
    existing_kind: Option<String>,
    frontier: Frontier,
    now: i64,
    doc: DocRecord,
    latest: Option<CheckpointId>,
    replaced: Option<CheckpointId>,
)
    requires
        call_ensures(installed_doc, (plan, existing_kind, frontier, now), doc),
        call_ensures(replaced_snapshot, (latest, &plan.pending_id), replaced),
    ensures
        doc.doc_id == plan.doc_id,
        doc.current_snapshot_id matches Some(id) && id@ == plan.pending_id@,
        doc.current_frontier == frontier,
        doc.updated_at == now,
        existing_kind matches Some(kind) ==> doc.kind@ == kind@,
        existing_kind is None ==> doc.kind@ == "note"@,
        replaced matches Some(id) ==> Some(id) == latest && id@ != plan.pending_id@
            && "__pending_"@.is_prefix_of(id@),
        latest matches Some(id) ==> ("__pending_"@.is_prefix_of(id@) && id@ != plan.pending_id@
            ==> replaced is Some),
{
}

} // verus!
