//! Identifiers of devices, documents, blocks, checkpoints and sessions.

use vstd::prelude::*;

use crate::text::same_text;

verus! {

/// A device taking part in synchronisation.
#[derive(Debug, PartialEq, Eq, PartialOrd, Ord, Hash)]
pub struct PeerId(pub String);

impl View for PeerId {
    type V = Seq<char>;

    open spec fn view(&self) -> Seq<char> {
        self.0@
    }
}

impl Clone for PeerId {
    fn clone(&self) -> (r: Self)
        ensures
            r == *self,
    {
        PeerId(self.0.clone())
    }
}

impl PeerId {
    pub fn new(id: &str) -> (r: Self)
        ensures
            r@ == id@,
    {
        PeerId(id.to_owned())
    }

    pub fn as_str(&self) -> (r: &str)
        ensures
            r@ == self@,
    {
        self.0.as_str()
    }

    /// Whether both identifiers have the same text.
    pub fn same(&self, other: &PeerId) -> (r: bool)
        ensures
            r == (self@ == other@),
    {
        same_text(self.as_str(), other.as_str())
    }
}

/// A document.
#[derive(Debug, PartialEq, Eq, PartialOrd, Ord, Hash)]
pub struct DocId(pub String);

impl View for DocId {
    type V = Seq<char>;

    open spec fn view(&self) -> Seq<char> {
        self.0@
    }
}

impl Clone for DocId {
    fn clone(&self) -> (r: Self)
        ensures
            r == *self,
    {
        DocId(self.0.clone())
    }
}

impl DocId {
    pub fn new(id: &str) -> (r: Self)
        ensures
            r@ == id@,
    {
        DocId(id.to_owned())
    }

    pub fn as_str(&self) -> (r: &str)
        ensures
            r@ == self@,
    {
        self.0.as_str()
    }

    /// Whether both identifiers have the same text.
    pub fn same(&self, other: &DocId) -> (r: bool)
        ensures
            r == (self@ == other@),
    {
        same_text(self.as_str(), other.as_str())
    }
}

/// A block of a document.
#[derive(Debug, PartialEq, Eq, PartialOrd, Ord, Hash)]
pub struct BlockId(pub String);

impl View for BlockId {
    type V = Seq<char>;

    open spec fn view(&self) -> Seq<char> {
        self.0@
    }
}

impl Clone for BlockId {
    fn clone(&self) -> (r: Self)
        ensures
            r == *self,
    {
        BlockId(self.0.clone())
    }
}

impl BlockId {
    pub fn new(id: &str) -> (r: Self)
        ensures
            r@ == id@,
    {
        BlockId(id.to_owned())
    }

    pub fn as_str(&self) -> (r: &str)
        ensures
            r@ == self@,
    {
        self.0.as_str()
    }

    /// Whether both identifiers have the same text.
    pub fn same(&self, other: &BlockId) -> (r: bool)
        ensures
            r == (self@ == other@),
    {
        same_text(self.as_str(), other.as_str())
    }
}

/// A checkpoint (stored snapshot) of a document.
#[derive(Debug, PartialEq, Eq, PartialOrd, Ord, Hash)]
pub struct CheckpointId(pub String);

impl View for CheckpointId {
    type V = Seq<char>;

    open spec fn view(&self) -> Seq<char> {
        self.0@
    }
}

impl Clone for CheckpointId {
    fn clone(&self) -> (r: Self)
        ensures
            r == *self,
    {
        CheckpointId(self.0.clone())
    }
}

impl CheckpointId {
    pub fn new(id: &str) -> (r: Self)
        ensures
            r@ == id@,
    {
        CheckpointId(id.to_owned())
    }

    pub fn as_str(&self) -> (r: &str)
        ensures
            r@ == self@,
    {
        self.0.as_str()
    }

    /// Whether both identifiers have the same text.
    pub fn same(&self, other: &CheckpointId) -> (r: bool)
        ensures
            r == (self@ == other@),
    {
        same_text(self.as_str(), other.as_str())
    }
}

/// A transport session.
#[derive(Debug, Clone, Copy, PartialEq, Eq, PartialOrd, Ord, Hash, Structural)]
pub struct SessionId(pub u64);

impl SessionId {
    pub fn new(id: u64) -> (r: Self)
        ensures
            r == SessionId(id),
    {
        SessionId(id)
    }
}

/// An identifier has the text that it was made of, and two identifiers are the same just where their texts
/// are.
pub proof fn law_peers_are_told_apart(
    a: &str,
    b: &str,
    x: PeerId,
    y: PeerId,
    text: &str,
    same: bool,
)
    requires
        call_ensures(PeerId::new, (a,), x),
        call_ensures(PeerId::new, (b,), y),
        call_ensures(PeerId::as_str, (&x,), text),
        call_ensures(PeerId::same, (&x, &y), same),
    ensures
        text@ == a@,
        same <==> a@ == b@,
{
}

/// So it is of documents.
pub proof fn law_documents_are_told_apart(
    a: &str,
    b: &str,
    x: DocId,
    y: DocId,
    text: &str,
    same: bool,
)
    requires
        call_ensures(DocId::new, (a,), x),
        call_ensures(DocId::new, (b,), y),
        call_ensures(DocId::as_str, (&x,), text),
        call_ensures(DocId::same, (&x, &y), same),
    ensures
        text@ == a@,
        same <==> a@ == b@,
{
}

/// So it is of blocks.
pub proof fn law_blocks_are_told_apart(
    a: &str,
    b: &str,
    x: BlockId,
    y: BlockId,
    text: &str,
    same: bool,
)
    requires
        call_ensures(BlockId::new, (a,), x),
        call_ensures(BlockId::new, (b,), y),
        call_ensures(BlockId::as_str, (&x,), text),
        call_ensures(BlockId::same, (&x, &y), same),
    ensures
        text@ == a@,
        same <==> a@ == b@,
{
}

/// So it is of checkpoints.
pub proof fn law_checkpoints_are_told_apart(
    a: &str,
    b: &str,
    x: CheckpointId,
    y: CheckpointId,
    text: &str,
    same: bool,
)
    requires
        call_ensures(CheckpointId::new, (a,), x),
        call_ensures(CheckpointId::new, (b,), y),
        call_ensures(CheckpointId::as_str, (&x,), text),
        call_ensures(CheckpointId::same, (&x, &y), same),
    ensures
        text@ == a@,
        same <==> a@ == b@,
{
}

} // verus!
