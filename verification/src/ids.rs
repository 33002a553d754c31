//! Identifiers of documents and blocks, and the changes a document goes
//! through.

use vstd::prelude::*;

verus! {

/// Document identifier.
#[derive(Debug, Clone, PartialEq, Eq, Hash, PartialOrd, Ord)]
pub struct DocId(pub String);

impl DocId {
    /// The identifier `id`.
    pub fn new(id: String) -> (r: Self)
        ensures
            r.0 == id,
    {
        DocId(id)
    }

    /// The identifier's text.
    pub fn as_str(&self) -> (r: &str)
        ensures
            r@ == self.0@,
    {
        self.0.as_str()
    }
}

/// Block identifier.
#[derive(Debug, Clone, Copy, PartialEq, Eq, Hash, PartialOrd, Ord, Structural)]
pub struct BlockId(pub u64);

impl BlockId {
    /// The block identifier `id`.
    pub fn new(id: u64) -> (r: Self)
        ensures
            r.0 == id,
    {
        BlockId(id)
    }

    /// The identifier's number.
    pub fn as_u64(&self) -> (r: u64)
        ensures
            r == self.0,
    {
        self.0
    }
}

impl From<u64> for BlockId {
    fn from(id: u64) -> (r: Self) {
        BlockId(id)
    }
}

impl vstd::std_specs::convert::FromSpecImpl<u64> for BlockId {
    open spec fn obeys_from_spec() -> bool {
        true
    }

    open spec fn from_spec(id: u64) -> Self {
        BlockId(id)
    }
}

impl From<BlockId> for u64 {
    fn from(id: BlockId) -> (r: Self) {
        id.0
    }
}

impl vstd::std_specs::convert::FromSpecImpl<BlockId> for u64 {
    open spec fn obeys_from_spec() -> bool {
        true
    }

    open spec fn from_spec(id: BlockId) -> Self {
        id.0
    }
}

/// A change to a document.
#[derive(Debug, Clone)]
pub enum DocChange {
    /// Text in a block changed.
    TextChanged { block_id: BlockId, start: usize, end: usize, new_text: String },
    /// A block moved.
    BlockMoved { block_id: BlockId, old_parent: BlockId, new_parent: BlockId, position: usize },
    /// A block was inserted.
    BlockInserted { block_id: BlockId, parent_id: BlockId, position: usize },
    /// A block was deleted.
    BlockDeleted { block_id: BlockId },
    /// A mark (formatting) changed.
    MarkChanged { block_id: BlockId, mark_type: String, start: usize, end: usize },
}

/// Converting a block identifier to its number and back gives it again.
pub proof fn lemma_block_id_roundtrip(b: BlockId, n: u64)
    ensures
        <BlockId as vstd::std_specs::convert::FromSpec<u64>>::from_spec(
            <u64 as vstd::std_specs::convert::FromSpec<BlockId>>::from_spec(b)) == b,
        <u64 as vstd::std_specs::convert::FromSpec<BlockId>>::from_spec(
            <BlockId as vstd::std_specs::convert::FromSpec<u64>>::from_spec(n)) == n,
{
}

} // verus!
