//! The records that travel between the pipeline and the vector index.
use vstd::prelude::*;

verus! {

/// Payload field that holds a document's title and description.
pub const METADATA_FIELD: &'static str = "metadata";

/// Field of the metadata that holds the title.
pub const TITLE_FIELD: &'static str = "title";

/// Field of the metadata that holds the description.
pub const DESCRIPTION_FIELD: &'static str = "description";

/// Payload field that holds the group a point belongs to.
pub const GROUP_FIELD: &'static str = "group_id";

/// An embedding vector. Each component is kept as the bit pattern of its
/// 32-bit IEEE-754 value, so the vector passes through the library exactly
/// as the embedding model produced it.
pub struct Embedding {
    pub bits: Vec<u32>,
}

impl Embedding {
    /// Number of components.
    pub open spec fn dim(&self) -> nat {
        self.bits@.len()
    }

    /// Number of components.
    pub fn len(&self) -> (r: usize)
        ensures
            r == self.dim(),
    {
        self.bits.len()
    }
}

/// The text of a request together with its embedding.
pub struct Query {
    pub query: String,
    pub embedding: Embedding,
}

/// A numbered query with its embedding.
pub struct Entry {
    pub id: u8,
    pub query: String,
    pub embedding: Embedding,
}

/// What a point stores besides its vector: the document's metadata (under
/// `METADATA_FIELD`, as `TITLE_FIELD` and `DESCRIPTION_FIELD`) and the group
/// (tenant) it belongs to (under `GROUP_FIELD`).
pub struct Payload {
    pub title: String,
    pub description: String,
    pub group_id: u64,
}

/// One entry of a collection: an id, its vector and its payload.
pub struct Point {
    pub id: u64,
    pub vector: Embedding,
    pub payload: Payload,
}

} // verus!
