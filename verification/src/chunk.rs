//! The chunks of a normalised reply.

use vstd::prelude::*;

verus! {

/// One chunk of a reply, the same for every provider.
#[derive(Clone, Debug, PartialEq, Eq)]
pub enum Chunk {
    /// The next piece of the reply's text.
    Text(String),
    /// A complete tool call: the tool's name and its arguments, a JSON
    /// document.
    Tool(String, String),
}

/// The mathematical value of a chunk.
pub ghost enum ChunkView {
    Text(Seq<char>),
    Tool(Seq<char>, Seq<char>),
}

impl View for Chunk {
    type V = ChunkView;

    open spec fn view(&self) -> ChunkView {
        match self {
            Chunk::Text(text) => ChunkView::Text(text@),
            Chunk::Tool(name, arguments) => ChunkView::Tool(name@, arguments@),
        }
    }
}

/// The values of a sequence of chunks.
pub open spec fn chunk_views(chunks: Seq<Chunk>) -> Seq<ChunkView> {
    Seq::new(chunks.len(), |i: int| chunks[i]@)
}

} // verus!
