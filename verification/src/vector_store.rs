//! Paragraph chunks waiting for an embedding, and the statistics of a
//! vector index.

use vstd::prelude::*;

use crate::number::u32_from_text;
use crate::text::chars_of;

verus! {

/// A paragraph of an entry, ready to be embedded.
#[derive(Clone, Debug)]
pub struct Chunk {
    /// Identifier of the entry.
    pub entry_id: i64,
    /// Position of the paragraph in the entry body, from zero.
    pub chunk_index: usize,
    /// The embedded text: the title followed by the paragraph.
    pub text: String,
    pub entry_title: String,
    pub entry_path: String,
}

/// Statistics of the vector index.
#[derive(Clone, Copy, Debug, PartialEq, Eq, Structural)]
pub struct VecInfo {
    /// Dimension of the stored vectors.
    pub embedding_dim: u32,
    /// Chunks with a stored vector.
    pub vector_count: u64,
    /// Chunks still waiting for one.
    pub pending_count: u64,
}

/// The index statistics from what the database answered: the recorded
/// dimension (0 when missing or unreadable), the vector count and the chunk
/// count (0 when missing); the pending count is the chunks beyond the
/// vectors, never below zero.
pub fn vec_info_from(dim_text: Option<String>, vector_count: Option<u64>, chunk_count: Option<u64>) -> (res: VecInfo)
    ensures
        res.embedding_dim == match dim_text {
            Some(t) => match u32_from_text(t@) {
                Some(d) => d,
                None => 0,
            },
            None => 0,
        },
        res.vector_count == match vector_count {
            Some(v) => v,
            None => 0,
        },
        res.pending_count == ({
            let c: int = match chunk_count {
                Some(c) => c as int,
                None => 0,
            };
            if c > res.vector_count {
                c - res.vector_count
            } else {
                0
            }
        }),
{
    let embedding_dim = match dim_text {
        Some(t) => match crate::number::parse_u32(&chars_of(t.as_str())) {
            Some(d) => d,
            None => 0,
        },
        None => 0,
    };
    let vector_count = match vector_count {
        Some(v) => v,
        None => 0,
    };
    let chunk_count = match chunk_count {
        Some(c) => c,
        None => 0,
    };
    let pending_count = if chunk_count > vector_count {
        chunk_count - vector_count
    } else {
        0
    };
    VecInfo { embedding_dim, vector_count, pending_count }
}

/// The key `(entry, paragraph)` is among `keys`.
pub open spec fn has_key(keys: Seq<(i64, usize)>, k: (i64, usize)) -> bool {
    exists|i: int| 0 <= i < keys.len() && keys[i] == k
}

/// The chunks (of the first `n`) without a stored vector, in order.
pub open spec fn pending(chunks: Seq<Chunk>, keys: Seq<(i64, usize)>, n: int) -> Seq<Chunk>
    decreases n,
{
    if n <= 0 {
        seq![]
    } else {
        let prev = pending(chunks, keys, n - 1);
        if has_key(keys, (chunks[n - 1].entry_id, chunks[n - 1].chunk_index)) {
            prev
        } else {
            prev.push(chunks[n - 1])
        }
    }
}

/// Keep the chunks whose `(entry, paragraph)` key has no stored vector.
pub fn pending_chunks(chunks: Vec<Chunk>, embedded: &Vec<(i64, usize)>) -> (res: Vec<Chunk>)
    ensures
        res@ == pending(chunks@, embedded@, chunks@.len() as int),
{
    let ghost src = chunks@;
    let n = chunks.len();
    let mut rest = chunks;
    let mut out: Vec<Chunk> = Vec::new();
    let mut i: usize = 0;
    assert(src.skip(0) =~= src);
    while rest.len() > 0
        invariant
            i + rest@.len() == src.len(),
            src.len() == n,
            rest@ == src.skip(i as int),
            out@ == pending(src, embedded@, i as int),
        decreases rest@.len(),
    {
        let c = rest.remove(0);
        assert(c == src[i as int]);
        assert(rest@ =~= src.skip(i + 1));
        let mut found = false;
        let mut k: usize = 0;
        while k < embedded.len()
            invariant
                k <= embedded@.len(),
                found == exists|j: int| 0 <= j < k && embedded@[j] == (c.entry_id, c.chunk_index),
            decreases embedded@.len() - k,
        {
            if embedded[k].0 == c.entry_id && embedded[k].1 == c.chunk_index {
                found = true;
            }
            k += 1;
        }
        if !found {
            out.push(c);
        }
        i += 1;
    }
    out
}

} // verus!
