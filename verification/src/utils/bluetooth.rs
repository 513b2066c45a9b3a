//! The cursors of the chunk index value.

use crate::codec::{get_u32_le, lemma_u32_le_zero, u32_from_le};
use crate::error::Error;
use vstd::prelude::*;

verus! {

/// Where the cursor of the headers, or of the body, begins in the chunk index
/// value.
pub open spec fn cursor_offset(is_headers: bool) -> int {
    if is_headers {
        0
    } else {
        4
    }
}

/// The cursor that a chunk index value holds for the headers, or for the body:
/// the little-endian integer at the cursor's offset, and zero where the value
/// ends before the cursor does.
pub open spec fn chunk_index(chunk_idx: Seq<u8>, is_headers: bool) -> int {
    let offset = cursor_offset(is_headers);
    if chunk_idx.len() >= offset + 4 {
        u32_from_le(chunk_idx.subrange(offset, offset + 4))
    } else {
        0
    }
}

/// Reads the cursor of the headers, or of the body, from a chunk index value. A
/// value too short to hold the cursor stands for cursor zero; the result is
/// never an error.
pub fn get_chunk_index(chunk_idx_buffer: &[u8], is_headers: bool) -> (r: Result<usize, Error>)
    ensures
        r is Ok,
        r->Ok_0 as int == chunk_index(chunk_idx_buffer@, is_headers),
        r->Ok_0 <= u32::MAX,
{
    let offset: usize = if is_headers {
        0
    } else {
        4
    };
    match get_u32_le(chunk_idx_buffer, offset) {
        Some(index) => Ok(index as usize),
        None => Ok(0),
    }
}

/// A chunk index value that is too short for a cursor, or that holds only zero
/// bytes, stands for cursor zero.
pub proof fn lemma_index_default(chunk_idx: Seq<u8>, is_headers: bool)
    requires
        chunk_idx.len() < cursor_offset(is_headers) + 4 || forall|i: int|
            0 <= i < chunk_idx.len() ==> chunk_idx[i] == 0,
    ensures
        chunk_index(chunk_idx, is_headers) == 0,
{
    let offset = cursor_offset(is_headers);
    if chunk_idx.len() >= offset + 4 {
        lemma_u32_le_zero(chunk_idx.subrange(offset, offset + 4));
    }
}

} // verus!
