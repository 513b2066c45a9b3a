//! The chunk pager: which bytes of a long value one read hands back.

use crate::utils::bluetooth::{chunk_index, cursor_offset, get_chunk_index, lemma_index_default};
use vstd::arithmetic::div_mod::{lemma_fundamental_div_mod, lemma_mod_bound};
use vstd::prelude::*;
use vstd::slice::{slice_subrange, slice_to_vec};

verus! {

/// Where the page with the given index begins in a value of `len` bytes. Page
/// `index` begins at `index * mtu`. An index whose page would begin at or behind
/// the end is answered from `len - (index - 1) * mtu` instead, and from the
/// start of the value where that, too, leaves the value.
pub open spec fn page_start(len: int, mtu: int, index: int) -> int {
    if index * mtu < len {
        index * mtu
    } else if (index - 1) * mtu <= len {
        len - (index - 1) * mtu
    } else {
        0
    }
}

/// Where the page with the given index ends: one MTU behind its regular start,
/// or at the end of the value where that comes first.
pub open spec fn page_end(len: int, mtu: int, index: int) -> int {
    if (index + 1) * mtu < len {
        (index + 1) * mtu
    } else {
        len
    }
}

/// The bytes that a read of `buffer` hands back under the given effective MTU
/// and cursor: all of it where it fits the MTU, whatever the cursor, else the
/// page that the cursor names.
pub open spec fn page(buffer: Seq<u8>, mtu: int, index: int) -> Seq<u8> {
    if buffer.len() <= mtu {
        buffer
    } else {
        buffer.subrange(
            page_start(buffer.len() as int, mtu, index),
            page_end(buffer.len() as int, mtu, index),
        )
    }
}

/// The number of pages of a value of `len` bytes: `len / mtu`, rounded up.
pub open spec fn page_count(len: int, mtu: int) -> int {
    if len % mtu == 0 {
        len / mtu
    } else {
        len / mtu + 1
    }
}

/// The first `n` pages of `buffer`, one after the other.
pub open spec fn pages_concat(buffer: Seq<u8>, mtu: int, n: int) -> Seq<u8>
    decreases n,
{
    if n <= 0 {
        seq![]
    } else {
        pages_concat(buffer, mtu, n - 1) + page(buffer, mtu, n - 1)
    }
}

/// A page lies within its value, whatever the cursor.
pub proof fn lemma_page_bounds(len: int, mtu: int, index: int)
    requires
        0 <= mtu < len,
        0 <= index,
    ensures
        0 <= page_start(len, mtu, index) <= page_end(len, mtu, index) <= len,
{
    assert(index * mtu >= 0) by (nonlinear_arith)
        requires
            index >= 0,
            mtu >= 0,
    ;
    assert((index + 1) * mtu >= index * mtu) by (nonlinear_arith)
        requires
            mtu >= 0,
    ;
    if index * mtu >= len {
        assert(index >= 1) by (nonlinear_arith)
            requires
                index * mtu >= len,
                len > 0,
                index >= 0,
        ;
        assert((index - 1) * mtu >= 0) by (nonlinear_arith)
            requires
                index >= 1,
                mtu >= 0,
        ;
    }
}

/// Hands back the bytes of `value` that one read is to return: all of `value`
/// where it fits the effective MTU, else the page that the cursor in `chunk_idx`
/// names. The cursor is only read, never advanced: that is the client's part.
pub fn read_chunk(value: &[u8], chunk_idx: &[u8], is_headers: bool, effective_mtu: usize) -> (chunk:
    Vec<u8>)
    ensures
        chunk@ == page(value@, effective_mtu as int, chunk_index(chunk_idx@, is_headers)),
        value@.len() <= effective_mtu ==> chunk@ == value@,
{
    let len = value.len();
    if len <= effective_mtu {
        return slice_to_vec(value);
    }
    let index = match get_chunk_index(chunk_idx, is_headers) {
        Ok(index) => index,
        Err(_) => 0,
    };
    let wide_len = len as u128;
    let wide_mtu = effective_mtu as u128;
    let wide_index = index as u128;
    proof {
        lemma_page_bounds(len as int, effective_mtu as int, index as int);
    }
    assert((wide_index + 1) * wide_mtu <= 0x1_0000_0000 * 0xffff_ffff_ffff_ffff) by (nonlinear_arith)
        requires
            wide_index <= 0xffff_ffff,
            wide_mtu <= 0xffff_ffff_ffff_ffff,
    ;
    assert(wide_index * wide_mtu <= (wide_index + 1) * wide_mtu) by (nonlinear_arith);
    let regular_start = wide_index * wide_mtu;
    let regular_end = (wide_index + 1) * wide_mtu;
    let start: usize = if regular_start < wide_len {
        regular_start as usize
    } else {
        assert(wide_index >= 1) by (nonlinear_arith)
            requires
                wide_index * wide_mtu >= wide_len,
                wide_len > 0,
        ;
        assert((wide_index - 1) * wide_mtu <= wide_index * wide_mtu) by (nonlinear_arith)
            requires
                wide_index >= 1,
        ;
        let served = (wide_index - 1) * wide_mtu;
        if served <= wide_len {
            (wide_len - served) as usize
        } else {
            0
        }
    };
    let end: usize = if regular_end < wide_len {
        regular_end as usize
    } else {
        len
    };
    slice_to_vec(slice_subrange(value, start, end))
}

/// Reading a value that does not fit the MTU page by page, with the cursor at 0,
/// 1, 2 and so on up to the last page, and joining what the reads hand back,
/// gives the value: page `i` holds the bytes from `i * mtu` up to
/// `(i + 1) * mtu` or the end, so no byte is left out and none comes twice.
/// Every page but the last holds `mtu` bytes, and the last holds the remainder
/// of `len / mtu`, or `mtu` where there is none.
pub proof fn lemma_pages_reassemble(buffer: Seq<u8>, mtu: int)
    requires
        0 < mtu < buffer.len(),
    ensures
        pages_concat(buffer, mtu, page_count(buffer.len() as int, mtu)) == buffer,
        forall|i: int|
            0 <= i < page_count(buffer.len() as int, mtu) ==> #[trigger] page(buffer, mtu, i)
                == buffer.subrange(i * mtu, page_end(buffer.len() as int, mtu, i)),
        forall|i: int|
            0 <= i < page_count(buffer.len() as int, mtu) - 1 ==> (#[trigger] page(
                buffer,
                mtu,
                i,
            )).len() == mtu,
        page(buffer, mtu, page_count(buffer.len() as int, mtu) - 1).len() == if buffer.len() % (
        mtu as nat) == 0 {
            mtu
        } else {
            buffer.len() as int % mtu
        },
{
    let len = buffer.len() as int;
    let count = page_count(len, mtu);
    lemma_fundamental_div_mod(len, mtu);
    lemma_mod_bound(len, mtu);
    assert(count >= 1 && (count - 1) * mtu < len && len <= count * mtu) by (nonlinear_arith)
        requires
            len == mtu * (len / mtu) + len % mtu,
            0 <= len % mtu < mtu,
            0 < mtu < len,
            count == if len % mtu == 0 {
                len / mtu
            } else {
                len / mtu + 1
            },
    ;
    assert forall|i: int| 0 <= i < count implies i * mtu < len && #[trigger] page(buffer, mtu, i)
        == buffer.subrange(i * mtu, page_end(len, mtu, i)) by {
        assert(i * mtu <= (count - 1) * mtu) by (nonlinear_arith)
            requires
                0 <= i <= count - 1,
                0 < mtu,
        ;
    }
    assert forall|i: int| 0 <= i < count - 1 implies (#[trigger] page(buffer, mtu, i)).len()
        == mtu by {
        assert((i + 1) * mtu <= (count - 1) * mtu && (i + 1) * mtu == i * mtu + mtu && i * mtu
            >= 0) by (nonlinear_arith)
            requires
                0 <= i,
                i + 1 <= count - 1,
                0 < mtu,
        ;
    }
    assert(page(buffer, mtu, count - 1).len() == len - (count - 1) * mtu) by {
        assert(count * mtu == (count - 1) * mtu + mtu && (count - 1) * mtu >= 0)
            by (nonlinear_arith)
            requires
                count >= 1,
                0 < mtu,
        ;
    }
    assert(len - (count - 1) * mtu == if len % mtu == 0 {
        mtu
    } else {
        len % mtu
    }) by (nonlinear_arith)
        requires
            len == mtu * (len / mtu) + len % mtu,
            count == if len % mtu == 0 {
                len / mtu
            } else {
                len / mtu + 1
            },
    ;
    lemma_pages_prefix(buffer, mtu, count);
    assert(buffer.take(len) =~= buffer);
}

/// The first `n` pages of a value that does not fit the MTU, joined, are its
/// first `n * mtu` bytes, or all of it where it has no more.
proof fn lemma_pages_prefix(buffer: Seq<u8>, mtu: int, n: int)
    requires
        0 < mtu < buffer.len(),
        0 <= n,
        (n - 1) * mtu < buffer.len(),
    ensures
        pages_concat(buffer, mtu, n) == buffer.take(
            if n * mtu < buffer.len() {
                n * mtu
            } else {
                buffer.len() as int
            },
        ),
    decreases n,
{
    let len = buffer.len() as int;
    if n == 0 {
        assert(0 * mtu == 0);
        assert(buffer.take(0) =~= seq![]);
    } else {
        assert((n - 2) * mtu < (n - 1) * mtu && n * mtu == (n - 1) * mtu + mtu && (n - 1) * mtu
            >= 0) by (nonlinear_arith)
            requires
                0 < mtu,
                n >= 1,
        ;
        lemma_pages_prefix(buffer, mtu, n - 1);
        let from = (n - 1) * mtu;
        let to = if n * mtu < len {
            n * mtu
        } else {
            len
        };
        assert(page(buffer, mtu, n - 1) == buffer.subrange(from, to)) by {
            assert((n - 1 + 1) * mtu == n * mtu) by (nonlinear_arith);
        }
        assert(buffer.take(from) + buffer.subrange(from, to) =~= buffer.take(to));
    }
}

/// With a chunk index value that is too short for the cursor, or that holds only
/// zero bytes, a read hands back what it hands back for cursor zero; and a value
/// that fits the MTU is handed back whole whatever the chunk index value holds.
pub proof fn lemma_default_index_reads_first_page(
    buffer: Seq<u8>,
    chunk_idx: Seq<u8>,
    is_headers: bool,
    mtu: int,
)
    ensures
        (chunk_idx.len() < cursor_offset(is_headers) + 4 || forall|i: int|
            0 <= i < chunk_idx.len() ==> chunk_idx[i] == 0) ==> page(
            buffer,
            mtu,
            chunk_index(chunk_idx, is_headers),
        ) == page(buffer, mtu, 0),
        buffer.len() <= mtu ==> page(buffer, mtu, chunk_index(chunk_idx, is_headers)) == buffer,
{
    if chunk_idx.len() < cursor_offset(is_headers) + 4 || forall|i: int|
        0 <= i < chunk_idx.len() ==> chunk_idx[i] == 0 {
        lemma_index_default(chunk_idx, is_headers);
    }
}

} // verus!
