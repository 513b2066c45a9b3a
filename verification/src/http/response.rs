//! The response of the transport and the writes that publish it.

use crate::app_state::{writes_view, zero_bytes, zeros, BufferId, BufferWrite, Buffers};
use crate::codec::{put_u16_le, put_u32_le, u16_to_le, u32_to_le};
use crate::constants::CHUNK_INDEX_LEN;
use crate::error::Error;
use crate::http::handler::HttpDataStatusBit;
use crate::http::headers::{header_block, headers_view, serialize_headers, HttpHeader};
use vstd::prelude::*;

verus! {

/// What the transport brought back.
#[derive(Debug, Clone, PartialEq, Eq)]
pub struct HttpResponse {
    pub status: u16,
    pub headers: Vec<HttpHeader>,
    pub body: Vec<u8>,
}

/// The flag for headers of `len` bytes against `mtu`: received where they fit.
pub open spec fn headers_flag(len: int, mtu: int) -> HttpDataStatusBit {
    if len <= mtu {
        HttpDataStatusBit::HeadersReceived
    } else {
        HttpDataStatusBit::HeadersTruncated
    }
}

/// The flag for a body of `len` bytes against `mtu`: received where it fits.
pub open spec fn body_flag(len: int, mtu: int) -> HttpDataStatusBit {
    if len <= mtu {
        HttpDataStatusBit::BodyReceived
    } else {
        HttpDataStatusBit::BodyTruncated
    }
}

/// The status bits byte for headers and body of the given lengths: the two
/// flags, which share no bit, added up.
pub open spec fn spec_status_bits(headers_len: int, body_len: int, mtu: int) -> u8 {
    (headers_flag(headers_len, mtu).spec_bit() + body_flag(body_len, mtu).spec_bit()) as u8
}

/// Computes the status bits byte: the bitwise OR of the headers flag and the
/// body flag.
pub fn status_bits(headers_len: usize, body_len: usize, mtu: usize) -> (bits: u8)
    ensures
        bits == spec_status_bits(headers_len as int, body_len as int, mtu as int),
        bits == headers_flag(headers_len as int, mtu as int).spec_bit() | body_flag(
            body_len as int,
            mtu as int,
        ).spec_bit(),
{
    let headers_status = if headers_len <= mtu {
        HttpDataStatusBit::HeadersReceived.bit()
    } else {
        HttpDataStatusBit::HeadersTruncated.bit()
    };
    let body_status = if body_len <= mtu {
        HttpDataStatusBit::BodyReceived.bit()
    } else {
        HttpDataStatusBit::BodyTruncated.bit()
    };
    assert(1u8 | 4u8 == 5u8) by (bit_vector);
    assert(1u8 | 8u8 == 9u8) by (bit_vector);
    assert(2u8 | 4u8 == 6u8) by (bit_vector);
    assert(2u8 | 8u8 == 10u8) by (bit_vector);
    headers_status | body_status
}

/// The status value: the status code in two little-endian bytes, then the status
/// bits for the given lengths.
pub open spec fn status_value(status: u16, headers_len: int, body_len: int, mtu: int) -> Seq<u8> {
    u16_to_le(status).push(spec_status_bits(headers_len, body_len, mtu))
}

/// The chunk sizes value: length of the headers, length of the body and the
/// effective MTU, each in four little-endian bytes.
pub open spec fn sizes_value(headers_len: u32, body_len: u32, mtu: u32) -> Seq<u8> {
    u32_to_le(headers_len) + u32_to_le(body_len) + u32_to_le(mtu)
}

/// Whether the two lengths and the MTU each fit a four-byte field.
pub open spec fn fits_fields(headers_len: int, body_len: int, mtu: int) -> bool {
    headers_len <= u32::MAX && body_len <= u32::MAX && mtu <= u32::MAX
}

/// The writes that publish a response, in the order in which they are to be
/// performed: header block, body, chunk sizes, the chunk index back at zero, and
/// the status last.
pub open spec fn publication(status: u16, block: Seq<u8>, body: Seq<u8>, mtu: int) -> Seq<
    (BufferId, Seq<u8>),
> {
    seq![
        (BufferId::Headers, block),
        (BufferId::EntityBody, body),
        (BufferId::Sizes, sizes_value(block.len() as u32, body.len() as u32, mtu as u32)),
        (BufferId::ChunkIdx, zeros(CHUNK_INDEX_LEN as nat)),
        (BufferId::StatusCode, status_value(status, block.len() as int, body.len() as int, mtu)),
    ]
}

/// Turns a response into the writes that publish it, measured against the
/// effective MTU that the dispatch resolved. The response is kept whole whatever
/// its size; the status bits only tell whether headers and body fit the MTU. A
/// length or an MTU beyond four bytes cannot be published.
pub fn complete_dispatch(response: HttpResponse, effective_mtu: usize) -> (r: Result<
    Vec<BufferWrite>,
    Error,
>)
    ensures
        match r {
            Ok(writes) => {
                let block = header_block(headers_view(response.headers@));
                &&& fits_fields(block.len() as int, response.body@.len() as int, effective_mtu as int)
                &&& writes_view(writes@) == publication(
                    response.status,
                    block,
                    response.body@,
                    effective_mtu as int,
                )
            },
            Err(e) => {
                let block = header_block(headers_view(response.headers@));
                &&& !fits_fields(
                    block.len() as int,
                    response.body@.len() as int,
                    effective_mtu as int,
                )
                &&& e == Error::FieldOverflow
            },
        },
{
    let block = serialize_headers(&response.headers);
    let body = response.body;
    let headers_len = block.len();
    let body_len = body.len();
    if headers_len > u32::MAX as usize || body_len > u32::MAX as usize || effective_mtu
        > u32::MAX as usize {
        return Err(Error::FieldOverflow);
    }
    let mut status: Vec<u8> = Vec::new();
    put_u16_le(&mut status, response.status);
    status.push(status_bits(headers_len, body_len, effective_mtu));

    let mut sizes: Vec<u8> = Vec::new();
    put_u32_le(&mut sizes, headers_len as u32);
    put_u32_le(&mut sizes, body_len as u32);
    put_u32_le(&mut sizes, effective_mtu as u32);

    let mut writes: Vec<BufferWrite> = Vec::new();
    writes.push(BufferWrite { buffer: BufferId::Headers, value: block });
    writes.push(BufferWrite { buffer: BufferId::EntityBody, value: body });
    writes.push(BufferWrite { buffer: BufferId::Sizes, value: sizes });
    writes.push(BufferWrite { buffer: BufferId::ChunkIdx, value: zero_bytes(CHUNK_INDEX_LEN) });
    writes.push(BufferWrite { buffer: BufferId::StatusCode, value: status });
    proof {
        assert(writes_view(writes@) =~= publication(
            response.status,
            header_block(headers_view(response.headers@)),
            response.body@,
            effective_mtu as int,
        ));
    }
    Ok(writes)
}

/// What the buffers hold after the first `done` of the five writes that publish a
/// response. The status buffer is the last to change: as long as a write is
/// outstanding it holds what it held before, and once it holds the new status,
/// header block, body, chunk sizes and chunk index all hold their final content.
/// The URI and the security indicator are never written.
pub proof fn lemma_status_is_published_last(
    before: Buffers,
    status: u16,
    block: Seq<u8>,
    body: Seq<u8>,
    mtu: int,
    done: int,
)
    requires
        0 <= done <= 5,
    ensures
        ({
            let writes = publication(status, block, body, mtu);
            let now = before.apply(writes.take(done));
            let end = before.apply(writes);
            &&& writes.len() == 5
            &&& done < 5 ==> now.http_status_code == before.http_status_code
            &&& done == 5 ==> now == end
            &&& now.http_headers == if done >= 1 { block } else { before.http_headers }
            &&& now.http_entity_body == if done >= 2 { body } else { before.http_entity_body }
            &&& now.http_headers_body_sizes == if done >= 3 {
                sizes_value(block.len() as u32, body.len() as u32, mtu as u32)
            } else {
                before.http_headers_body_sizes
            }
            &&& now.http_headers_body_chunk_idx == if done >= 4 {
                zeros(CHUNK_INDEX_LEN as nat)
            } else {
                before.http_headers_body_chunk_idx
            }
            &&& end.http_status_code == status_value(
                status,
                block.len() as int,
                body.len() as int,
                mtu,
            )
            &&& now.http_uri == before.http_uri
            &&& now.https_security == before.https_security
        }),
{
    let writes = publication(status, block, body, mtu);
    assert(writes.take(5) =~= writes);
    assert(writes.take(5).drop_last() =~= writes.take(4));
    assert(writes.take(4).drop_last() =~= writes.take(3));
    assert(writes.take(3).drop_last() =~= writes.take(2));
    assert(writes.take(2).drop_last() =~= writes.take(1));
    assert(writes.take(1).drop_last() =~= writes.take(0));
    assert(before.apply(writes.take(0)) == before);
    assert(before.apply(writes.take(1)) == before.apply(writes.take(0)).set(
        writes[0].0,
        writes[0].1,
    ));
    assert(before.apply(writes.take(2)) == before.apply(writes.take(1)).set(
        writes[1].0,
        writes[1].1,
    ));
    assert(before.apply(writes.take(3)) == before.apply(writes.take(2)).set(
        writes[2].0,
        writes[2].1,
    ));
    assert(before.apply(writes.take(4)) == before.apply(writes.take(3)).set(
        writes[3].0,
        writes[3].1,
    ));
    assert(before.apply(writes.take(5)) == before.apply(writes.take(4)).set(
        writes[4].0,
        writes[4].1,
    ));
}

} // verus!
