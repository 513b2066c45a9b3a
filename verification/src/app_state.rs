//! The buffer store: one byte buffer per characteristic value.

use crate::constants::CHUNK_INDEX_LEN;
use vstd::prelude::*;

verus! {

/// Names of the buffers of a session.
#[derive(Debug, Clone, Copy, PartialEq, Eq, Structural)]
pub enum BufferId {
    /// Target of the next request: authority and path.
    Uri,
    /// Header block of the request, then of the response.
    Headers,
    /// Status code and status bits of the last completed request.
    StatusCode,
    /// Body of the request, then of the response.
    EntityBody,
    /// Security indicator, read-only to the client.
    Security,
    /// Paging cursors for headers and body.
    ChunkIdx,
    /// Lengths of headers and body and the effective MTU they were measured against.
    Sizes,
}

/// The contents of the buffers of a session.
#[verifier::ext_equal]
pub struct Buffers {
    pub http_uri: Seq<u8>,
    pub http_headers: Seq<u8>,
    pub http_status_code: Seq<u8>,
    pub http_entity_body: Seq<u8>,
    pub https_security: Seq<u8>,
    pub http_headers_body_chunk_idx: Seq<u8>,
    pub http_headers_body_sizes: Seq<u8>,
}

impl Buffers {
    /// The content of one buffer.
    pub open spec fn get(self, id: BufferId) -> Seq<u8> {
        match id {
            BufferId::Uri => self.http_uri,
            BufferId::Headers => self.http_headers,
            BufferId::StatusCode => self.http_status_code,
            BufferId::EntityBody => self.http_entity_body,
            BufferId::Security => self.https_security,
            BufferId::ChunkIdx => self.http_headers_body_chunk_idx,
            BufferId::Sizes => self.http_headers_body_sizes,
        }
    }

    /// These buffers with the content of one of them replaced.
    pub open spec fn set(self, id: BufferId, bytes: Seq<u8>) -> Buffers {
        match id {
            BufferId::Uri => Buffers { http_uri: bytes, ..self },
            BufferId::Headers => Buffers { http_headers: bytes, ..self },
            BufferId::StatusCode => Buffers { http_status_code: bytes, ..self },
            BufferId::EntityBody => Buffers { http_entity_body: bytes, ..self },
            BufferId::Security => Buffers { https_security: bytes, ..self },
            BufferId::ChunkIdx => Buffers { http_headers_body_chunk_idx: bytes, ..self },
            BufferId::Sizes => Buffers { http_headers_body_sizes: bytes, ..self },
        }
    }

    /// The buffers of a session that has just started: both cursors zero,
    /// everything else empty.
    pub open spec fn initial() -> Buffers {
        Buffers {
            http_uri: seq![],
            http_headers: seq![],
            http_status_code: seq![],
            http_entity_body: seq![],
            https_security: seq![],
            http_headers_body_chunk_idx: zeros(CHUNK_INDEX_LEN as nat),
            http_headers_body_sizes: seq![],
        }
    }

    /// These buffers after the given writes, applied first to last.
    pub open spec fn apply(self, writes: Seq<(BufferId, Seq<u8>)>) -> Buffers
        decreases writes.len(),
    {
        if writes.len() == 0 {
            self
        } else {
            self.apply(writes.drop_last()).set(writes.last().0, writes.last().1)
        }
    }
}

/// `n` zero bytes.
pub open spec fn zeros(n: nat) -> Seq<u8> {
    Seq::new(n, |i: int| 0u8)
}

/// One replacement of a buffer's content.
#[derive(Debug, Clone, PartialEq, Eq)]
pub struct BufferWrite {
    pub buffer: BufferId,
    pub value: Vec<u8>,
}

impl View for BufferWrite {
    type V = (BufferId, Seq<u8>);

    open spec fn view(&self) -> (BufferId, Seq<u8>) {
        (self.buffer, self.value@)
    }
}

/// The targets and values of a list of writes, in order.
pub open spec fn writes_view(writes: Seq<BufferWrite>) -> Seq<(BufferId, Seq<u8>)> {
    writes.map_values(|w: BufferWrite| w@)
}

/// The buffers of one session.
#[derive(Debug, Clone, PartialEq, Eq)]
pub struct AppState {
    pub http_uri: Vec<u8>,
    pub http_headers: Vec<u8>,
    pub http_status_code: Vec<u8>,
    pub http_entity_body: Vec<u8>,
    pub https_security: Vec<u8>,
    pub http_headers_body_chunk_idx: Vec<u8>,
    pub http_headers_body_sizes: Vec<u8>,
}

impl View for AppState {
    type V = Buffers;

    open spec fn view(&self) -> Buffers {
        Buffers {
            http_uri: self.http_uri@,
            http_headers: self.http_headers@,
            http_status_code: self.http_status_code@,
            http_entity_body: self.http_entity_body@,
            https_security: self.https_security@,
            http_headers_body_chunk_idx: self.http_headers_body_chunk_idx@,
            http_headers_body_sizes: self.http_headers_body_sizes@,
        }
    }
}

/// A vector of `n` zero bytes.
pub fn zero_bytes(n: usize) -> (bytes: Vec<u8>)
    ensures
        bytes@ == zeros(n as nat),
{
    let mut bytes: Vec<u8> = Vec::new();
    let mut i: usize = 0;
    while i < n
        invariant
            i <= n,
            bytes@ == zeros(i as nat),
        decreases n - i,
    {
        bytes.push(0);
        assert(bytes@ =~= zeros((i + 1) as nat));
        i += 1;
    }
    bytes
}

impl AppState {
    /// The buffers at the start of a session.
    pub fn new() -> (state: AppState)
        ensures
            state@ == Buffers::initial(),
    {
        AppState {
            http_uri: Vec::new(),
            http_headers: Vec::new(),
            http_status_code: Vec::new(),
            http_entity_body: Vec::new(),
            https_security: Vec::new(),
            http_headers_body_chunk_idx: zero_bytes(CHUNK_INDEX_LEN),
            http_headers_body_sizes: Vec::new(),
        }
    }

    /// A copy of the content of one buffer.
    pub fn read(&self, id: BufferId) -> (bytes: Vec<u8>)
        ensures
            bytes@ == self@.get(id),
    {
        match id {
            BufferId::Uri => self.http_uri.clone(),
            BufferId::Headers => self.http_headers.clone(),
            BufferId::StatusCode => self.http_status_code.clone(),
            BufferId::EntityBody => self.http_entity_body.clone(),
            BufferId::Security => self.https_security.clone(),
            BufferId::ChunkIdx => self.http_headers_body_chunk_idx.clone(),
            BufferId::Sizes => self.http_headers_body_sizes.clone(),
        }
    }

    /// Replaces the whole content of one buffer and leaves the others as they are.
    pub fn replace(&mut self, id: BufferId, bytes: Vec<u8>)
        ensures
            final(self)@ == old(self)@.set(id, bytes@),
    {
        match id {
            BufferId::Uri => {
                self.http_uri = bytes;
            },
            BufferId::Headers => {
                self.http_headers = bytes;
            },
            BufferId::StatusCode => {
                self.http_status_code = bytes;
            },
            BufferId::EntityBody => {
                self.http_entity_body = bytes;
            },
            BufferId::Security => {
                self.https_security = bytes;
            },
            BufferId::ChunkIdx => {
                self.http_headers_body_chunk_idx = bytes;
            },
            BufferId::Sizes => {
                self.http_headers_body_sizes = bytes;
            },
        }
    }

    /// Performs the given writes, first to last.
    pub fn apply(&mut self, writes: &Vec<BufferWrite>)
        ensures
            final(self)@ == old(self)@.apply(writes_view(writes@)),
    {
        let mut i: usize = 0;
        while i < writes.len()
            invariant
                i <= writes.len(),
                self@ == old(self)@.apply(writes_view(writes@).take(i as int)),
            decreases writes.len() - i,
        {
            let write = &writes[i];
            proof {
                let all = writes_view(writes@);
                assert(all.take(i as int + 1).drop_last() =~= all.take(i as int));
                assert(all.take(i as int + 1).last() == write@);
            }
            self.replace(write.buffer, write.value.clone());
            i += 1;
        }
        assert(writes_view(writes@).take(writes.len() as int) =~= writes_view(writes@));
    }
}

} // verus!
