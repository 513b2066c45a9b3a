use vstd::prelude::*;

verus! {

/// Bytes of every characteristic transaction that the link layer keeps for itself.
pub const MTU_OVERHEAD: usize = 3;

/// Length of the chunk index value: two cursors of four bytes each.
pub const CHUNK_INDEX_LEN: usize = 8;

/// Length of the chunk sizes value: three fields of four bytes each.
pub const CHUNK_SIZES_LEN: usize = 12;

/// Length of the status value: the status code and the status bits.
pub const STATUS_LEN: usize = 3;

/// 16-bit alias of the HTTP Proxy Service.
pub const SERVICE_UUID: u16 = 0x1823;

/// 16-bit alias of the HTTP URI characteristic.
pub const HTTP_URI_UUID: u16 = 0x2AB6;

/// 16-bit alias of the HTTP Headers characteristic.
pub const HTTP_HEADERS_UUID: u16 = 0x2AB7;

/// 16-bit alias of the HTTP Status Code characteristic.
pub const HTTP_STATUS_CODE_UUID: u16 = 0x2AB8;

/// 16-bit alias of the HTTP Entity Body characteristic.
pub const HTTP_ENTITY_BODY_UUID: u16 = 0x2AB9;

/// 16-bit alias of the HTTP Control Point characteristic.
pub const HTTP_CONTROL_POINT_UUID: u16 = 0x2ABA;

/// 16-bit alias of the HTTPS Security characteristic.
pub const HTTPS_SECURITY_UUID: u16 = 0x2ABB;

/// 16-bit alias of the chunk index characteristic.
pub const HTTP_HEADERS_BODY_CHUNK_IDX_UUID: u16 = 0x2A9A;

/// 16-bit alias of the chunk sizes characteristic.
pub const HTTP_HEADERS_BODY_SIZES_UUID: u16 = 0x2AC0;

} // verus!
