//! Why a control-point write ended without a published response.

use crate::app_state::BufferId;
use vstd::prelude::*;

verus! {

/// The reasons for which the engine drops a control-point write. None of them
/// reaches the BLE client: the profile has no characteristic for errors, so the
/// caller logs the reason and accepts the write.
#[derive(Debug, Clone, PartialEq, Eq)]
pub enum Error {
    /// The write carried no command byte.
    NoMethod,
    /// The command byte is zero or names no command.
    InvalidMethod,
    /// The URI buffer is empty.
    NoUrl,
    /// The named request buffer does not hold UTF-8.
    Utf8(BufferId),
    /// The transport failed before a response arrived; the text is the
    /// transport's own.
    Http(String),
    /// A length or the effective MTU does not fit its four-byte field.
    FieldOverflow,
}

} // verus!
