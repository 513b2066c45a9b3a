//! The control-point dispatcher and the HTTP values it works with.

pub mod handler;
pub mod headers;
pub mod request;
pub mod response;
