//! Protocol engine of a Bluetooth HTTP Proxy Service peripheral.
//!
//! A BLE client writes a URI, headers and a body into characteristics, triggers an
//! HTTP request through the control point and reads the response back page by
//! page. This crate holds the part between the characteristic hooks and the HTTP
//! client: the buffers, the paging of long values, the control-point state
//! machine and the bookkeeping of status subscribers. It performs no I/O.

pub mod app_state;
pub mod codec;
pub mod config;
pub mod constants;
pub mod error;
pub mod http;
pub mod notifier;
pub mod pager;
pub mod text;
pub mod utils;

pub use app_state::AppState;
pub use config::Config;
pub use error::Error;
