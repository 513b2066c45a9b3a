//! Helpers shared by the characteristic hooks.

pub mod bluetooth;

pub use bluetooth::get_chunk_index;
