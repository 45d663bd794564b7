//! Core logic of a desktop contacts bridge: display-name derivation and
//! deduplication, the authorization gate's state machine, the one-shot
//! decision cell, scoped ownership of foreign object handles, string
//! marshaling across the foreign-function boundary, the error surface,
//! download-filename resolution, and sidecar selection.
//!
//! The platform shell (FFI message sends, threads, the UI runtime) lives
//! outside this crate and drives these functions with plain values.

pub mod auth;
pub mod download;
pub mod enumerate;
pub mod errors;
pub mod fetch;
pub mod handle;
pub mod marshal;
pub mod names;
pub mod sidecar;
pub mod text;
