//! The small libraries the rust-craft exercises work on, each with the
//! behaviour its own tests ask of it.
pub mod wire_core;
pub mod wire_downstream;
pub mod msrv_features;
pub mod store_api;
pub mod store_downstream;
pub mod async_lifecycle;
pub mod cancel_safe_flush;
pub mod unsafe_ffi;
