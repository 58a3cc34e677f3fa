//! Local capture transfer: bounded frame leases, ordered input and the
//! endpoints that connect a producer with its consumers.

pub mod acquisition;
pub mod bootstrap;
pub mod bytes;
pub mod daemon;
pub mod demo;
pub mod error;
pub mod ffi;
pub mod ffi_acquisition;
pub mod ffi_bootstrap;
pub mod ffi_input;
pub mod ffi_local;
pub mod ffi_operations;
pub mod ffi_promises;
pub mod graph;
pub mod input;
pub mod json;
pub mod local;
pub mod maps;
pub mod text;
pub mod totals;
