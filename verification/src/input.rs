//! Ordered, host-authorized input with explicit executor completion.
//!
//! Executors serialize `next` and `complete`: work remains in flight until it is
//! completed, including after the controller disconnects.

pub mod binary64;
pub mod upkeep;
pub mod client;
pub mod dialogue;
pub mod framing;
pub mod laws;
pub mod model;
pub mod operations;
pub mod promises;
pub mod service;
pub mod session;
pub mod state;
pub mod validation;
pub mod wire;
