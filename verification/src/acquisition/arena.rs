//! Shared publication and storage claims. A ring position advertises a resource; only claim
//! publication followed by generation validation acquires it.
//!
//! The pages that a producer and its consumers share are plain values here. Every function
//! is a step, or a run of steps, on words that each side reads and writes whole and in one
//! order for everybody. Descriptors and bytes are read only under a validated claim.

use super::AdmissionError;
use crate::error::CaptureTransferError;
use vstd::prelude::*;

pub mod capacity;
pub mod claims;
pub mod cleanup;
pub mod consumer;
pub mod delivery;
pub mod grants;
pub mod handover;
pub mod holding;
pub mod laws;
pub mod layout;
pub mod lifecycle;
pub mod mapping;
pub mod observers;
pub mod operations;
pub mod pages;
pub mod process;
pub mod promises;
pub mod producer;
pub mod protocol;
pub mod record;
pub mod replacement;
pub mod runs;
pub mod state;
pub mod turns;
pub mod upkeep;
pub mod wait;

verus! {

pub const VERSION: u64 = 7;

/// The largest frame generation: a resource's state word keeps one bit beside it.
pub const MAX_GENERATION: u64 = 0x7fff_ffff_ffff_ffff;

/// Tells one arena or one claim page from every other; chosen at random by its creator.
#[derive(Debug, Clone, Copy, PartialEq, Eq, Structural)]
pub struct ScopeId {
    pub low: u64,
    pub high: u64,
}

#[derive(Debug, Clone, Copy, PartialEq, Eq, Structural)]
pub struct ArenaConfig {
    pub resource_capacity: u32,
    pub retained_history: u32,
    pub producer_reserve: u32,
    /// Inline CPU storage per resource. Native-only arenas may use zero.
    pub payload_capacity: usize,
    pub memory_budget: u64,
    pub max_incarnations: u32,
    /// Nanoseconds allowed to drain after closure is observed. Expiry reports recovery
    /// failure; it never permits reuse. Active consumers may keep their leases.
    pub drain_timeout: u128,
}

/// Complete, immutable metadata copied only after acquiring the resource. Integer fields
/// keep unknown enum values representable for validation at the consumer API.
#[derive(Debug, Clone, Copy, PartialEq, Eq, Structural)]
pub struct FrameDescriptor {
    pub cursor: u64,
    pub sequence: u64,
    pub timestamp_ns: u64,
    /// Installed allocation generation, stamped by the arena at publication.
    pub config_generation: u64,
    pub pool_id: u64,
    pub payload_offset: u64,
    pub payload_len: u64,
    pub modifier: u64,
    pub fence_id: u64,
    pub fence_value: u64,
    pub damage_base_sequence: u64,
    pub producer_drop_count: u64,
    pub width: u32,
    pub height: u32,
    pub stride: u32,
    pub pixel_format: u32,
    pub slot_id: u32,
    pub clock_domain: u32,
    pub color_space: u32,
    pub sync_kind: u32,
    pub payload_kind: u32,
    pub damage_kind: u32,
    pub dropped_before_publish: u32,
    pub flags: u32,
}

/// The descriptor with every field zero.
pub open spec fn blank_descriptor() -> FrameDescriptor {
    FrameDescriptor {
        cursor: 0,
        sequence: 0,
        timestamp_ns: 0,
        config_generation: 0,
        pool_id: 0,
        payload_offset: 0,
        payload_len: 0,
        modifier: 0,
        fence_id: 0,
        fence_value: 0,
        damage_base_sequence: 0,
        producer_drop_count: 0,
        width: 0,
        height: 0,
        stride: 0,
        pixel_format: 0,
        slot_id: 0,
        clock_domain: 0,
        color_space: 0,
        sync_kind: 0,
        payload_kind: 0,
        damage_kind: 0,
        dropped_before_publish: 0,
        flags: 0,
    }
}

impl Default for FrameDescriptor {
    fn default() -> (result: Self)
        ensures
            result == blank_descriptor(),
    {
        FrameDescriptor {
            cursor: 0,
            sequence: 0,
            timestamp_ns: 0,
            config_generation: 0,
            pool_id: 0,
            payload_offset: 0,
            payload_len: 0,
            modifier: 0,
            fence_id: 0,
            fence_value: 0,
            damage_base_sequence: 0,
            producer_drop_count: 0,
            width: 0,
            height: 0,
            stride: 0,
            pixel_format: 0,
            slot_id: 0,
            clock_domain: 0,
            color_space: 0,
            sync_kind: 0,
            payload_kind: 0,
            damage_kind: 0,
            dropped_before_publish: 0,
            flags: 0,
        }
    }
}

#[derive(Debug, PartialEq, Eq)]
pub enum ArenaError {
    Notification(String),
    Admission(AdmissionError),
    Storage(CaptureTransferError),
    Configuration(&'static str),
    Mapping(&'static str),
    GenerationsExhausted,
    Closed,
    PayloadTooLarge,
    RecoveryRequired { reason: String },
}

impl ArenaError {
    /// What the error says.
    pub open spec fn text(self) -> Seq<char> {
        match self {
            ArenaError::Notification(why) => "acquisition notification failed: "@ + why@,
            ArenaError::Admission(error) => error.text(),
            ArenaError::Storage(error) => error.reported(),
            ArenaError::Configuration(why) => "invalid arena configuration: "@ + why@,
            ArenaError::Mapping(why) => "invalid acquisition mapping: "@ + why@,
            ArenaError::GenerationsExhausted => "frame generations exhausted"@,
            ArenaError::Closed => "the acquisition arena is closed"@,
            ArenaError::PayloadTooLarge => "payload exceeds resource capacity"@,
            ArenaError::RecoveryRequired { reason } => "incarnation recovery required: "@ + reason@,
        }
    }

    /// The error in words.
    pub fn message(&self) -> (result: String)
        ensures
            result@ == self.text(),
    {
        match self {
            ArenaError::Notification(why) => String::from_str(
                "acquisition notification failed: ",
            ).concat(why.as_str()),
            ArenaError::Admission(error) => error.message(),
            ArenaError::Storage(error) => error.message(),
            ArenaError::Configuration(why) => String::from_str(
                "invalid arena configuration: ",
            ).concat(why),
            ArenaError::Mapping(why) => String::from_str(
                "invalid acquisition mapping: ",
            ).concat(why),
            ArenaError::GenerationsExhausted => String::from_str("frame generations exhausted"),
            ArenaError::Closed => String::from_str("the acquisition arena is closed"),
            ArenaError::PayloadTooLarge => String::from_str("payload exceeds resource capacity"),
            ArenaError::RecoveryRequired { reason } => String::from_str(
                "incarnation recovery required: ",
            ).concat(reason.as_str()),
        }
    }
}

/// Whether an error is a configuration error with this text.
pub open spec fn configuration_error(error: ArenaError, why: Seq<char>) -> bool {
    error matches ArenaError::Configuration(text) && text@ == why
}

/// Whether an error is a mapping error with this text.
pub open spec fn mapping_error(error: ArenaError, why: Seq<char>) -> bool {
    error matches ArenaError::Mapping(text) && text@ == why
}

#[derive(Debug, Clone, Copy, PartialEq, Eq, Structural)]
pub enum PublishOutcome {
    Published { cursor: u64 },
    Dropped,
}

/// What an advertised resource's state word says: the generation that it holds, and
/// whether that generation may still be acquired.
pub open spec fn state_word(generation: u64, valid: bool) -> int {
    generation * 2 + if valid {
        1int
    } else {
        0
    }
}

} // verus!
