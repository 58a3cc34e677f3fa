//! Sizes and offsets of the shared mappings.

use super::{configuration_error, ArenaError};
use vstd::prelude::*;

verus! {

/// Bytes before the first slot, ring position or record of every mapping.
pub const HEADER_LEN: usize = 256;

/// Bytes of one resource record: its state word and its descriptor, aligned.
pub const RECORD_LEN: usize = 256;

/// Bytes of one claim slot: the claim and the three words of a deferred release.
pub const CLAIM_SLOT_LEN: usize = 32;

/// Bytes of one timeline registration.
pub const REGISTRATION_LEN: usize = 8;

/// Whether an error says that a size does not fit.
pub open spec fn size_overflow(error: ArenaError) -> bool {
    configuration_error(error, "mapping size overflow"@)
}

pub fn checked_add(a: usize, b: usize) -> (result: Result<usize, ArenaError>)
    ensures
        match result {
            Ok(sum) => sum == a + b,
            Err(error) => a + b > usize::MAX && size_overflow(error),
        },
{
    match a.checked_add(b) {
        Some(sum) => Ok(sum),
        None => Err(ArenaError::Configuration("mapping size overflow")),
    }
}

pub fn checked_mul(a: usize, b: usize) -> (result: Result<usize, ArenaError>)
    ensures
        match result {
            Ok(product) => product == a * b,
            Err(error) => a * b > usize::MAX && size_overflow(error),
        },
{
    match a.checked_mul(b) {
        Some(product) => Ok(product),
        None => Err(ArenaError::Configuration("mapping size overflow")),
    }
}

/// The smallest multiple of an alignment that is not below a value.
pub open spec fn rounded_up(value: int, alignment: int) -> int {
    (value + alignment - 1) / alignment * alignment
}

/// Rounding up gives a multiple that is not below the value and less than one alignment
/// above it.
pub proof fn rounding_is_tight(value: int, alignment: int)
    requires
        value >= 0,
        alignment > 0,
    ensures
        rounded_up(value, alignment) % alignment == 0,
        value <= rounded_up(value, alignment) < value + alignment,
{
    let q = (value + alignment - 1) / alignment;
    let r = (value + alignment - 1) % alignment;
    vstd::arithmetic::div_mod::lemma_fundamental_div_mod(value + alignment - 1, alignment);
    vstd::arithmetic::div_mod::lemma_mod_multiples_basic(q, alignment);
    assert(q * alignment == alignment * q) by (nonlinear_arith);
}

/// Whole pages of words hold whole words.
pub proof fn whole_pages_hold_whole_words(value: int, page: int)
    requires
        page > 0,
        page % 8 == 0,
    ensures
        rounded_up(value, page) % 8 == 0,
{
    let q = (value + page - 1) / page;
    let k = page / 8;
    assert(page == 8 * k);
    assert(q * page == 8 * (q * k)) by (nonlinear_arith)
        requires
            page == 8 * k,
    ;
    assert((8 * (q * k)) % 8 == 0);
}

pub fn rounded(value: usize, alignment: usize) -> (result: Result<usize, ArenaError>)
    requires
        alignment > 0,
    ensures
        match result {
            Ok(length) => length == rounded_up(value as int, alignment as int) && value + alignment
                - 1 <= usize::MAX,
            Err(error) => value + alignment - 1 > usize::MAX && size_overflow(error),
        },
{
    match checked_add(value, alignment - 1) {
        Ok(sum) => {
            proof {
                rounding_is_tight(value as int, alignment as int);
                vstd::arithmetic::div_mod::lemma_fundamental_div_mod(sum as int, alignment as int);
                assert((sum / alignment) * alignment == alignment * (sum / alignment))
                    by (nonlinear_arith);
            }
            Ok(sum / alignment * alignment)
        },
        Err(error) => Err(error),
    }
}

/// Rounds up to whole pages. The page size is what the system reports for it.
pub fn page_rounded(value: usize, page: i64) -> (result: Result<usize, ArenaError>)
    ensures
        match result {
            Ok(length) => 0 < page <= usize::MAX && length == rounded_up(value as int, page as int)
                && value + page - 1 <= usize::MAX,
            Err(error) => if page <= 0 || page > usize::MAX {
                configuration_error(error, "cannot determine OS page size"@)
            } else {
                value + page - 1 > usize::MAX && size_overflow(error)
            },
        },
{
    if page <= 0 || page as u64 > usize::MAX as u64 {
        return Err(ArenaError::Configuration("cannot determine OS page size"));
    }
    rounded(value, page as usize)
}

/// Why a mapping of that many bytes cannot be rounded to whole pages.
pub open spec fn length_refused(error: ArenaError, bytes: int, page: int) -> bool {
    if bytes > usize::MAX {
        size_overflow(error)
    } else if page <= 0 || page > usize::MAX {
        configuration_error(error, "cannot determine OS page size"@)
    } else {
        bytes + page - 1 > usize::MAX && size_overflow(error)
    }
}

/// Whether that many bytes can be rounded to whole pages.
pub open spec fn length_fits(bytes: int, page: int) -> bool {
    bytes <= usize::MAX && 0 < page <= usize::MAX && bytes + page - 1 <= usize::MAX
}

/// Bytes of a resource generation before rounding: the header, the records and the payloads.
pub open spec fn resource_bytes(resources: int, payload_capacity: int) -> int {
    HEADER_LEN + resources * RECORD_LEN + resources * payload_capacity
}

/// Where the parts of one resource generation lie.
#[derive(Debug, Clone, Copy, PartialEq, Eq, Structural)]
pub struct ResourceLayout {
    pub resources: usize,
    pub history: usize,
    pub payload_capacity: usize,
    pub records: usize,
    pub payload: usize,
    pub len: usize,
}

impl ResourceLayout {
    /// The layout for these sizes, whether or not they fit in memory.
    pub open spec fn consistent(self, page: int) -> bool {
        &&& 0 < self.history < self.resources
        &&& self.records == HEADER_LEN
        &&& self.payload == HEADER_LEN + self.resources * RECORD_LEN
        &&& self.len == rounded_up(self.payload + self.resources * self.payload_capacity, page)
        &&& page > 0
        &&& self.payload + self.resources * self.payload_capacity <= self.len
    }

    pub open spec fn spec_record_offset(self, index: int) -> int {
        self.records + index * RECORD_LEN
    }

    pub open spec fn spec_payload_offset(self, index: int) -> int {
        self.payload + index * self.payload_capacity
    }

    /// Lays out one resource generation.
    pub fn new(resources: usize, history: usize, payload_capacity: usize, page: i64) -> (result:
        Result<Self, ArenaError>)
        ensures
            match result {
                Ok(layout) => {
                    &&& layout.resources == resources
                    &&& layout.history == history
                    &&& layout.payload_capacity == payload_capacity
                    &&& layout.consistent(page as int)
                    &&& layout.len == rounded_up(
                        resource_bytes(resources as int, payload_capacity as int),
                        page as int,
                    )
                    &&& length_fits(
                        resource_bytes(resources as int, payload_capacity as int),
                        page as int,
                    )
                },
                Err(error) => if history == 0 || resources <= history {
                    configuration_error(error, "resources must exceed a nonzero history"@)
                } else {
                    length_refused(
                        error,
                        resource_bytes(resources as int, payload_capacity as int),
                        page as int,
                    )
                },
            },
    {
        if history == 0 || resources <= history {
            return Err(ArenaError::Configuration("resources must exceed a nonzero history"));
        }
        let records: usize = HEADER_LEN;
        proof {
            assert(resources * payload_capacity >= 0) by (nonlinear_arith)
                requires
                    resources >= 0,
                    payload_capacity >= 0,
            ;
        }
        let record_bytes: usize = match checked_mul(resources, RECORD_LEN) {
            Ok(bytes) => bytes,
            Err(error) => {
                return Err(error);
            },
        };
        let payload: usize = match checked_add(records, record_bytes) {
            Ok(offset) => offset,
            Err(error) => {
                return Err(error);
            },
        };
        let payload_bytes: usize = match checked_mul(resources, payload_capacity) {
            Ok(bytes) => bytes,
            Err(error) => {
                return Err(error);
            },
        };
        let end: usize = match checked_add(payload, payload_bytes) {
            Ok(end) => end,
            Err(error) => {
                return Err(error);
            },
        };
        match page_rounded(end, page) {
            Ok(len) => {
                proof {
                    rounding_is_tight(end as int, page as int);
                }
                Ok(ResourceLayout { resources, history, payload_capacity, records, payload, len })
            },
            Err(error) => Err(error),
        }
    }

    pub fn record_offset(self, index: usize) -> (result: usize)
        requires
            exists|page: int| self.consistent(page),
            index < self.resources,
        ensures
            result == self.spec_record_offset(index as int),
            result % 8 == 0,
            result + RECORD_LEN <= self.payload,
    {
        proof {
            assert(index * RECORD_LEN + RECORD_LEN <= self.resources * RECORD_LEN)
                by (nonlinear_arith)
                requires
                    index < self.resources,
            ;
        }
        self.records + index * RECORD_LEN
    }

    pub fn payload_offset(self, index: usize) -> (result: usize)
        requires
            exists|page: int| self.consistent(page),
            index < self.resources,
        ensures
            result == self.spec_payload_offset(index as int),
            result + self.payload_capacity <= self.len,
    {
        proof {
            let page = choose|page: int| self.consistent(page);
            assert(index * self.payload_capacity + self.payload_capacity <= self.resources
                * self.payload_capacity) by (nonlinear_arith)
                requires
                    index < self.resources,
                    0 <= self.payload_capacity,
            ;
            assert(0 <= index * self.payload_capacity) by (nonlinear_arith)
                requires
                    0 <= index,
                    0 <= self.payload_capacity,
            ;
        }
        self.payload + index * self.payload_capacity
    }
}

/// Records and payloads of different resources do not overlap, no payload overlaps a record,
/// and all lie inside the mapping.
pub proof fn resources_do_not_overlap(layout: ResourceLayout, page: int, i: int, j: int)
    requires
        layout.consistent(page),
        0 <= i < j < layout.resources,
    ensures
        HEADER_LEN <= layout.spec_record_offset(i),
        layout.spec_record_offset(i) + RECORD_LEN <= layout.spec_record_offset(j),
        layout.spec_record_offset(j) + RECORD_LEN <= layout.spec_payload_offset(i),
        layout.spec_payload_offset(i) + layout.payload_capacity <= layout.spec_payload_offset(j),
        layout.spec_payload_offset(j) + layout.payload_capacity <= layout.len,
{
    let c = layout.payload_capacity as int;
    let n = layout.resources as int;
    assert(i * c + c <= j * c) by (nonlinear_arith)
        requires
            i + 1 <= j,
            c >= 0,
    ;
    assert(j * c + c <= n * c) by (nonlinear_arith)
        requires
            j + 1 <= n,
            c >= 0,
    ;
    assert(0 <= i * c) by (nonlinear_arith)
        requires
            0 <= i,
            c >= 0,
    ;
}

/// Bytes of a claim page before rounding: the header, the slots with one timeline
/// registration each, and the mapping words.
pub open spec fn claim_bytes(frames: int) -> int {
    HEADER_LEN + frames * 40 + (frames + 2) * 8
}

/// Length of the claim mapping for a holding of that many frames.
pub fn claim_len(frames: u32, page: i64) -> (result: Result<usize, ArenaError>)
    ensures
        match result {
            Ok(len) => length_fits(claim_bytes(frames as int), page as int) && len == rounded_up(
                claim_bytes(frames as int),
                page as int,
            ) && claim_bytes(frames as int) <= len,
            Err(error) => length_refused(error, claim_bytes(frames as int), page as int),
        },
{
    let slots: usize = match checked_mul(frames as usize, CLAIM_SLOT_LEN + REGISTRATION_LEN) {
        Ok(bytes) => bytes,
        Err(error) => {
            return Err(error);
        },
    };
    let front: usize = match checked_add(HEADER_LEN, slots) {
        Ok(bytes) => bytes,
        Err(error) => {
            return Err(error);
        },
    };
    let mappings: usize = match checked_add(frames as usize, 2) {
        Ok(count) => match checked_mul(count, 8) {
            Ok(bytes) => bytes,
            Err(error) => {
                return Err(error);
            },
        },
        Err(error) => {
            return Err(error);
        },
    };
    let end: usize = match checked_add(front, mappings) {
        Ok(bytes) => bytes,
        Err(error) => {
            return Err(error);
        },
    };
    match page_rounded(end, page) {
        Ok(len) => {
            proof {
                rounding_is_tight(end as int, page as int);
            }
            Ok(len)
        },
        Err(error) => Err(error),
    }
}

/// Length of the control mapping for a history of that many positions.
pub fn control_len(history: usize, page: i64) -> (result: Result<usize, ArenaError>)
    ensures
        match result {
            Ok(len) => history > 0 && length_fits(HEADER_LEN + history * 8, page as int) && len
                == rounded_up(
                HEADER_LEN + history * 8,
                page as int,
            ) && HEADER_LEN + history * 8 <= len,
            Err(error) => if history == 0 {
                configuration_error(error, "history must be nonzero"@)
            } else {
                length_refused(error, HEADER_LEN + history * 8, page as int)
            },
        },
{
    if history == 0 {
        return Err(ArenaError::Configuration("history must be nonzero"));
    }
    let ring: usize = match checked_mul(history, 8) {
        Ok(bytes) => bytes,
        Err(error) => {
            return Err(error);
        },
    };
    let end: usize = match checked_add(HEADER_LEN, ring) {
        Ok(bytes) => bytes,
        Err(error) => {
            return Err(error);
        },
    };
    match page_rounded(end, page) {
        Ok(len) => {
            proof {
                rounding_is_tight(end as int, page as int);
            }
            Ok(len)
        },
        Err(error) => Err(error),
    }
}

} // verus!
