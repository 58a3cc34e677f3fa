//! Descriptors and resource headers as words of a shared mapping.

use super::mapping::{Record, ResourceHeader};
use super::{FrameDescriptor, ScopeId};
use vstd::prelude::*;

verus! {

/// The words of a descriptor.
pub const DESCRIPTOR_WORDS: usize = 18;

/// The words of a resource header.
pub const RESOURCE_HEADER_WORDS: usize = 11;

/// Two numbers in one word, the first one low.
pub open spec fn paired(low: u32, high: u32) -> u64 {
    (low + high * 0x1_0000_0000) as u64
}

fn pair(low: u32, high: u32) -> (result: u64)
    ensures
        result == paired(low, high),
{
    low as u64 + high as u64 * 0x1_0000_0000
}

/// The low number of a word.
pub open spec fn low_of(word: u64) -> u32 {
    (word % 0x1_0000_0000) as u32
}

/// The high number of a word.
pub open spec fn high_of(word: u64) -> u32 {
    (word / 0x1_0000_0000) as u32
}

fn low(word: u64) -> (result: u32)
    ensures
        result == low_of(word),
{
    (word % 0x1_0000_0000) as u32
}

fn high(word: u64) -> (result: u32)
    ensures
        result == high_of(word),
{
    (word / 0x1_0000_0000) as u32
}

/// A descriptor's words: its wide fields in order, then its narrow ones in pairs.
pub open spec fn descriptor_words_of(descriptor: FrameDescriptor) -> Seq<u64> {
    seq![
        descriptor.cursor,
        descriptor.sequence,
        descriptor.timestamp_ns,
        descriptor.config_generation,
        descriptor.pool_id,
        descriptor.payload_offset,
        descriptor.payload_len,
        descriptor.modifier,
        descriptor.fence_id,
        descriptor.fence_value,
        descriptor.damage_base_sequence,
        descriptor.producer_drop_count,
        paired(descriptor.width, descriptor.height),
        paired(descriptor.stride, descriptor.pixel_format),
        paired(descriptor.slot_id, descriptor.clock_domain),
        paired(descriptor.color_space, descriptor.sync_kind),
        paired(descriptor.payload_kind, descriptor.damage_kind),
        paired(descriptor.dropped_before_publish, descriptor.flags),
    ]
}

/// A descriptor's words.
pub fn descriptor_words(descriptor: &FrameDescriptor) -> (result: Vec<u64>)
    ensures
        result@ == descriptor_words_of(*descriptor),
{
    let mut words: Vec<u64> = Vec::new();
    words.push(descriptor.cursor);
    words.push(descriptor.sequence);
    words.push(descriptor.timestamp_ns);
    words.push(descriptor.config_generation);
    words.push(descriptor.pool_id);
    words.push(descriptor.payload_offset);
    words.push(descriptor.payload_len);
    words.push(descriptor.modifier);
    words.push(descriptor.fence_id);
    words.push(descriptor.fence_value);
    words.push(descriptor.damage_base_sequence);
    words.push(descriptor.producer_drop_count);
    words.push(pair(descriptor.width, descriptor.height));
    words.push(pair(descriptor.stride, descriptor.pixel_format));
    words.push(pair(descriptor.slot_id, descriptor.clock_domain));
    words.push(pair(descriptor.color_space, descriptor.sync_kind));
    words.push(pair(descriptor.payload_kind, descriptor.damage_kind));
    words.push(pair(descriptor.dropped_before_publish, descriptor.flags));
    assert(words@ =~= descriptor_words_of(*descriptor));
    words
}

/// The descriptor that these words hold.
pub open spec fn descriptor_of(words: Seq<u64>) -> FrameDescriptor {
    FrameDescriptor {
        cursor: words[0],
        sequence: words[1],
        timestamp_ns: words[2],
        config_generation: words[3],
        pool_id: words[4],
        payload_offset: words[5],
        payload_len: words[6],
        modifier: words[7],
        fence_id: words[8],
        fence_value: words[9],
        damage_base_sequence: words[10],
        producer_drop_count: words[11],
        width: low_of(words[12]),
        height: high_of(words[12]),
        stride: low_of(words[13]),
        pixel_format: high_of(words[13]),
        slot_id: low_of(words[14]),
        clock_domain: high_of(words[14]),
        color_space: low_of(words[15]),
        sync_kind: high_of(words[15]),
        payload_kind: low_of(words[16]),
        damage_kind: high_of(words[16]),
        dropped_before_publish: low_of(words[17]),
        flags: high_of(words[17]),
    }
}

/// The descriptor that these words hold.
pub fn descriptor_from_words(words: &[u64]) -> (result: FrameDescriptor)
    requires
        words@.len() == DESCRIPTOR_WORDS,
    ensures
        result == descriptor_of(words@),
{
    FrameDescriptor {
        cursor: words[0],
        sequence: words[1],
        timestamp_ns: words[2],
        config_generation: words[3],
        pool_id: words[4],
        payload_offset: words[5],
        payload_len: words[6],
        modifier: words[7],
        fence_id: words[8],
        fence_value: words[9],
        damage_base_sequence: words[10],
        producer_drop_count: words[11],
        width: low(words[12]),
        height: high(words[12]),
        stride: low(words[13]),
        pixel_format: high(words[13]),
        slot_id: low(words[14]),
        clock_domain: high(words[14]),
        color_space: low(words[15]),
        sync_kind: high(words[15]),
        payload_kind: low(words[16]),
        damage_kind: high(words[16]),
        dropped_before_publish: low(words[17]),
        flags: high(words[17]),
    }
}

/// A header's words.
pub open spec fn header_words_of(header: ResourceHeader) -> Seq<u64> {
    seq![
        header.magic,
        header.version,
        header.resources,
        header.history,
        header.payload_capacity,
        header.map_len,
        header.records_offset,
        header.payload_offset,
        header.scope.low,
        header.scope.high,
        header.generation,
    ]
}

/// A header's words.
pub fn header_words(header: &ResourceHeader) -> (result: Vec<u64>)
    ensures
        result@ == header_words_of(*header),
{
    let mut words: Vec<u64> = Vec::new();
    words.push(header.magic);
    words.push(header.version);
    words.push(header.resources);
    words.push(header.history);
    words.push(header.payload_capacity);
    words.push(header.map_len);
    words.push(header.records_offset);
    words.push(header.payload_offset);
    words.push(header.scope.low);
    words.push(header.scope.high);
    words.push(header.generation);
    assert(words@ =~= header_words_of(*header));
    words
}

/// The header that these words hold.
pub open spec fn header_of(words: Seq<u64>) -> ResourceHeader {
    ResourceHeader {
        magic: words[0],
        version: words[1],
        resources: words[2],
        history: words[3],
        payload_capacity: words[4],
        map_len: words[5],
        records_offset: words[6],
        payload_offset: words[7],
        scope: ScopeId { low: words[8], high: words[9] },
        generation: words[10],
    }
}

/// The header that these words hold.
pub fn header_from_words(words: &[u64]) -> (result: ResourceHeader)
    requires
        words@.len() == RESOURCE_HEADER_WORDS,
    ensures
        result == header_of(words@),
{
    ResourceHeader {
        magic: words[0],
        version: words[1],
        resources: words[2],
        history: words[3],
        payload_capacity: words[4],
        map_len: words[5],
        records_offset: words[6],
        payload_offset: words[7],
        scope: ScopeId { low: words[8], high: words[9] },
        generation: words[10],
    }
}

/// What a producer stores of a frame or of its storage is what a consumer loads.
pub proof fn records_round_trip(descriptor: FrameDescriptor, header: ResourceHeader)
    ensures
        descriptor_words_of(descriptor).len() == DESCRIPTOR_WORDS,
        descriptor_of(descriptor_words_of(descriptor)) == descriptor,
        header_words_of(header).len() == RESOURCE_HEADER_WORDS,
        header_of(header_words_of(header)) == header,
{
}

/// A record whose bytes lie at its place is loaded as it was stored, whatever follows them.
pub proof fn stored_records_are_loaded(record: Record, bytes: Seq<u8>)
    requires
        record.payload.len() == record.descriptor.payload_len,
        record.payload.is_prefix_of(bytes),
    ensures
        Record::stored(
            record.state,
            descriptor_of(descriptor_words_of(record.descriptor)),
            bytes,
        ) == record,
{
    assert(bytes.take(record.payload.len() as int) =~= record.payload);
}

} // verus!
