//! What crosses from a producer to its consumers: grants, offers, pages and sizes.

use super::claims::claim_page;
use super::consumer::configuration::RejectedConfiguration;
use super::consumer::{AcquireOutcome, ArenaConsumer, FrameLease};
use super::grants::{ConfigurationGrant, ConsumerGrant, GrantDescriptor};
use super::layout::{claim_len, control_len, rounding_is_tight, ResourceLayout};
use super::lifecycle::installed_storage_replaces_the_old;
use super::pages::ArenaPages;
use super::producer::reconfiguration::ConfigurationInstall;
use super::record::{descriptor_words, header_words};
use super::mapping::ResourceHeader;
use super::wait::{check, milliseconds, WaitEvents, WaitInterest, WaitOutcome};
use super::{ArenaError, FrameDescriptor, ScopeId};
use crate::acquisition::IncarnationId;
use vstd::prelude::*;

verus! {

/// A consumer is made of a grant that its pages bear out: it is the incarnation of the grant, with
/// the storage of the grant installed, as many slots as were granted and nothing held; the offer is
/// taken, and nothing else on the pages changes.
pub proof fn consumers_begin_as_granted<T>(
    grant: ConsumerGrant,
    pages: &mut ArenaPages,
    page_size: i64,
    result: Result<ArenaConsumer<T>, ArenaError>,
)
    requires
        call_ensures(ArenaConsumer::<T>::from_grant, (grant, pages, page_size), result),
    ensures
        result matches Ok(consumer) ==> {
            let id = grant@.incarnation.0;
            let was = old(pages)@.claims[id];
            let is = final(pages)@.claims[id];
            &&& consumer@.incarnation == grant@.incarnation
            &&& consumer@.arena_scope == grant@.arena_scope
            &&& consumer@.claim_scope == grant@.claim_scope
            &&& consumer@.recipient_pid == grant@.recipient_pid
            &&& consumer@.alive
            &&& consumer@.held.len() == grant@.frames
            &&& forall|i: int| 0 <= i < grant@.frames ==> (#[trigger] consumer@.held[i]) is None
            &&& forall|i: int| 0 <= i < grant@.frames ==> (#[trigger] consumer@.pending[i]) is None
            &&& forall|i: int| 0 <= i < grant@.frames ==> (#[trigger] consumer@.bound[i]) is None
            &&& consumer@.installed matches Some(mapping) && mapping.generation == grant@.generation
                && mapping.slot == grant@.mapping_slot && mapping.layout == grant@.layout
            &&& is.offered == 0
            &&& is.slots == was.slots
            &&& is.mappings == was.mappings
            &&& is.active == was.active
            &&& final(pages)@.resources == old(pages)@.resources
            &&& final(pages)@.control == old(pages)@.control
            &&& old(pages)@.control.scope == grant@.arena_scope
            &&& old(pages)@.resources.contains_key(grant@.generation)
            &&& old(pages)@.resources[grant@.generation].generation == grant@.generation
            &&& old(pages)@.resources[grant@.generation].layout.payload_capacity
                == grant@.layout.payload_capacity
            &&& old(pages)@.resources[grant@.generation].layout.resources == grant@.layout.resources
            &&& was.recipient_pid == grant@.recipient_pid
            &&& grant@.mapping_slot < grant@.frames + 2
        },
{
    if result is Ok {
        let held = (result->Ok_0)@.held;
        assert(held.len() == grant@.frames);
    }
}

/// A grant that the pages bear out is never refused, and one that they do not is given up: the page
/// is closed and quiet, its word is cleared, and its slots stay as they are.
pub proof fn grants_are_taken_or_given_up<T>(
    grant: ConsumerGrant,
    pages: &mut ArenaPages,
    page_size: i64,
    result: Result<ArenaConsumer<T>, ArenaError>,
)
    requires
        call_ensures(ArenaConsumer::<T>::from_grant, (grant, pages, page_size), result),
    ensures
        ({
            let id = grant@.incarnation.0;
            let page = old(pages)@.claims[id];
            let resources = old(pages)@.resources[grant@.generation];
            let borne_out = {
                &&& old(pages)@.control.scope == grant@.arena_scope
                &&& old(pages)@.control.ring.len() == grant@.layout.history
                &&& old(pages)@.resources.contains_key(grant@.generation)
                &&& resources.layout == grant@.layout
                &&& resources.scope == grant@.arena_scope
                &&& resources.generation == grant@.generation
                &&& old(pages)@.claims.contains_key(id)
                &&& page.incarnation == grant@.incarnation
                &&& page.recipient_pid == grant@.recipient_pid
                &&& old(pages).claims@[id].spec_frames() == grant@.frames
                &&& old(pages).claims@[id].spec_len() == grant@.claim_len
                &&& grant@.mapping_slot < grant@.frames + 2
            };
            &&& borne_out ==> result is Ok
            &&& result is Err && old(pages)@.claims.contains_key(id) && grant@.mapping_slot
                < page.mappings.len() ==> {
                let left = final(pages)@.claims[id];
                &&& left.active == 0
                &&& left.quiescent != 0
                &&& left.offered == 0
                &&& left.mappings == page.mappings.update(grant@.mapping_slot as int, 0)
                &&& left.slots == page.slots
            }
            &&& result is Err ==> final(pages)@.resources == old(pages)@.resources
                && final(pages)@.control == old(pages)@.control
        }),
{
}

/// An offer is installed exactly where it was made to this consumer, the consumer is open, the
/// storage is there as offered, and no other offer has overtaken it. Frames that are held stay held.
pub proof fn offers_are_installed_or_declined<T>(
    consumer: &mut ArenaConsumer<T>,
    pages: &mut ArenaPages,
    grant: ConfigurationGrant,
    result: Result<ConfigurationInstall, RejectedConfiguration>,
)
    requires
        call_ensures(ArenaConsumer::<T>::install_configuration, (consumer, pages, grant), result),
    ensures
        ({
            let id = old(consumer)@.incarnation.0;
            let page = old(pages)@.claims[id];
            let left = final(pages)@.claims[id];
            let mine = grant@.arena_scope == old(consumer)@.arena_scope
                && grant@.claim_scope == old(consumer)@.claim_scope;
            let open = page.active != 0 && old(pages)@.control.terminal == 0;
            let there = {
                &&& old(pages)@.resources.contains_key(grant@.generation)
                &&& old(pages)@.resources[grant@.generation].layout == grant@.layout
                &&& old(pages)@.resources[grant@.generation].scope == grant@.arena_scope
                &&& old(pages)@.resources[grant@.generation].generation == grant@.generation
            };
            let current = grant@.generation == old(pages)@.control.configuration;
            &&& mine && open && there && current ==> (result matches Ok(
                ConfigurationInstall::Installed,
            ))
            &&& mine && open && there && !current ==> (result matches Ok(
                ConfigurationInstall::Stale,
            ))
            &&& !mine || !open ==> result is Err
            &&& result matches Ok(ConfigurationInstall::Installed) ==> {
                &&& mine && current
                &&& final(consumer)@.installed matches Some(mapping) && mapping.generation
                    == grant@.generation && mapping.layout == grant@.layout && mapping.slot
                    == grant@.mapping_slot
                &&& left.offered == 0
            }
            &&& !(result matches Ok(ConfigurationInstall::Installed))
                ==> final(consumer)@ == old(consumer)@
            &&& result matches Err(rejected) ==> rejected.grant == grant
                && final(pages)@ == old(pages)@
            &&& final(consumer)@.held == old(consumer)@.held
            &&& final(consumer)@.pending == old(consumer)@.pending
            &&& final(pages)@.resources == old(pages)@.resources
            &&& final(pages)@.control == old(pages)@.control
        }),
{
    installed_storage_replaces_the_old(
        old(consumer)@,
        old(pages)@.claims[old(consumer)@.incarnation.0],
        grant@,
    );
}

/// A consumer that lets its storage go keeps the frames that it holds and acquires nothing more of
/// it.
pub proof fn relinquished_storage_keeps_its_frames<T>(
    consumer: &mut ArenaConsumer<T>,
    pages: &mut ArenaPages,
)
    requires
        call_ensures(ArenaConsumer::<T>::relinquish_configuration, (consumer, pages), ()),
    ensures
        final(consumer)@.installed is None,
        final(consumer)@.held == old(consumer)@.held,
        final(consumer)@.pending == old(consumer)@.pending,
        final(pages)@.claims[old(consumer)@.incarnation.0].slots
            == old(pages)@.claims[old(consumer)@.incarnation.0].slots,
        final(pages)@.resources == old(pages)@.resources,
        final(pages)@.control == old(pages)@.control,
{
}

/// A frame of native storage that its owner takes is the lease as it was; one that it refuses gives
/// its slot back.
pub proof fn native_frames_are_taken_or_given_back<T>(
    consumer: &mut ArenaConsumer<T>,
    pages: &mut ArenaPages,
    lease: FrameLease,
    verdict: Result<(), ArenaError>,
    result: Result<AcquireOutcome, ArenaError>,
)
    requires
        call_ensures(
            ArenaConsumer::<T>::finish_native,
            (consumer, pages, lease, verdict),
            result,
        ),
        lease@.slot < old(pages)@.claims[old(consumer)@.incarnation.0].slots.len(),
        lease@.slot < old(consumer)@.held.len(),
    ensures
        verdict is Ok ==> (result matches Ok(AcquireOutcome::Frame(given)) && given@ == lease@)
            && final(pages)@ == old(pages)@ && final(consumer)@ == old(consumer)@,
        verdict matches Err(error) ==> {
            let id = old(consumer)@.incarnation.0;
            &&& result == Err::<AcquireOutcome, ArenaError>(error)
            &&& final(pages)@.claims[id].slots == old(pages)@.claims[id].slots.update(
                lease@.slot as int,
                0,
            )
            &&& final(consumer)@.held == old(consumer)@.held.update(lease@.slot as int, None)
        },
{
}

/// The words of a claim page: sixteen of a header, sixteen of the incarnation's state, four to each
/// slot, one to each timeline, and one to each mapping, two more than there are slots.
pub proof fn claim_pages_have_their_words(
    words: Seq<u64>,
    incarnation: IncarnationId,
    frames: nat,
    scope: ScopeId,
    recipient_pid: u32,
    i: int,
)
    requires
        0 <= i < frames,
    ensures
        ({
            let page = claim_page(words, incarnation, frames, scope, recipient_pid, false, false);
            &&& page.incarnation == incarnation
            &&& page.scope == scope
            &&& page.recipient_pid == recipient_pid
            &&& page.active == words[16]
            &&& page.quiescent == words[17]
            &&& page.capacity_epoch == words[18]
            &&& page.wait_interest == words[19]
            &&& page.offered == words[20]
            &&& page.slots.len() == frames
            &&& page.slots[i] == words[32 + i * 4]
            &&& page.release_ids[i] == words[33 + i * 4]
            &&& page.release_values[i] == words[34 + i * 4]
            &&& page.pending[i] == words[35 + i * 4]
            &&& page.registered[i] == words[32 + frames * 4 + i]
            &&& page.mappings.len() == frames + 2
            &&& page.mappings[i] == words[32 + frames * 5 + i]
        }),
{
}

/// The words of a descriptor and of a resource header, each in its place.
pub proof fn records_have_their_words(
    descriptor: &FrameDescriptor,
    words: Vec<u64>,
    header: &ResourceHeader,
    front: Vec<u64>,
)
    requires
        call_ensures(descriptor_words, (descriptor,), words),
        call_ensures(header_words, (header,), front),
    ensures
        words@.len() == 18,
        words@[0] == descriptor.cursor,
        words@[1] == descriptor.sequence,
        words@[2] == descriptor.timestamp_ns,
        words@[3] == descriptor.config_generation,
        words@[4] == descriptor.pool_id,
        words@[5] == descriptor.payload_offset,
        words@[6] == descriptor.payload_len,
        words@[7] == descriptor.modifier,
        words@[8] == descriptor.fence_id,
        words@[9] == descriptor.fence_value,
        words@[10] == descriptor.damage_base_sequence,
        words@[11] == descriptor.producer_drop_count,
        words@[12] % 0x1_0000_0000 == descriptor.width,
        words@[12] / 0x1_0000_0000 == descriptor.height,
        words@[13] % 0x1_0000_0000 == descriptor.stride,
        words@[13] / 0x1_0000_0000 == descriptor.pixel_format,
        words@[14] % 0x1_0000_0000 == descriptor.slot_id,
        words@[14] / 0x1_0000_0000 == descriptor.clock_domain,
        words@[15] % 0x1_0000_0000 == descriptor.color_space,
        words@[15] / 0x1_0000_0000 == descriptor.sync_kind,
        words@[16] % 0x1_0000_0000 == descriptor.payload_kind,
        words@[16] / 0x1_0000_0000 == descriptor.damage_kind,
        words@[17] % 0x1_0000_0000 == descriptor.dropped_before_publish,
        words@[17] / 0x1_0000_0000 == descriptor.flags,
        front@.len() == 11,
        front@[0] == header.magic,
        front@[1] == header.version,
        front@[2] == header.resources,
        front@[3] == header.history,
        front@[4] == header.payload_capacity,
        front@[5] == header.map_len,
        front@[6] == header.records_offset,
        front@[7] == header.payload_offset,
        front@[8] == header.scope.low,
        front@[9] == header.scope.high,
        front@[10] == header.generation,
{
}

/// A layout for storage is what was asked for: a header, a record to each resource and the payload
/// of each, in whole pages and less than one page more than needed. It is refused exactly where
/// there would be no resource to spare, or the sum or the page size is none.
pub proof fn layouts_have_room(
    resources: usize,
    history: usize,
    payload_capacity: usize,
    page: i64,
    result: Result<ResourceLayout, ArenaError>,
)
    requires
        call_ensures(ResourceLayout::new, (resources, history, payload_capacity, page), result),
    ensures
        ({
            let bytes = 256 + resources * 256 + resources * payload_capacity;
            &&& result is Ok <==> 0 < history < resources && 0 < page <= usize::MAX && bytes + page
                - 1 <= usize::MAX
            &&& result matches Ok(layout) ==> {
                &&& layout.resources == resources
                &&& layout.history == history
                &&& layout.payload_capacity == payload_capacity
                &&& layout.records == 256
                &&& layout.payload == 256 + resources * 256
                &&& bytes <= layout.len < bytes + page
                &&& layout.len as int % page as int == 0
            }
        }),
{
    let n = resources as int;
    let c = payload_capacity as int;
    assert(n * c >= 0) by (nonlinear_arith)
        requires
            n >= 0,
            c >= 0,
    ;
    if page > 0 {
        rounding_is_tight(256 + n * 256 + n * c, page as int);
    }
}

/// A claim page has room for its header, its slots, its timelines and its mappings, and a control
/// page for its header and its ring, in whole pages and less than one page more than needed.
pub proof fn pages_have_room(
    frames: u32,
    history: usize,
    page: i64,
    claims: Result<usize, ArenaError>,
    control: Result<usize, ArenaError>,
)
    requires
        call_ensures(claim_len, (frames, page), claims),
        call_ensures(control_len, (history, page), control),
    ensures
        claims matches Ok(len) ==> {
            let bytes = 256 + frames * 32 + frames * 8 + (frames + 2) * 8;
            bytes <= len < bytes + page && len as int % page as int == 0
        },
        control matches Ok(len) ==> {
            let bytes = 256 + history * 8;
            bytes <= len < bytes + page && len as int % page as int == 0
        },
        history == 0 ==> control is Err,
        claims is Err ==> page <= 0 || page > usize::MAX || 256 + frames * 48 + 16 + page
            > usize::MAX,
        control is Err ==> history == 0 || page <= 0 || page > usize::MAX
            || 256 + history * 8 + page
            > usize::MAX,
{
    if page > 0 {
        rounding_is_tight(256 + frames * 40 + (frames + 2) * 8, page as int);
        rounding_is_tight(256 + history * 8, page as int);
    }
}

/// A setup descriptor is taken exactly where it is for this process in the version that is known,
/// names a holding and a storage that can be, and gives each mapping the length that it has room
/// in; and then with the layout that it names.
pub proof fn setups_are_checked(
    descriptor: GrantDescriptor,
    now: u128,
    own_pid: u32,
    page_size: i64,
    result: Result<ResourceLayout, ArenaError>,
)
    requires
        call_ensures(GrantDescriptor::check, (&descriptor, now, own_pid, page_size), result),
    ensures
        result matches Ok(layout) ==> {
            &&& descriptor.recipient_pid == own_pid
            &&& descriptor.generation != 0
            &&& descriptor.incarnation != 0
            &&& descriptor.holding != 0
            &&& descriptor.drain_timeout != 0
            &&& 0 < descriptor.history < descriptor.resources
            &&& layout.resources == descriptor.resources
            &&& layout.history == descriptor.history
            &&& layout.payload_capacity == descriptor.payload_capacity
            &&& layout.len == descriptor.resource_map_len
            &&& descriptor.claim_map_len >= 256 + descriptor.holding * 48 + 16
            &&& descriptor.control_map_len >= 256 + descriptor.history * 8
        },
        descriptor.recipient_pid != own_pid ==> result is Err,
        descriptor.generation == 0 ==> result is Err,
        descriptor.incarnation == 0 ==> result is Err,
        descriptor.holding == 0 ==> result is Err,
        descriptor.drain_timeout == 0 ==> result is Err,
{
    if result is Ok {
        rounding_is_tight(256 + descriptor.holding * 40 + (descriptor.holding + 2) * 8,
            page_size as int);
        rounding_is_tight(256 + descriptor.history * 8, page_size as int);
        let n = descriptor.resources as int;
        let c = descriptor.payload_capacity as int;
        assert(n * c >= 0) by (nonlinear_arith)
            requires
                n >= 0,
                c >= 0,
        ;
        rounding_is_tight(256 + n * 256 + n * c, page_size as int);
    }
}

/// A grant keeps every one of its terms on its way through a setup descriptor, and the claim page
/// that comes with it is the one that was sent.
pub proof fn grants_keep_their_terms(
    grant: ConsumerGrant,
    sent_size: i64,
    sent: Result<GrantDescriptor, (ArenaError, ConsumerGrant)>,
    words: Vec<u64>,
    now: u128,
    own_pid: u32,
    taken: Result<(ConsumerGrant, super::claims::ClaimMap), ArenaError>,
)
    requires
        call_ensures(ConsumerGrant::into_parts, (grant, sent_size), sent),
        grant@.layout.resources <= u32::MAX,
        grant@.layout.history <= u32::MAX,
        grant@.mapping_slot <= u32::MAX,
        sent matches Ok(descriptor) ==> call_ensures(
            ConsumerGrant::from_parts,
            (descriptor, words, now, own_pid, sent_size),
            taken,
        ),
    ensures
        sent is Ok ==> (taken matches Ok((given, page)) ==> {
            &&& given@.incarnation == grant@.incarnation
            &&& given@.generation == grant@.generation
            &&& given@.arena_scope == grant@.arena_scope
            &&& given@.claim_scope == grant@.claim_scope
            &&& given@.recipient_pid == grant@.recipient_pid
            &&& given@.recipient_pid == own_pid
            &&& given@.frames == grant@.frames
            &&& given@.mapping_slot == grant@.mapping_slot
            &&& given@.drain_timeout == grant@.drain_timeout
            &&& given@.claim_len == grant@.claim_len
            &&& given@.layout.resources == grant@.layout.resources
            &&& given@.layout.history == grant@.layout.history
            &&& given@.layout.payload_capacity == grant@.layout.payload_capacity
            &&& given@.layout.len == grant@.layout.len
            &&& words@.len() * 8 == grant@.claim_len
            &&& page@.incarnation == grant@.incarnation
            &&& page@.scope == grant@.claim_scope
            &&& page@.recipient_pid == own_pid
            &&& page@.offered == grant@.generation
            &&& page@.mappings[grant@.mapping_slot as int] == grant@.generation
            &&& page@.slots.len() == grant@.frames
            &&& forall|i: int|
                0 <= i < grant@.frames ==> (#[trigger] page@.slots[i]) == words@[32 + 4 * i]
        }),
        sent matches Err((_, kept)) ==> kept == grant,
{
}

/// What a waiter does after a look: a cancelled wait ends as cancelled; one that sees the end, other
/// storage, or a change that it asked for ends with what it sees; one whose time is up ends so; and
/// any other goes on.
pub proof fn looks_are_judged_in_order(
    cancelled: bool,
    observed: WaitEvents,
    current: WaitEvents,
    interest: WaitInterest,
    expired: bool,
    result: Option<WaitOutcome>,
)
    requires
        call_ensures(check, (cancelled, observed, current, interest, expired), result),
    ensures
        ({
            let changed = current.closed || current.reconfiguration_epoch
                != observed.reconfiguration_epoch || interest.0 & 1 != 0 && current.data_cursor
                != observed.data_cursor || interest.0 & 2 != 0 && current.capacity_epoch
                != observed.capacity_epoch;
            &&& cancelled ==> result == Some(WaitOutcome::Cancelled)
            &&& !cancelled && changed ==> result == Some(WaitOutcome::Changed(current))
            &&& !cancelled && !changed && expired ==> result == Some(WaitOutcome::TimedOut)
            &&& !cancelled && !changed && !expired ==> result is None
        }),
{
}

/// A sleep lasts until its deadline and less than a millisecond more, as far as it can be said in
/// one number; without a deadline it has no end.
pub proof fn sleeps_last_until_the_deadline(deadline: Option<u128>, now: u128, result: i32)
    requires
        call_ensures(milliseconds, (deadline, now), result),
    ensures
        deadline is None <==> result == -1,
        deadline matches Some(end) ==> {
            &&& result >= 0
            &&& end <= now ==> result == 0
            &&& end > now && result < i32::MAX ==> result * 1_000_000 >= end - now && (result - 1)
                * 1_000_000 < end - now
            &&& result == i32::MAX ==> end - now > (i32::MAX - 1) * 1_000_000
        },
{
}

/// The interests are told apart, and everything is all of them.
pub proof fn interests_are_told_apart(
    data: WaitInterest,
    capacity: WaitInterest,
    reconfiguration: WaitInterest,
    all: WaitInterest,
)
    requires
        call_ensures(WaitInterest::data, (), data),
        call_ensures(WaitInterest::capacity, (), capacity),
        call_ensures(WaitInterest::reconfiguration, (), reconfiguration),
        call_ensures(WaitInterest::all, (), all),
    ensures
        data.0 == 1 && capacity.0 == 2 && reconfiguration.0 == 4,
        all.0 == data.0 | capacity.0 | reconfiguration.0,
{
    assert(1u64 | 2 | 4 == 7) by (bit_vector);
}

/// An offer that is given up is over: its word is cleared, so that the next offer can be made, and
/// the producer wakes for it; slots and claims stay.
pub proof fn declined_offers_make_room_for_the_next(
    grant: ConfigurationGrant,
    pages: &mut ArenaPages,
    other: u64,
)
    requires
        call_ensures(ConfigurationGrant::decline, (grant, pages), ()),
        other != grant@.incarnation.0,
        old(pages)@.claims.contains_key(grant@.incarnation.0),
        grant@.mapping_slot < old(pages)@.claims[grant@.incarnation.0].mappings.len(),
    ensures
        ({
            let id = grant@.incarnation.0;
            let was = old(pages)@.claims[id];
            let is = final(pages)@.claims[id];
            &&& is.offered == 0
            &&& is.mappings == was.mappings.update(grant@.mapping_slot as int, 0)
            &&& is.release_wake
            &&& is.slots == was.slots
            &&& is.pending == was.pending
            &&& is.active == was.active
            &&& final(pages)@.claims[other] == old(pages)@.claims[other]
            &&& final(pages)@.resources == old(pages)@.resources
            &&& final(pages)@.control == old(pages)@.control
        }),
{
}

/// An offer that another one has overtaken is declined by the consumer, and a consumer of native
/// storage takes only an offer with as many slots as it has handles.
pub proof fn overtaken_offers_are_declined<T>(
    consumer: &mut ArenaConsumer<T>,
    pages: &mut ArenaPages,
    grant: ConfigurationGrant,
    slots: usize,
    result: Result<ConfigurationInstall, RejectedConfiguration>,
)
    requires
        call_ensures(
            ArenaConsumer::<T>::install_native_configuration,
            (consumer, pages, grant, slots),
            result,
        ),
        old(pages)@.claims.contains_key(grant@.incarnation.0),
        grant@.mapping_slot < old(pages)@.claims[grant@.incarnation.0].mappings.len(),
    ensures
        ({
            let id = grant@.incarnation.0;
            let was = old(pages)@.claims[id];
            let is = final(pages)@.claims[id];
            &&& result matches Ok(ConfigurationInstall::Stale) ==> {
                &&& grant@.generation != old(pages)@.control.configuration
                &&& is.offered == 0
                &&& is.mappings == was.mappings.update(grant@.mapping_slot as int, 0)
                &&& is.slots == was.slots
                &&& final(consumer)@ == old(consumer)@
            }
            &&& result matches Ok(ConfigurationInstall::Installed) ==> {
                &&& grant@.layout.payload_capacity == 0
                &&& grant@.layout.resources == slots
                &&& grant@.generation == old(pages)@.control.configuration
                &&& final(consumer)@.installed matches Some(mapping) && mapping.generation
                    == grant@.generation && mapping.layout == grant@.layout && mapping.slot
                    == grant@.mapping_slot
                &&& final(consumer)@.held == old(consumer)@.held
            }
            &&& grant@.layout.payload_capacity != 0 || grant@.layout.resources != slots
                ==> result is Err
            &&& result matches Err(rejected) ==> rejected.grant == grant && final(consumer)@
                == old(consumer)@ && final(pages)@ == old(pages)@
        }),
{
    installed_storage_replaces_the_old(
        old(consumer)@,
        old(pages)@.claims[old(consumer)@.incarnation.0],
        grant@,
    );
}

/// A consumer of native storage is made only of a grant without inline room and with as many slots
/// as it has handles, and then as any other; a grant that is not taken is given up.
pub proof fn native_consumers_begin_as_granted<T>(
    grant: ConsumerGrant,
    slots: usize,
    pages: &mut ArenaPages,
    page_size: i64,
    result: Result<ArenaConsumer<T>, ArenaError>,
)
    requires
        call_ensures(
            ArenaConsumer::<T>::from_native_grant,
            (grant, slots, pages, page_size),
            result,
        ),
    ensures
        result matches Ok(consumer) ==> {
            &&& grant@.layout.payload_capacity == 0
            &&& grant@.layout.resources == slots
            &&& consumer@.incarnation == grant@.incarnation
            &&& consumer@.claim_scope == grant@.claim_scope
            &&& consumer@.held.len() == grant@.frames
            &&& consumer@.alive
            &&& consumer@.installed matches Some(mapping) && mapping.generation == grant@.generation
                && mapping.slot == grant@.mapping_slot && mapping.layout == grant@.layout
            &&& final(pages)@.claims[grant@.incarnation.0].offered == 0
            &&& final(pages)@.claims[grant@.incarnation.0].slots
                == old(pages)@.claims[grant@.incarnation.0].slots
        },
        grant@.layout.payload_capacity != 0 || grant@.layout.resources != slots ==> result is Err,
        result is Err && old(pages)@.claims.contains_key(grant@.incarnation.0)
            && grant@.mapping_slot
            < old(pages)@.claims[grant@.incarnation.0].mappings.len()
                ==> final(pages)@.claims[grant@.incarnation.0].active == 0
                && final(pages)@.claims[grant@.incarnation.0].offered == 0,
{
}

} // verus!
