//! Import of single-use grants whose mappings the host received itself.

use super::connection::socket_status_of;
use super::{
    inline_storage, install_status, install_status_of, status, status_of, FtAcquisitionConsumer,
};
use crate::acquisition::arena::claims::ClaimPage;
use crate::acquisition::arena::consumer::{fresh_consumer, ArenaConsumer};
use crate::acquisition::arena::grants::{
    claims_agree, claims_refused, grant_fits, grant_refused, imported_terms, received_page,
    replacement_result, ConfigurationDescriptor, ConfigurationGrant, ConsumerGrant, GrantDescriptor,
};
use crate::acquisition::arena::holding::ConsumerState;
use crate::acquisition::arena::pages::{ArenaPages, Pages};
use crate::acquisition::arena::producer::reconfiguration::ConfigurationInstall;
use crate::acquisition::arena::{configuration_error, mapping_error, ArenaError};
use crate::acquisition::socket::client::{control_mapped, installs_offer, storage_mapped};
use crate::acquisition::socket::SocketError;
use crate::ffi::{FtStatus, FT_STATUS_INVALID_ARGUMENT, FT_STATUS_OK};
use vstd::prelude::*;

verus! {

/// Why a grant was not imported, in the order in which the reasons are looked at. A grant that
/// was taken in and refused is abandoned.
pub open spec fn import_refused(
    pages: Pages,
    descriptor: GrantDescriptor,
    words: Seq<u64>,
    now: u128,
    own_pid: u32,
    page_size: i64,
    after: Pages,
    error: ArenaError,
) -> bool {
    let terms = imported_terms(descriptor, page_size);
    let abandoned = pages.with_claims(
        descriptor.incarnation,
        received_page(descriptor, words),
    ).abandoned(terms);
    if !grant_fits(descriptor, now, own_pid, page_size) {
        grant_refused(error, descriptor, now, own_pid, page_size) && after == pages
    } else if !claims_agree(descriptor, words) {
        claims_refused(error, descriptor, words) && after == pages
    } else if descriptor.payload_capacity == 0 {
        &&& configuration_error(error, "CPU import requires inline storage"@)
        &&& after == abandoned
    } else {
        &&& mapping_error(
            error,
            if control_mapped(pages, terms) {
                "arena header disagrees with grant"@
            } else {
                "control header disagrees with grant"@
            },
        )
        &&& !storage_mapped(pages, terms)
        &&& after == abandoned
    }
}

/// Imports a single-use CPU grant from its setup metadata (`None` where it could not be read)
/// and the words of the received claim mapping. The mapping joins the pages of this process.
pub fn ft_acquisition_import_cpu<T>(
    pages: &mut ArenaPages,
    descriptor: Option<GrantDescriptor>,
    words: Vec<u64>,
    out: &mut Option<FtAcquisitionConsumer<T>>,
    now: u128,
    own_pid: u32,
    page_size: i64,
) -> (result: FtStatus)
    requires
        old(pages).wf(),
    ensures
        final(pages).wf(),
        if *old(out) is Some || descriptor is None {
            &&& result == FT_STATUS_INVALID_ARGUMENT
            &&& *final(out) == *old(out)
            &&& final(pages)@ == old(pages)@
        } else {
            match *final(out) {
                Some(handle) => {
                    let terms = imported_terms(descriptor->0, page_size);
                    &&& result == FT_STATUS_OK
                    &&& grant_fits(descriptor->0, now, own_pid, page_size)
                    &&& claims_agree(descriptor->0, words@)
                    &&& (descriptor->0).payload_capacity != 0
                    &&& storage_mapped(old(pages)@, terms)
                    &&& handle.consumer.wf()
                    &&& handle.consumer.attached(*final(pages))
                    &&& handle.consumer@ == fresh_consumer::<T>(terms, page_size)
                    &&& final(pages)@ == old(pages)@.with_claims(
                        (descriptor->0).incarnation,
                        (ClaimPage { offered: 0, ..received_page(descriptor->0, words@) }),
                    )
                },
                None => exists|error: ArenaError|
                    {
                        &&& #[trigger] import_refused(
                            old(pages)@,
                            descriptor->0,
                            words@,
                            now,
                            own_pid,
                            page_size,
                            final(pages)@,
                            error,
                        )
                        &&& result == status_of(error)
                    },
            }
        },
{
    if out.is_some() {
        return FT_STATUS_INVALID_ARGUMENT;
    }
    let descriptor = match descriptor {
        Some(descriptor) => descriptor,
        None => {
            return FT_STATUS_INVALID_ARGUMENT;
        },
    };
    let ghost received = words@;
    let ghost before = pages@;
    let (grant, page) = match ConsumerGrant::from_parts(
        descriptor,
        words,
        now,
        own_pid,
        page_size,
    ) {
        Ok(parts) => parts,
        Err(error) => {
            assert(import_refused(
                before,
                descriptor,
                received,
                now,
                own_pid,
                page_size,
                pages@,
                error,
            ));
            return status(&error);
        },
    };
    pages.claims.insert(descriptor.incarnation, page);
    let ghost joined = pages@;
    proof {
        let expected = before.with_claims(
            descriptor.incarnation,
            received_page(descriptor, received),
        );
        assert(joined.claims =~= expected.claims);
        assert(joined == expected);
        pages.claims@[descriptor.incarnation].page_is_shaped();
    }
    if let Err(error) = inline_storage(descriptor.payload_capacity, false) {
        grant.abandon(pages);
        assert(import_refused(
            before,
            descriptor,
            received,
            now,
            own_pid,
            page_size,
            pages@,
            error,
        ));
        return status(&error);
    }
    match ArenaConsumer::from_grant(grant, pages, page_size) {
        Ok(consumer) => {
            assert(pages@.claims =~= before.with_claims(
                descriptor.incarnation,
                (ClaimPage { offered: 0, ..received_page(descriptor, received) }),
            ).claims);
            *out = Some(FtAcquisitionConsumer { consumer });
            FT_STATUS_OK
        },
        Err(error) => {
            assert(import_refused(
                before,
                descriptor,
                received,
                now,
                own_pid,
                page_size,
                pages@,
                error,
            ));
            status(&error)
        },
    }
}

/// What an installation's outcome is as a status.
pub open spec fn installed_status(outcome: Result<Option<ConfigurationInstall>, SocketError>) -> FtStatus {
    install_status_of(
        match outcome {
            Ok(install) => Ok(install),
            Err(error) => Err(socket_status_of(error)),
        },
    )
}

/// What importing a replacement gives.
pub open spec fn installs_import<T>(
    consumer: ConsumerState<T>,
    pages: Pages,
    descriptor: ConfigurationDescriptor,
    imported: Result<ConfigurationGrant, ArenaError>,
    left: ConsumerState<T>,
    after: Pages,
    result: FtStatus,
) -> bool {
    match imported {
        Err(error) => result == status_of(error) && left == consumer && after == pages,
        Ok(grant) => if descriptor.payload_capacity == 0 {
            &&& result == FT_STATUS_INVALID_ARGUMENT
            &&& left == consumer
            &&& after == pages.declined(grant@)
        } else {
            exists|outcome: Result<Option<ConfigurationInstall>, SocketError>|
                {
                    &&& #[trigger] installs_offer(consumer, pages, grant@, left, after, outcome)
                    &&& result == installed_status(outcome)
                }
        },
    }
}

/// Installs a single-use CPU replacement offer, without changing incarnation or holding credit,
/// from its setup metadata (`None` where it could not be read). Stale offers are disposed of.
pub fn ft_acquisition_install_cpu_configuration<T>(
    consumer: &mut FtAcquisitionConsumer<T>,
    pages: &mut ArenaPages,
    descriptor: Option<ConfigurationDescriptor>,
    own_pid: u32,
) -> (result: FtStatus)
    requires
        old(consumer).consumer.wf(),
        old(consumer).consumer.attached(*old(pages)),
        old(pages)@.claims[old(consumer).consumer@.incarnation.0].incarnation
            == old(consumer).consumer@.incarnation,
    ensures
        final(consumer).consumer.wf(),
        final(consumer).consumer.attached(*final(pages)),
        match descriptor {
            None => {
                &&& result == FT_STATUS_INVALID_ARGUMENT
                &&& final(consumer).consumer@ == old(consumer).consumer@
                &&& final(pages)@ == old(pages)@
            },
            Some(descriptor) => exists|imported: Result<ConfigurationGrant, ArenaError>|
                {
                    &&& #[trigger] replacement_result(
                        imported,
                        descriptor,
                        old(consumer).consumer@.arena_scope,
                        old(pages)@.control.ring.len(),
                        old(pages)@.claims[old(consumer).consumer@.incarnation.0],
                        own_pid,
                        old(consumer).consumer.spec_page_size() as i64,
                    )
                    &&& installs_import(
                        old(consumer).consumer@,
                        old(pages)@,
                        descriptor,
                        imported,
                        final(consumer).consumer@,
                        final(pages)@,
                        result,
                    )
                },
        },
{
    let descriptor = match descriptor {
        Some(descriptor) => descriptor,
        None => {
            return FT_STATUS_INVALID_ARGUMENT;
        },
    };
    let id: u64 = consumer.consumer.incarnation().0;
    let page_size: i64 = consumer.consumer.page_size();
    let ghost state = consumer.consumer@;
    let ghost before = pages@;
    proof {
        pages.claims@[id].page_is_shaped();
        pages.control.ring_is_history();
        assert(pages@.claims[id] == pages.claims@[id]@);
    }
    let parts = match pages.claims.get(&id) {
        Some(page) => ConfigurationGrant::from_parts(
            descriptor,
            consumer.consumer.arena_scope(),
            pages.control.history(),
            page,
            own_pid,
            page_size,
        ),
        None => {
            assert(false);
            Err(ArenaError::Closed)
        },
    };
    let ghost imported = parts;
    assert(page_size == old(consumer).consumer.spec_page_size() as i64);
    assert(replacement_result(
        imported,
        descriptor,
        state.arena_scope,
        before.control.ring.len(),
        before.claims[id],
        own_pid,
        page_size,
    ));
    let grant = match parts {
        Ok(grant) => grant,
        Err(error) => {
            return status(&error);
        },
    };
    if let Err(error) = inline_storage(descriptor.payload_capacity, true) {
        grant.decline(pages);
        return status(&error);
    }
    match consumer.consumer.install_configuration(pages, grant) {
        Ok(install) => {
            assert(installs_offer(
                state,
                before,
                grant@,
                consumer.consumer@,
                pages@,
                Ok::<Option<ConfigurationInstall>, SocketError>(Some(install)),
            ));
            install_status(Ok(Some(install)))
        },
        Err(rejected) => {
            rejected.grant.decline(pages);
            assert(installs_offer(
                state,
                before,
                grant@,
                consumer.consumer@,
                pages@,
                Err::<Option<ConfigurationInstall>, SocketError>(
                    SocketError::Arena(rejected.error),
                ),
            ));
            status(&rejected.error)
        },
    }
}

} // verus!
