//! The boundary of native setup on macOS, on plain values.

use super::{install_status, install_status_of, status, status_of, FtAcquisitionConsumer};
use crate::acquisition::arena::consumer::retirement::ConsumerReleaseTimeline;
use crate::acquisition::arena::consumer::ArenaConsumer;
use crate::acquisition::arena::producer::reconfiguration::ConfigurationInstall;
use crate::acquisition::arena::ArenaError;
use crate::ffi::{FtStatus, FT_STATUS_INVALID_ARGUMENT, FT_STATUS_OK};
use vstd::prelude::*;

verus! {

/// An admitted connection that was handed to C. It neither owns nor invalidates acquired frames.
#[derive(Debug, Clone, Copy, PartialEq, Eq, Structural)]
pub struct FtMacosAcquisitionConnection {}

/// Whether a named service can be asked: it has a name (`None` where C passed none that is
/// text), something is to be held, and no handle is overwritten.
pub fn service_arguments(endpoint: Option<&str>, holding: u32, taken: bool) -> (result: FtStatus)
    ensures
        result == (if holding == 0 || taken || endpoint is None || (endpoint->0)@.len() == 0 {
            FT_STATUS_INVALID_ARGUMENT
        } else {
            FT_STATUS_OK
        }),
{
    if holding == 0 || taken {
        return FT_STATUS_INVALID_ARGUMENT;
    }
    match endpoint {
        None => FT_STATUS_INVALID_ARGUMENT,
        Some(endpoint) => if endpoint.unicode_len() == 0 {
            FT_STATUS_INVALID_ARGUMENT
        } else {
            FT_STATUS_OK
        },
    }
}

/// Connects to a trusted host's named service and requests admission: what connecting,
/// authorizing and attaching gave, as a status and two handles. Either both handles are given
/// or neither.
pub fn ft_acquisition_macos_connect<T>(
    endpoint: Option<&str>,
    holding: u32,
    admitted: Result<ArenaConsumer<T>, ArenaError>,
    out_connection: &mut Option<FtMacosAcquisitionConnection>,
    out_consumer: &mut Option<FtAcquisitionConsumer<T>>,
) -> (result: FtStatus)
    ensures
        if holding == 0 || *old(out_connection) is Some || *old(out_consumer) is Some
            || endpoint is None || (endpoint->0)@.len() == 0 {
            &&& result == FT_STATUS_INVALID_ARGUMENT
            &&& *final(out_connection) == *old(out_connection)
            &&& *final(out_consumer) == *old(out_consumer)
        } else {
            match admitted {
                Ok(consumer) => {
                    &&& result == FT_STATUS_OK
                    &&& *final(out_connection) is Some
                    &&& *final(out_consumer) == Some(FtAcquisitionConsumer { consumer })
                },
                Err(error) => {
                    &&& result == status_of(error)
                    &&& *final(out_connection) is None
                    &&& *final(out_consumer) is None
                },
            }
        },
{
    let arguments: FtStatus = service_arguments(
        endpoint,
        holding,
        out_connection.is_some() || out_consumer.is_some(),
    );
    if arguments != FT_STATUS_OK {
        return arguments;
    }
    match admitted {
        Ok(consumer) => {
            *out_connection = Some(FtMacosAcquisitionConnection {  });
            *out_consumer = Some(FtAcquisitionConsumer { consumer });
            FT_STATUS_OK
        },
        Err(error) => status(&error),
    }
}

/// Installs a replacement: what the exchange gave, as a status.
pub fn ft_acquisition_macos_install_configuration(
    installed: Result<Option<ConfigurationInstall>, ArenaError>,
) -> (result: FtStatus)
    ensures
        match installed {
            Ok(install) => result == install_status_of(Ok(install)),
            Err(error) => result == status_of(error),
        },
{
    match installed {
        Ok(install) => install_status(Ok(install)),
        Err(error) => status(&error),
    }
}

/// Registers the consumer's actual completion event: what the exchange gave, as a status and a
/// binding.
pub fn ft_acquisition_macos_register_release(
    lent: bool,
    registered: Result<ConsumerReleaseTimeline, ArenaError>,
    out: &mut Option<ConsumerReleaseTimeline>,
) -> (result: FtStatus)
    ensures
        if !lent || *old(out) is Some {
            result == FT_STATUS_INVALID_ARGUMENT && *final(out) == *old(out)
        } else {
            match registered {
                Ok(binding) => result == FT_STATUS_OK && *final(out) == Some(binding),
                Err(error) => result == status_of(error) && *final(out) is None,
            }
        },
{
    if !lent || out.is_some() {
        return FT_STATUS_INVALID_ARGUMENT;
    }
    match registered {
        Ok(binding) => {
            *out = Some(binding);
            FT_STATUS_OK
        },
        Err(error) => status(&error),
    }
}

} // verus!
