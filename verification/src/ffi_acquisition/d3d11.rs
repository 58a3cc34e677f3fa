//! The D3D11 boundary on plain values: the producer's adapter, and what setup and fences say.
//!
//! A consumer asks the producer for its adapter, creates its own device on it and attaches with
//! that device. Importing, caching and GPU waits stay with the caller's renderer.

use super::connection::attach_arguments;
use super::{install_status, install_status_of, status, status_of, FtAcquisitionConsumer};
use crate::acquisition::arena::consumer::retirement::ConsumerReleaseTimeline;
use crate::acquisition::arena::consumer::ArenaConsumer;
use crate::acquisition::arena::producer::reconfiguration::ConfigurationInstall;
use crate::acquisition::socket::SocketError;
use crate::ffi::{
    FtStatus, FT_STATUS_CANCELLED, FT_STATUS_CLOSED, FT_STATUS_ERROR, FT_STATUS_INVALID_ARGUMENT,
    FT_STATUS_OK, FT_STATUS_UNSUPPORTED,
};
use vstd::prelude::*;
use vstd::utf8::{encode_utf8, is_char_boundary};

verus! {

/// Bytes of an adapter's description, including the terminating NUL.
pub const FT_D3D11_ADAPTER_DESCRIPTION_LEN: usize = 128;

/// The value that an abandoned fence reads: it satisfies every wait although the covered copy
/// never ran.
pub const ABANDONED_FENCE_VALUE: u64 = 0xffff_ffff_ffff_ffff;

/// A producer's adapter.
#[derive(Debug, PartialEq, Eq)]
pub struct AdapterInfo {
    pub luid: u64,
    pub description: String,
    pub vendor_id: u32,
    pub device_id: u32,
    pub software: bool,
}

/// A producer's adapter, as C sees it.
#[derive(Debug, PartialEq, Eq)]
pub struct FtD3d11Adapter {
    /// `(HighPart << 32) | LowPart` of the DXGI adapter LUID.
    pub luid: u64,
    pub vendor_id: u32,
    pub device_id: u32,
    /// Nonzero for WARP or the Basic Render Driver.
    pub software: u32,
    pub reserved: u32,
    /// UTF-8, NUL-terminated, truncated at a character boundary.
    pub description: Vec<u8>,
}

/// The longest part of a text that fits with its terminator and cuts no character.
pub open spec fn fitting(bytes: Seq<u8>, end: int) -> bool {
    &&& 0 <= end < FT_D3D11_ADAPTER_DESCRIPTION_LEN
    &&& end <= bytes.len()
    &&& is_char_boundary(bytes, end)
    &&& forall|longer: int|
        end < longer < FT_D3D11_ADAPTER_DESCRIPTION_LEN && longer <= bytes.len()
            ==> !is_char_boundary(bytes, longer)
}

/// A description in its buffer: zero bytes behind it.
pub open spec fn filled(bytes: Seq<u8>, end: int) -> Seq<u8> {
    Seq::new(
        FT_D3D11_ADAPTER_DESCRIPTION_LEN as nat,
        |i: int|
            if i < end {
                bytes[i]
            } else {
                0
            },
    )
}

impl FtD3d11Adapter {
    /// No adapter.
    pub fn none() -> (result: Self)
        ensures
            result.luid == 0,
            result.vendor_id == 0,
            result.device_id == 0,
            result.software == 0,
            result.reserved == 0,
            result.description@ == filled(Seq::empty(), 0),
    {
        let mut description: Vec<u8> = Vec::new();
        while description.len() < FT_D3D11_ADAPTER_DESCRIPTION_LEN
            invariant
                description@.len() <= FT_D3D11_ADAPTER_DESCRIPTION_LEN,
                forall|i: int| 0 <= i < description@.len() ==> description@[i] == 0,
            decreases FT_D3D11_ADAPTER_DESCRIPTION_LEN - description@.len(),
        {
            description.push(0);
        }
        assert(description@ =~= filled(Seq::empty(), 0));
        FtD3d11Adapter {
            luid: 0,
            vendor_id: 0,
            device_id: 0,
            software: 0,
            reserved: 0,
            description,
        }
    }

    /// Whether this is what C sees of an adapter.
    pub open spec fn describes(self, info: AdapterInfo) -> bool {
        &&& self.luid == info.luid
        &&& self.vendor_id == info.vendor_id
        &&& self.device_id == info.device_id
        &&& self.software == (if info.software {
            1u32
        } else {
            0
        })
        &&& self.reserved == 0
        &&& exists|end: int|
            {
                &&& #[trigger] fitting(encode_utf8(info.description@), end)
                &&& self.description@ == filled(encode_utf8(info.description@), end)
            }
    }

    /// A producer's adapter, as C sees it.
    pub fn of(info: &AdapterInfo) -> (result: Self)
        ensures
            result.describes(*info),
    {
        let text = info.description.as_str();
        let bytes = text.as_bytes();
        let mut end: usize = if bytes.len() < FT_D3D11_ADAPTER_DESCRIPTION_LEN - 1 {
            bytes.len()
        } else {
            FT_D3D11_ADAPTER_DESCRIPTION_LEN - 1
        };
        proof {
            vstd::utf8::encode_utf8_valid_utf8(info.description@);
            vstd::utf8::is_char_boundary_start_end_of_seq(bytes@);
        }
        while end > 0 && !text.is_char_boundary(end)
            invariant
                text@ == info.description@,
                bytes@ == encode_utf8(info.description@),
                is_char_boundary(bytes@, 0),
                end < FT_D3D11_ADAPTER_DESCRIPTION_LEN,
                end <= bytes@.len(),
                forall|longer: int|
                    end < longer < FT_D3D11_ADAPTER_DESCRIPTION_LEN && longer <= bytes@.len()
                        ==> !is_char_boundary(bytes@, longer),
            decreases end,
        {
            end = end - 1;
        }
        assert(fitting(bytes@, end as int));
        let mut description: Vec<u8> = Vec::new();
        let mut i: usize = 0;
        while i < FT_D3D11_ADAPTER_DESCRIPTION_LEN
            invariant
                i <= FT_D3D11_ADAPTER_DESCRIPTION_LEN,
                end <= bytes@.len(),
                description@ == filled(bytes@, end as int).take(i as int),
            decreases FT_D3D11_ADAPTER_DESCRIPTION_LEN - i,
        {
            if i < end {
                description.push(bytes[i]);
            } else {
                description.push(0);
            }
            assert(description@ =~= filled(bytes@, end as int).take(i + 1));
            i = i + 1;
        }
        assert(description@ =~= filled(bytes@, end as int));
        FtD3d11Adapter {
            luid: info.luid,
            vendor_id: info.vendor_id,
            device_id: info.device_id,
            software: if info.software {
                1
            } else {
                0
            },
            reserved: 0,
            description,
        }
    }
}

/// Why setup failed.
#[derive(Debug, PartialEq, Eq)]
pub enum SetupError {
    /// The producer is on another adapter; nothing was admitted.
    Refused(String),
    Socket(SocketError),
}

/// What C is told of setup.
#[derive(Debug, Clone, Copy, PartialEq, Eq, Structural)]
pub enum SetupStatus {
    Common(FtStatus),
    /// The producer is on another adapter. The connection stays usable.
    AdapterMismatch,
}

/// The status of failed setup.
pub open spec fn setup_status_of(error: SetupError) -> SetupStatus {
    match error {
        SetupError::Refused(_) => SetupStatus::AdapterMismatch,
        SetupError::Socket(SocketError::Arena(error)) => SetupStatus::Common(status_of(error)),
        SetupError::Socket(_) => SetupStatus::Common(FT_STATUS_ERROR),
    }
}

/// The status of failed setup.
pub fn setup_status(error: &SetupError) -> (result: SetupStatus)
    ensures
        result == setup_status_of(*error),
{
    match error {
        SetupError::Refused(_) => SetupStatus::AdapterMismatch,
        SetupError::Socket(SocketError::Arena(error)) => SetupStatus::Common(status(error)),
        SetupError::Socket(_) => SetupStatus::Common(FT_STATUS_ERROR),
    }
}

/// A setup connection that was handed to C. Cancellation interrupts failures and later calls.
#[derive(Debug, Clone, Copy, PartialEq, Eq, Structural)]
pub struct FtD3d11AcquisitionConnection {
    pub cancelled: bool,
}

impl FtD3d11AcquisitionConnection {
    pub fn new() -> (result: Self)
        ensures
            !result.cancelled,
    {
        FtD3d11AcquisitionConnection { cancelled: false }
    }

    /// Permanently interrupts this connection: the host shuts it down. Frames remain owned.
    pub fn cancel(&mut self)
        ensures
            final(self).cancelled,
    {
        self.cancelled = true;
    }

    /// Whether an operation may start.
    pub fn begin(&self) -> (result: Result<(), SetupStatus>)
        ensures
            result == (if self.cancelled {
                Err::<(), SetupStatus>(SetupStatus::Common(FT_STATUS_CANCELLED))
            } else {
                Ok(())
            }),
    {
        if self.cancelled {
            return Err(SetupStatus::Common(FT_STATUS_CANCELLED));
        }
        Ok(())
    }

    /// The status of an operation that failed.
    pub open spec fn failure(self, error: SetupError) -> SetupStatus {
        if self.cancelled {
            SetupStatus::Common(FT_STATUS_CANCELLED)
        } else {
            setup_status_of(error)
        }
    }

    /// What an operation ends with: a completed one keeps its result, even if cancellation
    /// arrived before it is returned.
    pub fn finish<V>(&self, result: Result<V, SetupError>) -> (ended: Result<V, SetupStatus>)
        ensures
            match result {
                Ok(value) => ended == Ok::<V, SetupStatus>(value),
                Err(error) => ended == Err::<V, SetupStatus>(self.failure(error)),
            },
    {
        match result {
            Ok(value) => Ok(value),
            Err(error) => if self.cancelled {
                Err(SetupStatus::Common(FT_STATUS_CANCELLED))
            } else {
                Err(setup_status(&error))
            },
        }
    }
}

/// Liveness of the producer's end of setup: OK while it holds the connection, and while another
/// setup call owns it (`held` is then `None`); CLOSED once it closed or setup failed; CANCELLED
/// after cancellation.
pub fn ft_acquisition_d3d11_connection_alive(
    connection: &FtD3d11AcquisitionConnection,
    held: Option<bool>,
) -> (result: FtStatus)
    ensures
        result == (if connection.cancelled {
            FT_STATUS_CANCELLED
        } else if held == Some(false) {
            FT_STATUS_CLOSED
        } else {
            FT_STATUS_OK
        }),
{
    if connection.cancelled {
        return FT_STATUS_CANCELLED;
    }
    match held {
        Some(false) => FT_STATUS_CLOSED,
        _ => FT_STATUS_OK,
    }
}

/// Tells the producer's adapter, so that the consumer can create its device on it.
pub fn ft_acquisition_d3d11_describe(
    connection: &FtD3d11AcquisitionConnection,
    described: Result<AdapterInfo, SetupError>,
    out: &mut FtD3d11Adapter,
) -> (result: SetupStatus)
    ensures
        match described {
            Ok(info) => {
                &&& result == SetupStatus::Common(FT_STATUS_OK)
                &&& final(out).describes(info)
            },
            Err(error) => {
                &&& result == connection.failure(error)
                &&& final(out).luid == 0 && final(out).vendor_id == 0 && final(out).device_id == 0
                    && final(out).software == 0 && final(out).reserved == 0
                &&& final(out).description@ == filled(Seq::empty(), 0)
            },
        },
{
    *out = FtD3d11Adapter::none();
    match connection.finish(described) {
        Ok(info) => {
            *out = FtD3d11Adapter::of(&info);
            SetupStatus::Common(FT_STATUS_OK)
        },
        Err(status) => status,
    }
}

/// What the caller lent as its device.
#[derive(Debug, Clone, Copy, PartialEq, Eq, Structural)]
pub enum LentDevice {
    Missing,
    /// The runtime lacks what import needs.
    Unsupported,
    Usable,
}

/// Whether an attachment may start: something is to be held, no consumer is overwritten, and the
/// device can import.
pub fn device_arguments(holding: u32, taken: bool, device: LentDevice) -> (result: FtStatus)
    ensures
        result == (if holding == 0 || taken || device == LentDevice::Missing {
            FT_STATUS_INVALID_ARGUMENT
        } else if device == LentDevice::Unsupported {
            FT_STATUS_UNSUPPORTED
        } else {
            FT_STATUS_OK
        }),
{
    let arguments: FtStatus = attach_arguments(holding, taken);
    if arguments != FT_STATUS_OK {
        return arguments;
    }
    match device {
        LentDevice::Missing => FT_STATUS_INVALID_ARGUMENT,
        LentDevice::Unsupported => FT_STATUS_UNSUPPORTED,
        LentDevice::Usable => FT_STATUS_OK,
    }
}

/// Admits a process-bound consumer: what the exchange gave, as a status and a handle. A producer
/// on another adapter refuses before it admits anything.
pub fn ft_acquisition_d3d11_attach<T>(
    connection: &FtD3d11AcquisitionConnection,
    holding: u32,
    device: LentDevice,
    admitted: Result<ArenaConsumer<T>, SetupError>,
    out: &mut Option<FtAcquisitionConsumer<T>>,
) -> (result: SetupStatus)
    ensures
        if holding == 0 || *old(out) is Some || device == LentDevice::Missing {
            &&& result == SetupStatus::Common(FT_STATUS_INVALID_ARGUMENT)
            &&& *final(out) == *old(out)
        } else if device == LentDevice::Unsupported {
            &&& result == SetupStatus::Common(FT_STATUS_UNSUPPORTED)
            &&& *final(out) is None
        } else {
            match admitted {
                Ok(consumer) => {
                    &&& result == SetupStatus::Common(FT_STATUS_OK)
                    &&& *final(out) == Some(FtAcquisitionConsumer { consumer })
                },
                Err(error) => result == connection.failure(error) && *final(out) is None,
            }
        },
{
    let arguments: FtStatus = device_arguments(holding, out.is_some(), device);
    if arguments != FT_STATUS_OK {
        return SetupStatus::Common(arguments);
    }
    match connection.finish(admitted) {
        Ok(consumer) => {
            *out = Some(FtAcquisitionConsumer { consumer });
            SetupStatus::Common(FT_STATUS_OK)
        },
        Err(status) => status,
    }
}

/// Installs a replacement pool: what the exchange gave, as a status.
pub fn ft_acquisition_d3d11_install_configuration(
    connection: &FtD3d11AcquisitionConnection,
    installed: Result<Option<ConfigurationInstall>, SetupError>,
) -> (result: SetupStatus)
    ensures
        match installed {
            Ok(install) => result == SetupStatus::Common(install_status_of(Ok(install))),
            Err(error) => result == connection.failure(error),
        },
{
    match connection.finish(installed) {
        Ok(install) => SetupStatus::Common(install_status(Ok(install))),
        Err(status) => status,
    }
}

/// Registers the consumer's own release fence: what the exchange gave, as a status and a
/// binding.
pub fn ft_acquisition_d3d11_register_release(
    connection: &FtD3d11AcquisitionConnection,
    lent: bool,
    registered: Result<ConsumerReleaseTimeline, SetupError>,
    out: &mut Option<ConsumerReleaseTimeline>,
) -> (result: SetupStatus)
    ensures
        if *old(out) is Some || !lent {
            &&& result == SetupStatus::Common(FT_STATUS_INVALID_ARGUMENT)
            &&& *final(out) == *old(out)
        } else {
            match registered {
                Ok(binding) => {
                    &&& result == SetupStatus::Common(FT_STATUS_OK)
                    &&& *final(out) == Some(binding)
                },
                Err(error) => result == connection.failure(error) && *final(out) is None,
            }
        },
{
    if out.is_some() || !lent {
        return SetupStatus::Common(FT_STATUS_INVALID_ARGUMENT);
    }
    match connection.finish(registered) {
        Ok(binding) => {
            *out = Some(binding);
            SetupStatus::Common(FT_STATUS_OK)
        },
        Err(status) => status,
    }
}

/// Whether a readiness fence's producer device still exists, from the fence's completed value:
/// CLOSED once it is abandoned. Discard frames whose readiness fence is abandoned and treat the
/// producer as lost.
pub fn ft_d3d11_fence_alive(completed: u64) -> (result: FtStatus)
    ensures
        result == (if completed == ABANDONED_FENCE_VALUE {
            FT_STATUS_CLOSED
        } else {
            FT_STATUS_OK
        }),
{
    if completed == ABANDONED_FENCE_VALUE {
        FT_STATUS_CLOSED
    } else {
        FT_STATUS_OK
    }
}

} // verus!
