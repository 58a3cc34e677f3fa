//! What the C boundary says in numbers: the ABI version, statuses and codes.

use crate::daemon::{c_string_bytes, c_string_fits, SyntheticSession};
use vstd::prelude::*;
use vstd::utf8::encode_utf8;

verus! {

pub type FtStatus = i32;

/// ABI version of this library, as `(major << 16) | minor`. Consumers compare their header's
/// constant against [`ft_abi_version`] at startup. Additions land as new functions and new
/// attach-stream operations under a minor bump; existing struct layouts never change without a
/// major bump. Major 0 means pre-stabilization: layouts may still change freely, with a minor
/// bump as the only signal.
pub const FT_ABI_VERSION_MAJOR: u32 = 0;

pub const FT_ABI_VERSION_MINOR: u32 = 5;

pub const FT_ABI_VERSION: u32 = 0x0000_0005;

/// The version is its two parts.
pub proof fn version_is_its_parts()
    ensures
        FT_ABI_VERSION == FT_ABI_VERSION_MAJOR * 0x1_0000 + FT_ABI_VERSION_MINOR,
        FT_ABI_VERSION_MINOR < 0x1_0000,
{
}

/// Reports the linked library's ABI version.
pub fn ft_abi_version() -> (result: u32)
    ensures
        result == FT_ABI_VERSION,
{
    FT_ABI_VERSION
}

pub const FT_STATUS_OK: FtStatus = 0;
pub const FT_STATUS_EMPTY: FtStatus = 1;
pub const FT_STATUS_INVALID_ARGUMENT: FtStatus = 2;
pub const FT_STATUS_ERROR: FtStatus = 3;
pub const FT_STATUS_TIMEOUT: FtStatus = 4;
pub const FT_STATUS_CLOSED: FtStatus = 5;
pub const FT_STATUS_UNSUPPORTED: FtStatus = 6;
pub const FT_STATUS_INVALID_STATE: FtStatus = 7;
pub const FT_STATUS_HOLDING_LIMIT: FtStatus = 8;
pub const FT_STATUS_RECONFIGURATION: FtStatus = 9;
pub const FT_STATUS_MISS: FtStatus = 10;
pub const FT_STATUS_GAP: FtStatus = 11;
pub const FT_STATUS_CANCELLED: FtStatus = 12;
pub const FT_STATUS_STALE: FtStatus = 13;
pub const FT_STATUS_DRAINING: FtStatus = 14;
pub const FT_STATUS_DROPPED: FtStatus = 15;
pub const FT_STATUS_PAUSED_CAPACITY: FtStatus = 16;
pub const FT_STATUS_CAPACITY: FtStatus = 17;
pub const FT_STATUS_RECOVERY_REQUIRED: FtStatus = 18;

pub const FT_SOURCE_KIND_WINDOW: u32 = 1;
pub const FT_SOURCE_KIND_DISPLAY: u32 = 2;
pub const FT_SOURCE_KIND_SURFACE: u32 = 3;

pub const FT_TRACK_TYPE_VIDEO: u32 = 1;

pub const FT_PIXEL_FORMAT_UNKNOWN: u32 = 0;
pub const FT_PIXEL_FORMAT_BGRA8_UNORM: u32 = 1;
pub const FT_PIXEL_FORMAT_RGBA8_UNORM: u32 = 2;

pub const FT_CLOCK_DOMAIN_UNKNOWN: u32 = 0;
pub const FT_CLOCK_DOMAIN_UNIX_TIME: u32 = 1;
pub const FT_CLOCK_DOMAIN_MEDIA_TIME: u32 = 2;
pub const FT_CLOCK_DOMAIN_HOST_TIME: u32 = 3;

pub const FT_COLOR_SPACE_UNKNOWN: u32 = 0;
pub const FT_COLOR_SPACE_SRGB: u32 = 1;

pub const FT_FRAME_SYNC_UNKNOWN: u32 = 0;
pub const FT_FRAME_SYNC_CPU_COPY_COMPLETE: u32 = 1;
pub const FT_FRAME_SYNC_SCK_SAMPLE_READY: u32 = 2;
pub const FT_FRAME_SYNC_NATIVE_TIMELINE: u32 = 3;

pub const FT_DAMAGE_UNKNOWN: u32 = 0;
pub const FT_DAMAGE_FULL_FRAME: u32 = 1;
pub const FT_DAMAGE_NONE: u32 = 2;
pub const FT_DAMAGE_INLINE_RECTS: u32 = 3;
pub const FT_DAMAGE_SIDECAR_RECTS: u32 = 4;

pub const FT_EVENT_PRODUCER_STARTED: u32 = 1;
pub const FT_EVENT_SOURCE_REGISTERED: u32 = 2;
pub const FT_EVENT_SOURCE_UPDATED: u32 = 3;
pub const FT_EVENT_TRACK_REGISTERED: u32 = 4;
pub const FT_EVENT_TRACK_UPDATED: u32 = 5;
pub const FT_EVENT_SOURCE_UNREGISTERED: u32 = 6;
pub const FT_EVENT_PRODUCER_STOPPED: u32 = 7;

/// Bytes of a session's identity, with its terminator.
pub const SESSION_ID_LEN: usize = 64;

/// Bytes of a session's socket path, with its terminator.
pub const SOCKET_PATH_LEN: usize = 4096;

/// A created session, as C sees it: NUL-terminated strings.
#[derive(Debug, PartialEq, Eq)]
pub struct FtSyntheticSession {
    pub session_id: Vec<u8>,
    pub source_id: u64,
    pub track_id: u64,
    pub fd_socket_path: Vec<u8>,
}

/// Hands a created session to C, if its strings fit their buffers.
pub fn ft_create_synthetic_session(session: &SyntheticSession) -> (result: Result<
    FtSyntheticSession,
    FtStatus,
>)
    ensures
        match result {
            Ok(handed) => {
                &&& c_string_fits(session.session_id@, SESSION_ID_LEN)
                &&& c_string_fits(session.fd_socket_path@, SOCKET_PATH_LEN)
                &&& handed.session_id@ == encode_utf8(session.session_id@).push(0)
                &&& handed.source_id == session.source_id
                &&& handed.track_id == session.track_id
                &&& handed.fd_socket_path@ == encode_utf8(session.fd_socket_path@).push(0)
            },
            Err(status) => {
                &&& status == FT_STATUS_ERROR
                &&& !c_string_fits(session.session_id@, SESSION_ID_LEN) || !c_string_fits(
                    session.fd_socket_path@,
                    SOCKET_PATH_LEN,
                )
            },
        },
{
    let session_id = match c_string_bytes(session.session_id.as_str(), SESSION_ID_LEN) {
        Some(bytes) => bytes,
        None => {
            return Err(FT_STATUS_ERROR);
        },
    };
    let fd_socket_path = match c_string_bytes(session.fd_socket_path.as_str(), SOCKET_PATH_LEN) {
        Some(bytes) => bytes,
        None => {
            return Err(FT_STATUS_ERROR);
        },
    };
    Ok(
        FtSyntheticSession {
            session_id,
            source_id: session.source_id,
            track_id: session.track_id,
            fd_socket_path,
        },
    )
}

} // verus!
