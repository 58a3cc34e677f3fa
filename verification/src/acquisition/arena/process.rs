//! Kernel lifetime observations, installed before a process-bound grant escapes.
//!
//! No process ID lookup after admission is used as evidence of exit or permission to reclaim.
//! The host opens the watch and polls it; what its answers mean is decided here.

use super::ArenaError;
use vstd::prelude::*;

verus! {

/// The lowest process ID that cannot be one where process IDs are signed.
pub const SIGNED_LIMIT: u32 = 0x8000_0000;

/// Whether a number can be a process ID; `signed` where the system's process IDs are.
pub open spec fn process_id(pid: u32, signed: bool) -> bool {
    pid != 0 && (signed ==> pid < SIGNED_LIMIT)
}

/// Checks a process ID before a watch on it is opened.
pub fn check_process_id(pid: u32, signed: bool) -> (result: Result<(), ArenaError>)
    ensures
        if process_id(pid, signed) {
            result is Ok
        } else {
            result matches Err(ArenaError::Notification(why)) && why@
                == "invalid consumer process ID"@
        },
{
    if pid == 0 || (signed && pid >= SIGNED_LIMIT) {
        return Err(ArenaError::Notification(String::from_str("invalid consumer process ID")));
    }
    Ok(())
}

/// What a poll of a process descriptor saw.
#[derive(Debug, Clone, Copy, PartialEq, Eq, Structural)]
pub struct Polled {
    /// The last thread exited.
    pub readable: bool,
    /// The process was reaped.
    pub hung_up: bool,
    /// The descriptor is in error.
    pub error: bool,
    /// The descriptor is none.
    pub invalid: bool,
}

/// Whether the process has exited, from a poll of its descriptor.
pub fn exited(polled: Polled) -> (result: Result<bool, ArenaError>)
    ensures
        if polled.error || polled.invalid {
            result matches Err(ArenaError::Notification(why)) && why@
                == "process-watch descriptor failed"@
        } else {
            result == Ok::<bool, ArenaError>(polled.readable || polled.hung_up)
        },
{
    if polled.error || polled.invalid {
        return Err(ArenaError::Notification(String::from_str("process-watch descriptor failed")));
    }
    Ok(polled.readable || polled.hung_up)
}

/// An event of a process queue.
#[derive(Debug, Clone, Copy, PartialEq, Eq, Structural)]
pub struct QueueEvent {
    /// It is a process event.
    pub process: bool,
    /// The process that it is about.
    pub ident: u64,
    /// It says that the process exited.
    pub exit: bool,
}

/// Whether the process has exited, from what its queue held: nothing, or an event. Only the
/// exit of the watched process is expected.
pub fn exited_event(event: Option<QueueEvent>, pid: u32) -> (result: Result<bool, ArenaError>)
    ensures
        match event {
            None => result == Ok::<bool, ArenaError>(false),
            Some(event) => if event.process && event.ident == pid && event.exit {
                result == Ok::<bool, ArenaError>(true)
            } else {
                result matches Err(ArenaError::Notification(why)) && why@
                    == "unexpected process-watch event"@
            },
        },
{
    match event {
        None => Ok(false),
        Some(event) => if event.process && event.ident == pid as u64 && event.exit {
            Ok(true)
        } else {
            Err(ArenaError::Notification(String::from_str("unexpected process-watch event")))
        },
    }
}

} // verus!
