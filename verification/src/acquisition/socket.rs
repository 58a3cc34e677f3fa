//! CPU arena setup on an already selected and authorized local connection.
//!
//! The host owns routing and authority. This protocol only admits one process incarnation and
//! transfers its initial and replacement maps; frames never use it. The host moves the bytes
//! and the descriptors, and turns message bodies into requests and replies and back.

use super::arena::grants::{ConfigurationDescriptor, GrantDescriptor};
use super::arena::ArenaError;
use crate::error::CaptureTransferError;
use vstd::prelude::*;

pub mod client;
pub mod message;
pub mod promises;
pub mod server;

pub use client::CpuSetupClient;
pub use server::{serve_cpu, ServerSession};

verus! {

/// Why setup failed.
#[derive(Debug, PartialEq, Eq)]
pub enum SocketError {
    Io(String),
    Json(String),
    Arena(ArenaError),
    Transfer(CaptureTransferError),
    Protocol(&'static str),
    Rejected(String),
}

impl SocketError {
    /// What the error says.
    pub open spec fn text(self) -> Seq<char> {
        match self {
            SocketError::Io(why) => "CPU setup I/O: "@ + why@,
            SocketError::Json(why) => "CPU setup JSON: "@ + why@,
            SocketError::Arena(error) => error.text(),
            SocketError::Transfer(error) => error.reported(),
            SocketError::Protocol(why) => "invalid CPU setup protocol: "@ + why@,
            SocketError::Rejected(why) => "CPU setup request rejected: "@ + why@,
        }
    }

    /// The error in words.
    pub fn message(&self) -> (result: String)
        ensures
            result@ == self.text(),
    {
        match self {
            SocketError::Io(why) => String::from_str("CPU setup I/O: ").concat(why.as_str()),
            SocketError::Json(why) => String::from_str("CPU setup JSON: ").concat(why.as_str()),
            SocketError::Arena(error) => error.message(),
            SocketError::Transfer(error) => error.message(),
            SocketError::Protocol(why) => String::from_str("invalid CPU setup protocol: ").concat(
                why,
            ),
            SocketError::Rejected(why) => String::from_str("CPU setup request rejected: ").concat(
                why.as_str(),
            ),
        }
    }
}

/// Whether an error says that the protocol was broken, and how.
pub open spec fn protocol_error(error: SocketError, why: Seq<char>) -> bool {
    error matches SocketError::Protocol(reason) && reason@ == why
}

/// What a client asks for.
#[derive(Debug, Clone, Copy, PartialEq, Eq, Structural)]
pub enum Request {
    Attach { holding: u32 },
    Configuration,
}

/// What a server answers.
#[allow(inconsistent_fields)]
#[derive(Debug, PartialEq, Eq)]
pub enum Response {
    Attached { descriptor: GrantDescriptor },
    Configuration { descriptor: ConfigurationDescriptor },
    Empty,
    Rejected { message: String },
}

impl Response {
    /// How many system objects follow the reply: control, resources, claims and the two wake
    /// channels for an attachment, the resources alone for a replacement.
    pub open spec fn spec_objects(self) -> nat {
        match self {
            Response::Attached { .. } => 5,
            Response::Configuration { .. } => 1,
            Response::Empty => 0,
            Response::Rejected { .. } => 0,
        }
    }

    /// How many system objects follow the reply.
    pub fn objects(&self) -> (result: usize)
        ensures
            result == self.spec_objects(),
    {
        match self {
            Response::Attached { .. } => 5,
            Response::Configuration { .. } => 1,
            Response::Empty => 0,
            Response::Rejected { .. } => 0,
        }
    }
}

/// The access that a recipient needs to one system object.
#[derive(Debug, Clone, Copy, PartialEq, Eq, Structural)]
pub enum ObjectAccess {
    /// Map for reading.
    Read,
    /// Map for reading and writing.
    ReadWrite,
    /// Wait for it and signal it.
    WaitAndSignal,
    /// Signal it.
    Signal,
}

/// The least access that the import of so many objects needs, in their order.
pub open spec fn least_access(count: nat) -> Seq<ObjectAccess> {
    if count == 5 {
        seq![
            ObjectAccess::Read,
            ObjectAccess::Read,
            ObjectAccess::ReadWrite,
            ObjectAccess::WaitAndSignal,
            ObjectAccess::Signal,
        ]
    } else {
        seq![ObjectAccess::Read]
    }
}

/// The least access that the import of so many objects needs, in their order.
pub fn object_access(count: usize) -> (result: Result<Vec<ObjectAccess>, SocketError>)
    ensures
        if count == 5 || count == 1 {
            result matches Ok(access) && access@ == least_access(count as nat) && access@.len()
                == count
        } else {
            result matches Err(error) && protocol_error(error, "unexpected setup handle count"@)
        },
{
    if count == 5 {
        let mut access: Vec<ObjectAccess> = Vec::new();
        access.push(ObjectAccess::Read);
        access.push(ObjectAccess::Read);
        access.push(ObjectAccess::ReadWrite);
        access.push(ObjectAccess::WaitAndSignal);
        access.push(ObjectAccess::Signal);
        assert(access@ =~= least_access(5));
        Ok(access)
    } else if count == 1 {
        let mut access: Vec<ObjectAccess> = Vec::new();
        access.push(ObjectAccess::Read);
        assert(access@ =~= least_access(1));
        Ok(access)
    } else {
        Err(SocketError::Protocol("unexpected setup handle count"))
    }
}

/// The marker that a sender writes after it dropped its copies.
pub const TRANSFER_FINISHED: u8 = 1;

/// Checks a finished transfer: as many descriptors as were asked for, and the sender's marker
/// behind them. An interrupted transfer has sent the descriptors but not proved that the sender
/// disposed of its copies.
pub fn check_transfer(received: usize, asked: usize, marker: u8) -> (result: Result<(), SocketError>)
    ensures
        if received != asked {
            result matches Err(error) && protocol_error(error, "incorrect setup FD count"@)
        } else if marker != TRANSFER_FINISHED {
            result matches Err(error) && protocol_error(error, "sender did not finish transfer"@)
        } else {
            result is Ok
        },
{
    if received != asked {
        return Err(SocketError::Protocol("incorrect setup FD count"));
    }
    if marker != TRANSFER_FINISHED {
        return Err(SocketError::Protocol("sender did not finish transfer"));
    }
    Ok(())
}

/// The peer's kernel identity, from the credentials that the kernel reported and their size;
/// never a process ID supplied in request metadata.
pub fn peer_pid(pid: i32, reported: usize, expected: usize) -> (result: Result<u32, SocketError>)
    ensures
        if reported != expected {
            result matches Err(error) && protocol_error(error, "unexpected peer credential size"@)
        } else if pid <= 0 {
            result matches Err(error) && protocol_error(error, "peer has no process identity"@)
        } else {
            result matches Ok(peer) && peer == pid
        },
{
    if reported != expected {
        return Err(SocketError::Protocol("unexpected peer credential size"));
    }
    if pid <= 0 {
        return Err(SocketError::Protocol("peer has no process identity"));
    }
    Ok(pid as u32)
}

} // verus!
