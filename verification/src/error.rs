//! Failures of the surrounding system, in plain values.

use vstd::prelude::*;

verus! {

/// A failure that the operating system or a peer reported.
#[derive(Debug, PartialEq, Eq)]
pub enum CaptureTransferError {
    SharedMemory { operation: &'static str, message: String },
    DaemonTransport { operation: &'static str, message: String },
}

impl CaptureTransferError {
    /// What was reported.
    pub open spec fn reported(self) -> Seq<char> {
        match self {
            CaptureTransferError::SharedMemory { message, .. } => message@,
            CaptureTransferError::DaemonTransport { message, .. } => message@,
        }
    }

    /// What was reported.
    pub fn message(&self) -> (result: String)
        ensures
            result@ == self.reported(),
    {
        match self {
            CaptureTransferError::SharedMemory { message, .. } => message.clone(),
            CaptureTransferError::DaemonTransport { message, .. } => message.clone(),
        }
    }
}

} // verus!
