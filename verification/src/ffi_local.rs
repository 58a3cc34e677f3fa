//! The C boundary of Local Endpoints, on plain values.
//!
//! A host binds a listener and accepts connections carrying the verified peer identity; a client
//! connects by logical address and the library verifies the server. Either side then hands the
//! connection to exactly one setup call, which consumes it.

use crate::daemon::{c_string_bytes, c_string_fits};
use crate::ffi::{
    FtStatus, FT_STATUS_CANCELLED, FT_STATUS_CAPACITY, FT_STATUS_CLOSED, FT_STATUS_ERROR,
    FT_STATUS_INVALID_ARGUMENT, FT_STATUS_OK, FT_STATUS_TIMEOUT, FT_STATUS_UNSUPPORTED,
};
use crate::local::{valid_name, Endpoint, Error, PeerIdentity, Scope, Transport};
use vstd::prelude::*;
use vstd::utf8::encode_utf8;

verus! {

pub const FT_ENDPOINT_SCOPE_USER: u32 = 1;
pub const FT_ENDPOINT_SCOPE_SESSION: u32 = 2;
pub const FT_ENDPOINT_TRANSPORT_LOCAL_STREAM: u32 = 1;

/// Bytes of a peer's user name, with its terminator.
pub const USER_LEN: usize = 192;

/// What the system says of a failed operation.
#[derive(Debug, Clone, Copy, PartialEq, Eq, Structural)]
pub enum IoKind {
    TimedOut,
    WouldBlock,
    BrokenPipe,
    ConnectionReset,
    ConnectionAborted,
    InvalidInput,
    Other,
}

/// A status of this boundary: a common one, or one of its own.
#[derive(Debug, Clone, Copy, PartialEq, Eq, Structural)]
pub enum LocalStatus {
    Common(FtStatus),
    /// Another listener already holds the endpoint; it is never shared or taken over.
    AddressInUse,
    /// The other end failed the endpoint's policy.
    UntrustedPeer,
}

/// The status of an error; `kind` is what the system says of an I/O error.
pub fn status(error: &Error, kind: IoKind) -> (result: LocalStatus)
    ensures
        result == (match *error {
            Error::InUse => LocalStatus::AddressInUse,
            Error::UntrustedServer(_) => LocalStatus::UntrustedPeer,
            Error::RefusedPeer(_) => LocalStatus::UntrustedPeer,
            Error::Cancelled => LocalStatus::Common(FT_STATUS_CANCELLED),
            Error::Io(_) => LocalStatus::Common(
                if kind == IoKind::TimedOut {
                    FT_STATUS_TIMEOUT
                } else if kind == IoKind::InvalidInput {
                    FT_STATUS_INVALID_ARGUMENT
                } else {
                    FT_STATUS_ERROR
                },
            ),
        }),
{
    match error {
        Error::InUse => LocalStatus::AddressInUse,
        Error::UntrustedServer(_) => LocalStatus::UntrustedPeer,
        Error::RefusedPeer(_) => LocalStatus::UntrustedPeer,
        Error::Cancelled => LocalStatus::Common(FT_STATUS_CANCELLED),
        Error::Io(_) => LocalStatus::Common(
            if kind == IoKind::TimedOut {
                FT_STATUS_TIMEOUT
            } else if kind == IoKind::InvalidInput {
                FT_STATUS_INVALID_ARGUMENT
            } else {
                FT_STATUS_ERROR
            },
        ),
    }
}

/// The endpoint that C names: `None` for a name that is null or no UTF-8.
pub fn endpoint(scope: u32, transport: u32, name: Option<&str>) -> (result: Result<
    Endpoint,
    FtStatus,
>)
    ensures
        if transport != FT_ENDPOINT_TRANSPORT_LOCAL_STREAM {
            result == Err::<Endpoint, FtStatus>(FT_STATUS_UNSUPPORTED)
        } else if (scope != FT_ENDPOINT_SCOPE_USER && scope != FT_ENDPOINT_SCOPE_SESSION)
            || name is None || !valid_name(name->0@) {
            result == Err::<Endpoint, FtStatus>(FT_STATUS_INVALID_ARGUMENT)
        } else {
            &&& result matches Ok(endpoint)
            &&& endpoint.spec_name() == name->0@
            &&& endpoint.spec_transport() == Transport::LocalStream
            &&& endpoint.spec_scope() == (if scope == FT_ENDPOINT_SCOPE_USER {
                Scope::User
            } else {
                Scope::Session
            })
        },
{
    if transport != FT_ENDPOINT_TRANSPORT_LOCAL_STREAM {
        return Err(FT_STATUS_UNSUPPORTED);
    }
    let scope = if scope == FT_ENDPOINT_SCOPE_USER {
        Scope::User
    } else if scope == FT_ENDPOINT_SCOPE_SESSION {
        Scope::Session
    } else {
        return Err(FT_STATUS_INVALID_ARGUMENT);
    };
    let name: &str = match name {
        Some(name) => name,
        None => {
            return Err(FT_STATUS_INVALID_ARGUMENT);
        },
    };
    match Endpoint::new(scope, name, Transport::LocalStream) {
        Ok(endpoint) => Ok(endpoint),
        Err(_) => Err(FT_STATUS_INVALID_ARGUMENT),
    }
}

/// Hands a rendered address out in a buffer of `len` bytes, NUL-terminated, for diagnostics.
pub fn ft_local_endpoint_render(rendered: &str, len: usize) -> (result: (FtStatus, Option<Vec<u8>>))
    ensures
        if len == 0 {
            result.0 == FT_STATUS_INVALID_ARGUMENT && result.1 is None
        } else if c_string_fits(rendered@, len) {
            &&& result.0 == FT_STATUS_OK
            &&& result.1 matches Some(bytes)
            &&& bytes@ == encode_utf8(rendered@).push(0)
        } else {
            result.0 == FT_STATUS_CAPACITY && result.1 is None
        },
{
    if len == 0 {
        return (FT_STATUS_INVALID_ARGUMENT, None);
    }
    match c_string_bytes(rendered, len) {
        Some(bytes) => (FT_STATUS_OK, Some(bytes)),
        None => (FT_STATUS_CAPACITY, None),
    }
}

/// Kernel-reported identity of a connection's peer, as C sees it.
#[derive(Debug, PartialEq, Eq)]
pub struct FtPeerIdentity {
    pub pid: u32,
    pub session: u32,
    pub has_session: u32,
    pub reserved: u32,
    /// NUL-terminated: the user SID string on Windows, the decimal UID on Unix.
    pub user: Vec<u8>,
}

/// A text in a buffer: zero bytes behind it.
pub open spec fn user_buffer(bytes: Seq<u8>) -> Seq<u8> {
    Seq::new(
        USER_LEN as nat,
        |i: int|
            if i < bytes.len() {
                bytes[i]
            } else {
                0
            },
    )
}

/// The connection's verified peer identity, unless its user does not fit.
pub fn ft_local_connection_peer(peer: &PeerIdentity) -> (result: Result<FtPeerIdentity, FtStatus>)
    ensures
        match result {
            Ok(identity) => {
                &&& c_string_fits(peer.user@, USER_LEN)
                &&& identity.pid == peer.pid
                &&& identity.session == (match peer.session {
                    Some(session) => session,
                    None => 0,
                })
                &&& identity.has_session == (if peer.session is Some {
                    1u32
                } else {
                    0
                })
                &&& identity.reserved == 0
                &&& identity.user@ == user_buffer(encode_utf8(peer.user@))
            },
            Err(status) => status == FT_STATUS_ERROR && !c_string_fits(peer.user@, USER_LEN),
        },
{
    let mut user = match c_string_bytes(peer.user.as_str(), USER_LEN) {
        Some(user) => user,
        None => {
            return Err(FT_STATUS_ERROR);
        },
    };
    let ghost bytes = encode_utf8(peer.user@);
    assert(user@ =~= user_buffer(bytes).take(bytes.len() as int + 1));
    while user.len() < USER_LEN
        invariant
            bytes.len() < user@.len() <= USER_LEN,
            user@ == user_buffer(bytes).take(user@.len() as int),
        decreases USER_LEN - user@.len(),
    {
        let ghost before = user@;
        user.push(0);
        assert(user@ =~= user_buffer(bytes).take(user@.len() as int));
    }
    assert(user@ =~= user_buffer(bytes));
    let (session, has_session): (u32, u32) = match peer.session {
        Some(session) => (session, 1),
        None => (0, 0),
    };
    Ok(FtPeerIdentity { pid: peer.pid, session, has_session, reserved: 0, user })
}

/// What an exchange within a deadline ends with: `restored` says whether the stream's blocking
/// defaults are back.
pub fn exchange_status(outcome: Result<FtStatus, IoKind>, restored: bool) -> (result: FtStatus)
    ensures
        result == (match outcome {
            Ok(status) => if restored {
                status
            } else {
                FT_STATUS_ERROR
            },
            Err(kind) => if kind == IoKind::TimedOut || kind == IoKind::WouldBlock {
                FT_STATUS_TIMEOUT
            } else if kind == IoKind::BrokenPipe || kind == IoKind::ConnectionReset || kind
                == IoKind::ConnectionAborted {
                FT_STATUS_CLOSED
            } else {
                FT_STATUS_ERROR
            },
        }),
{
    match outcome {
        Ok(status) => if restored {
            status
        } else {
            FT_STATUS_ERROR
        },
        Err(kind) => if kind == IoKind::TimedOut || kind == IoKind::WouldBlock {
            FT_STATUS_TIMEOUT
        } else if kind == IoKind::BrokenPipe || kind == IoKind::ConnectionReset || kind
            == IoKind::ConnectionAborted {
            FT_STATUS_CLOSED
        } else {
            FT_STATUS_ERROR
        },
    }
}

/// Whether an exchange may start: there is something to move, and time to do it.
pub fn exchange_arguments(len: usize, timeout_ms: u32) -> (result: FtStatus)
    ensures
        result == (if len == 0 || timeout_ms == 0 {
            FT_STATUS_INVALID_ARGUMENT
        } else {
            FT_STATUS_OK
        }),
{
    if len == 0 || timeout_ms == 0 {
        return FT_STATUS_INVALID_ARGUMENT;
    }
    FT_STATUS_OK
}

/// Reads a reply up to and including the first delimiter, one byte at a time, so no byte after
/// it (such as the start of setup) is consumed.
pub struct ReadUntil {
    bytes: Vec<u8>,
    delimiter: u8,
    capacity: usize,
}

impl ReadUntil {
    pub closed spec fn spec_bytes(self) -> Seq<u8> {
        self.bytes@
    }

    pub closed spec fn spec_delimiter(self) -> u8 {
        self.delimiter
    }

    pub closed spec fn spec_capacity(self) -> nat {
        self.capacity as nat
    }

    /// Another byte is wanted: there is room, and the delimiter has not come.
    pub open spec fn wants(self) -> bool {
        &&& self.spec_bytes().len() < self.spec_capacity()
        &&& !self.spec_bytes().contains(self.spec_delimiter())
    }

    pub fn new(delimiter: u8, capacity: usize) -> (result: Self)
        ensures
            result.spec_bytes() == Seq::<u8>::empty(),
            result.spec_delimiter() == delimiter,
            result.spec_capacity() == capacity,
            capacity > 0 ==> result.wants(),
    {
        let read = ReadUntil { bytes: Vec::new(), delimiter, capacity };
        assert(read.bytes@ =~= Seq::empty());
        read
    }

    /// Takes one byte, or the end of the stream; the status once the reply is over.
    pub fn took(&mut self, byte: Option<u8>) -> (result: Option<FtStatus>)
        requires
            old(self).wants(),
        ensures
            final(self).spec_delimiter() == old(self).spec_delimiter(),
            final(self).spec_capacity() == old(self).spec_capacity(),
            match byte {
                None => {
                    &&& result == Some(FT_STATUS_CLOSED)
                    &&& final(self).spec_bytes() == old(self).spec_bytes()
                },
                Some(byte) => {
                    &&& final(self).spec_bytes() == old(self).spec_bytes().push(byte)
                    &&& result == (if byte == old(self).spec_delimiter() {
                        Some(FT_STATUS_OK)
                    } else if final(self).spec_bytes().len() == old(self).spec_capacity() {
                        Some(FT_STATUS_CAPACITY)
                    } else {
                        None
                    })
                },
            },
            result is None ==> final(self).wants(),
    {
        let byte: u8 = match byte {
            None => {
                return Some(FT_STATUS_CLOSED);
            },
            Some(byte) => byte,
        };
        self.bytes.push(byte);
        if byte == self.delimiter {
            return Some(FT_STATUS_OK);
        }
        proof {
            let before = old(self).bytes@;
            if self.bytes@.contains(self.delimiter) {
                let i = choose|i: int| 0 <= i < self.bytes@.len() && self.bytes@[i] == self.delimiter;
                assert(before[i] == self.delimiter);
            }
        }
        if self.bytes.len() >= self.capacity {
            return Some(FT_STATUS_CAPACITY);
        }
        None
    }

    /// What has been read.
    pub fn bytes(&self) -> (result: &Vec<u8>)
        ensures
            result@ == self.spec_bytes(),
    {
        &self.bytes
    }
}

} // verus!
