//! Local Endpoints: logical addresses for same-host setup connections.
//!
//! An endpoint is a scope, a name and a transport kind. Each platform renders it directly,
//! never by mapping a path to something else: a Unix socket in a private per-user runtime
//! directory, or a byte-mode named pipe. The connecting side verifies the server's owner
//! before trusting it; accepting reports the peer's process, user and (on Windows) session.
//!
//! This module holds names, renderings and verdicts. The host opens the connections, and still
//! authorizes each accepted peer and selects the source.

use crate::text::{characters, decimal, decimal_text};
use vstd::prelude::*;

pub mod deadline;
pub mod pipe;
pub mod promises;
pub mod socket;
pub mod transfer;

verus! {

/// How long connecting waits for a busy endpoint to offer an instance, in nanoseconds.
pub const CONNECT_TIMEOUT: u128 = 5_000_000_000;

/// Who may reach an endpoint, and so where it lives.
#[derive(Debug, Clone, Copy, PartialEq, Eq, Structural)]
pub enum Scope {
    /// Any process of the current user (and SYSTEM, on Windows).
    User,
    /// Only processes in the current logon session. On Windows the pipe's access list names
    /// the logon SID and accepting refuses a peer from another Windows session. macOS and
    /// Linux have no such session boundary; there it equals `User`.
    Session,
}

/// The transport an endpoint uses. Only local streams exist so far; the kind leaves room for
/// remote variants without pretending they are local paths.
#[derive(Debug, Clone, Copy, PartialEq, Eq, Structural)]
pub enum Transport {
    LocalStream,
}

/// A logical address. Its platform rendering is derived, never supplied.
#[derive(Debug, PartialEq, Eq)]
pub struct Endpoint {
    scope: Scope,
    name: String,
    transport: Transport,
}

/// Longest accepted endpoint name, in bytes.
pub const MAX_NAME: usize = 64;

/// A name that no endpoint can have.
#[derive(Debug, Clone, Copy, PartialEq, Eq, Structural)]
pub struct InvalidName;

impl InvalidName {
    pub fn message(&self) -> (result: &'static str)
        ensures
            result@ == "invalid Local Endpoint name"@,
    {
        "invalid Local Endpoint name"
    }
}

/// Whether a character may stand in an endpoint name.
pub open spec fn name_char(c: char) -> bool {
    ||| 'a' <= c <= 'z'
    ||| 'A' <= c <= 'Z'
    ||| '0' <= c <= '9'
    ||| c == '.'
    ||| c == '_'
    ||| c == '-'
}

/// Names are 1 to 64 ASCII letters, digits, `.`, `_` or `-`, not starting with `.`.
pub open spec fn valid_name(name: Seq<char>) -> bool {
    &&& 1 <= name.len() <= MAX_NAME
    &&& name[0] != '.'
    &&& forall|i: int| 0 <= i < name.len() ==> name_char(#[trigger] name[i])
}

/// A name neither names a directory nor leaves the one it is in.
pub proof fn names_cannot_escape(name: Seq<char>)
    requires
        valid_name(name),
    ensures
        !name.contains('/'),
        !name.contains('\\'),
        !name.contains('\0'),
        name != "."@,
        name != ".."@,
{
    reveal_strlit(".");
    reveal_strlit("..");
    assert forall|i: int| 0 <= i < name.len() implies name[i] != '/' && name[i] != '\\' && name[i]
        != '\0' by {
        assert(name_char(name[i]));
    }
}

impl Clone for Endpoint {
    fn clone(&self) -> (result: Self)
        ensures
            result == *self,
    {
        Endpoint { scope: self.scope, name: self.name.clone(), transport: self.transport }
    }
}

impl Endpoint {
    pub closed spec fn spec_scope(self) -> Scope {
        self.scope
    }

    pub closed spec fn spec_name(self) -> Seq<char> {
        self.name@
    }

    pub closed spec fn spec_transport(self) -> Transport {
        self.transport
    }

    /// An endpoint, if the name is one: it cannot name a directory or escape the endpoint
    /// namespace.
    pub fn new(scope: Scope, name: &str, transport: Transport) -> (result: Result<Self, InvalidName>)
        ensures
            match result {
                Ok(endpoint) => {
                    &&& valid_name(name@)
                    &&& endpoint.spec_scope() == scope
                    &&& endpoint.spec_name() == name@
                    &&& endpoint.spec_transport() == transport
                },
                Err(_) => !valid_name(name@),
            },
    {
        let chars = characters(name);
        if chars.len() == 0 || chars.len() > MAX_NAME || chars[0] == '.' {
            return Err(InvalidName);
        }
        let mut i: usize = 0;
        while i < chars.len()
            invariant
                i <= chars@.len(),
                chars@ == name@,
                forall|j: int| 0 <= j < i ==> name_char(#[trigger] name@[j]),
            decreases chars@.len() - i,
        {
            let c: char = chars[i];
            let allowed = ('a' <= c && c <= 'z') || ('A' <= c && c <= 'Z') || ('0' <= c && c <= '9')
                || c == '.' || c == '_' || c == '-';
            if !allowed {
                assert(!name_char(name@[i as int]));
                return Err(InvalidName);
            }
            i = i + 1;
        }
        Ok(Endpoint { scope, name: String::from_str(name), transport })
    }

    #[must_use]
    pub fn scope(&self) -> (result: Scope)
        ensures
            result == self.spec_scope(),
    {
        self.scope
    }

    #[must_use]
    pub fn name(&self) -> (result: &str)
        ensures
            result@ == self.spec_name(),
    {
        self.name.as_str()
    }

    #[must_use]
    pub fn transport(&self) -> (result: Transport)
        ensures
            result == self.spec_transport(),
    {
        self.transport
    }
}

/// Kernel-reported identity of the process on the other end of a connection.
#[derive(Debug, PartialEq, Eq)]
pub struct PeerIdentity {
    pub pid: u32,
    /// Windows: the process token's user SID (`S-1-5-...`). Unix: the effective UID in
    /// decimal.
    pub user: String,
    /// Windows session ID. macOS and Linux have no session concept here.
    pub session: Option<u32>,
}

impl Clone for PeerIdentity {
    fn clone(&self) -> (result: Self)
        ensures
            result == *self,
    {
        PeerIdentity { pid: self.pid, user: self.user.clone(), session: self.session }
    }
}

/// Why a connection was not established or not accepted.
#[derive(Debug, PartialEq, Eq)]
pub enum Error {
    /// What the system reported.
    Io(String),
    /// The server is not owned by the expected user or is in another session.
    UntrustedServer(String),
    /// The accepted peer failed the endpoint's policy; it has been disconnected and the
    /// listener remains usable.
    RefusedPeer(String),
    /// Another server already owns this endpoint (or a stale one could not be verified away).
    /// Creation never takes over an existing endpoint.
    InUse,
    Cancelled,
}

impl Error {
    /// What the error says.
    pub open spec fn text(self) -> Seq<char> {
        match self {
            Error::Io(why) => "Local Endpoint I/O: "@ + why@,
            Error::UntrustedServer(why) => "Local Endpoint server refused: "@ + why@,
            Error::RefusedPeer(why) => "Local Endpoint peer refused: "@ + why@,
            Error::InUse => "Local Endpoint is already in use"@,
            Error::Cancelled => "Local Endpoint wait cancelled"@,
        }
    }

    /// The error in words.
    pub fn message(&self) -> (result: String)
        ensures
            result@ == self.text(),
    {
        match self {
            Error::Io(why) => String::from_str("Local Endpoint I/O: ").concat(why.as_str()),
            Error::UntrustedServer(why) => String::from_str(
                "Local Endpoint server refused: ",
            ).concat(why.as_str()),
            Error::RefusedPeer(why) => String::from_str("Local Endpoint peer refused: ").concat(
                why.as_str(),
            ),
            Error::InUse => String::from_str("Local Endpoint is already in use"),
            Error::Cancelled => String::from_str("Local Endpoint wait cancelled"),
        }
    }
}

/// A session in words, as `Debug` writes an optional number.
pub open spec fn session_text(session: Option<u32>) -> Seq<char> {
    match session {
        Some(session) => "Some("@ + decimal(session as nat) + ")"@,
        None => "None"@,
    }
}

/// A session in words.
pub fn describe_session(session: Option<u32>) -> (result: String)
    ensures
        result@ == session_text(session),
{
    match session {
        Some(session) => String::from_str("Some(").concat(
            decimal_text(session as u64).as_str(),
        ).concat(")"),
        None => String::from_str("None"),
    }
}

} // verus!
