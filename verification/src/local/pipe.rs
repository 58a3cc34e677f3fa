//! Named-pipe Local Endpoints.
//!
//! Servers create byte-mode pipes with an explicit protected access list (SYSTEM and the
//! current user, or the logon SID for a session-bound endpoint) and reject remote clients.
//! Clients check the server process's owner before sending anything. Accepting opens the
//! client process once, while its connection holds the pipe.

use super::{describe_session, session_text, Endpoint, Error, PeerIdentity, Scope};
use crate::text::{decimal, decimal_text, same_text};
use vstd::prelude::*;

verus! {

/// Per-direction pipe buffer quota. Writers beyond it complete as the peer reads.
pub const BUFFER: u32 = 0x1_0000;

/// A wait without end.
pub const INFINITE: u32 = 0xffff_ffff;

/// The token facts endpoints are built and checked from.
#[derive(Debug, PartialEq, Eq)]
pub struct Identity {
    pub user: String,
    pub logon: Option<String>,
    pub session: u32,
}

/// What a client requires of the server before trusting it.
#[derive(Debug, PartialEq, Eq)]
pub struct ServerPolicy {
    /// The owner the server process must run as (a SID string).
    pub user: String,
    /// The Windows session the server must be in, for a session-bound endpoint.
    pub session: Option<u32>,
}

impl ServerPolicy {
    /// What this identity requires of a server in that scope.
    pub fn current(scope: Scope, me: &Identity) -> (result: Self)
        ensures
            result.user@ == me.user@,
            result.session == (if scope == Scope::Session {
                Some(me.session)
            } else {
                None
            }),
    {
        ServerPolicy {
            user: me.user.clone(),
            session: if scope == Scope::Session {
                Some(me.session)
            } else {
                None
            },
        }
    }

    /// Whether a server may be trusted.
    pub open spec fn trusts(self, server: PeerIdentity) -> bool {
        &&& server.user@ == self.user@
        &&& self.session matches Some(session) ==> server.session == Some(session)
    }

    pub fn check(&self, server: &PeerIdentity) -> (result: Result<(), Error>)
        ensures
            result is Ok <==> self.trusts(*server),
            server.user@ != self.user@ ==> (result matches Err(Error::UntrustedServer(why)) && why@
                == "server process "@ + decimal(server.pid as nat) + " runs as "@ + server.user@
                + ", not "@ + self.user@),
            server.user@ == self.user@ && !self.trusts(*server) ==> (result matches Err(
                Error::UntrustedServer(why),
            ) && why@ == "server process "@ + decimal(server.pid as nat) + " is in session "@
                + session_text(server.session) + ", not "@ + decimal(self.session->0 as nat)),
    {
        if !same_text(server.user.as_str(), self.user.as_str()) {
            return Err(
                Error::UntrustedServer(
                    String::from_str("server process ").concat(
                        decimal_text(server.pid as u64).as_str(),
                    ).concat(" runs as ").concat(server.user.as_str()).concat(", not ").concat(
                        self.user.as_str(),
                    ),
                ),
            );
        }
        if let Some(session) = self.session {
            let same = match server.session {
                Some(other) => other == session,
                None => false,
            };
            if !same {
                return Err(
                    Error::UntrustedServer(
                        String::from_str("server process ").concat(
                            decimal_text(server.pid as u64).as_str(),
                        ).concat(" is in session ").concat(
                            describe_session(server.session).as_str(),
                        ).concat(", not ").concat(decimal_text(session as u64).as_str()),
                    ),
                );
            }
        }
        Ok(())
    }
}

/// What a listener requires of an accepted client.
#[derive(Debug, Clone, Copy, PartialEq, Eq, Structural)]
pub struct PeerPolicy {
    /// Refuse peers outside this Windows session (session-bound endpoints).
    pub session: Option<u32>,
}

impl PeerPolicy {
    /// What a listener with this identity requires of its clients in that scope.
    pub fn current(scope: Scope, me: &Identity) -> (result: Self)
        ensures
            result.session == (if scope == Scope::Session {
                Some(me.session)
            } else {
                None
            }),
    {
        PeerPolicy {
            session: if scope == Scope::Session {
                Some(me.session)
            } else {
                None
            },
        }
    }

    /// Whether a peer may be accepted.
    pub open spec fn accepts(self, peer: PeerIdentity) -> bool {
        self.session matches Some(session) ==> peer.session == Some(session)
    }

    pub fn check(&self, peer: &PeerIdentity) -> (result: Result<(), Error>)
        ensures
            result is Ok <==> self.accepts(*peer),
            !self.accepts(*peer) ==> (result matches Err(Error::RefusedPeer(why)) && why@
                == "peer process "@ + decimal(peer.pid as nat) + " is in session "@ + session_text(
                peer.session,
            ) + "; this endpoint is bound to session "@ + decimal(self.session->0 as nat)),
    {
        if let Some(session) = self.session {
            let same = match peer.session {
                Some(other) => other == session,
                None => false,
            };
            if !same {
                return Err(
                    Error::RefusedPeer(
                        String::from_str("peer process ").concat(
                            decimal_text(peer.pid as u64).as_str(),
                        ).concat(" is in session ").concat(
                            describe_session(peer.session).as_str(),
                        ).concat("; this endpoint is bound to session ").concat(
                            decimal_text(session as u64).as_str(),
                        ),
                    ),
                );
            }
        }
        Ok(())
    }
}

/// The pipe of an endpoint: scoped by its user and, if it is session-bound, by the session.
pub open spec fn pipe_name(scope: Scope, name: Seq<char>, user: Seq<char>, session: u32) -> Seq<char> {
    match scope {
        Scope::User => "\\\\.\\pipe\\jackstay."@ + user + "."@ + name,
        Scope::Session => "\\\\.\\pipe\\jackstay."@ + user + ".s"@ + decimal(session as nat) + "."@
            + name,
    }
}

/// The pipe of an endpoint for this identity.
pub fn render_for(endpoint: &Endpoint, me: &Identity) -> (result: String)
    ensures
        result@ == pipe_name(
            endpoint.spec_scope(),
            endpoint.spec_name(),
            me.user@,
            me.session,
        ),
{
    match endpoint.scope() {
        Scope::User => String::from_str("\\\\.\\pipe\\jackstay.").concat(me.user.as_str()).concat(
            ".",
        ).concat(endpoint.name()),
        Scope::Session => String::from_str("\\\\.\\pipe\\jackstay.").concat(
            me.user.as_str(),
        ).concat(".s").concat(decimal_text(me.session as u64).as_str()).concat(".").concat(
            endpoint.name(),
        ),
    }
}

/// The name of a private pipe between two ends in one process.
pub fn pair_name(pid: u32, random: &str) -> (result: String)
    ensures
        result@ == "\\\\.\\pipe\\jackstay.pair."@ + decimal(pid as nat) + "."@ + random@,
{
    String::from_str("\\\\.\\pipe\\jackstay.pair.").concat(decimal_text(pid as u64).as_str()).concat(
        ".",
    ).concat(random)
}

/// The protected access list of a pipe: SYSTEM plus the user, or plus the logon SID when it is
/// bound to this logon session. Nothing is inherited; nobody else is granted access.
pub fn access_list(scope: Scope, me: &Identity) -> (result: Result<String, Error>)
    ensures
        match scope {
            Scope::User => result matches Ok(text) && text@ == "D:P(A;;GA;;;SY)(A;;GA;;;"@
                + me.user@ + ")"@,
            Scope::Session => match me.logon {
                Some(logon) => result matches Ok(text) && text@ == "D:P(A;;GA;;;SY)(A;;GA;;;"@
                    + logon@ + ")"@,
                None => result matches Err(Error::Io(why)) && why@
                    == "the process token has no logon SID"@,
            },
        },
{
    let trustee: &str = match scope {
        Scope::User => me.user.as_str(),
        Scope::Session => match &me.logon {
            Some(logon) => logon.as_str(),
            None => {
                return Err(Error::Io(String::from_str("the process token has no logon SID")));
            },
        },
    };
    Ok(String::from_str("D:P(A;;GA;;;SY)(A;;GA;;;").concat(trustee).concat(")"))
}

/// A wait in whole milliseconds, rounded up; [`INFINITE`] without a limit, and never that with
/// one.
pub fn milliseconds(limit: Option<u128>) -> (result: u32)
    ensures
        result == (match limit {
            None => INFINITE as int,
            Some(limit) => {
                let rounded = (limit + 999_999) / 1_000_000;
                if rounded > INFINITE - 1 {
                    INFINITE - 1
                } else {
                    rounded
                }
            },
        }),
{
    match limit {
        None => INFINITE,
        Some(limit) => {
            let whole: u128 = limit / 1_000_000;
            let rounded: u128 = if limit % 1_000_000 != 0 {
                whole + 1
            } else {
                whole
            };
            assert(rounded == (limit + 999_999) / 1_000_000);
            if rounded > (INFINITE - 1) as u128 {
                INFINITE - 1
            } else {
                rounded as u32
            }
        },
    }
}

/// What a client does after it failed to open a pipe.
#[derive(Debug, Clone, Copy, PartialEq, Eq, Structural)]
pub enum ConnectStep {
    /// The failure stands.
    Fail,
    /// Every instance was busy, and the time is over.
    TimedOut,
    /// Wait at most that many milliseconds for an instance, and try again.
    Wait { milliseconds: u32 },
}

/// What a client does after it failed to open a pipe: only a busy one is waited for, and only
/// until the deadline.
pub fn connect_step(busy: bool, deadline: u128, now: u128) -> (result: ConnectStep)
    ensures
        result == (if !busy {
            ConnectStep::Fail
        } else if now >= deadline {
            ConnectStep::TimedOut
        } else {
            let rounded = (deadline - now + 999_999) / 1_000_000;
            ConnectStep::Wait {
                milliseconds: if rounded > INFINITE - 1 {
                    (INFINITE - 1) as u32
                } else {
                    rounded as u32
                },
            }
        }),
{
    if !busy {
        return ConnectStep::Fail;
    }
    if now >= deadline {
        return ConnectStep::TimedOut;
    }
    ConnectStep::Wait { milliseconds: milliseconds(Some(deadline - now)) }
}

/// Whether a process handle that was opened by its identity names the connected peer: the
/// connection still holds its end, and still names the same process.
pub fn still_connected(alive: bool, opened: u32, named: u32) -> (result: bool)
    ensures
        result == (alive && opened == named),
{
    alive && opened == named
}

/// Checks a stream timeout: zero is none.
pub fn check_timeout(timeout: Option<u128>) -> (result: Result<(), Error>)
    ensures
        if timeout == Some(0u128) {
            result matches Err(Error::Io(why)) && why@ == "zero timeout"@
        } else {
            result is Ok
        },
{
    match timeout {
        Some(0) => Err(Error::Io(String::from_str("zero timeout"))),
        _ => Ok(()),
    }
}

/// How many bytes one read asks for: as many as there is room for, and without blocking no more
/// than there are; `None` if there are none to read without blocking.
pub fn read_length(room: usize, nonblocking: bool, available: u32) -> (result: Option<u32>)
    ensures
        ({
            let most: int = if room > u32::MAX {
                u32::MAX as int
            } else {
                room as int
            };
            if !nonblocking {
                result == Some(most as u32)
            } else if available == 0 {
                result is None
            } else {
                result == Some(
                    if most < available {
                        most as u32
                    } else {
                        available
                    },
                )
            }
        }),
{
    let most: u32 = if room as u64 > u32::MAX as u64 {
        u32::MAX
    } else {
        room as u32
    };
    if !nonblocking {
        return Some(most);
    }
    if available == 0 {
        return None;
    }
    if most < available {
        Some(most)
    } else {
        Some(available)
    }
}

} // verus!
