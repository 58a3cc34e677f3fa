//! Unix-socket Local Endpoints in a private per-user runtime directory.
//!
//! `<runtime>/jackstay-<euid>/<name>.sock`, where the runtime directory is the one that the
//! host's environment names when that is an absolute path, and the temporary directory
//! otherwise. The per-user directory must be owned by this user with no group or other access.
//! Clients check the server's peer UID before trusting it.

use super::{Endpoint, Error, PeerIdentity};
use crate::text::{characters, decimal, decimal_text, same_text};
use vstd::prelude::*;

verus! {

/// Whether a path starts at the root.
pub open spec fn is_absolute(path: Seq<char>) -> bool {
    path.len() > 0 && path[0] == '/'
}

/// A path below a directory: one separator stands between the two.
pub open spec fn joined(base: Seq<char>, part: Seq<char>) -> Seq<char> {
    if base.len() == 0 || base.last() == '/' {
        base + part
    } else {
        base + "/"@ + part
    }
}

/// A path below a directory.
fn join(base: &str, part: &str) -> (result: String)
    ensures
        result@ == joined(base@, part@),
{
    let chars = characters(base);
    if chars.len() == 0 || chars[chars.len() - 1] == '/' {
        return String::from_str(base).concat(part);
    }
    String::from_str(base).concat("/").concat(part)
}

/// Where this user's sockets live.
pub open spec fn directory_path(
    runtime: Option<Seq<char>>,
    temporary: Seq<char>,
    euid: u32,
) -> Seq<char> {
    let base = match runtime {
        Some(path) => if is_absolute(path) {
            path
        } else {
            temporary
        },
        None => temporary,
    };
    joined(base, "jackstay-"@ + decimal(euid as nat))
}

/// Where this user's sockets live. `runtime` is the runtime directory that the environment
/// names, if it names one.
pub fn directory(runtime: Option<&str>, temporary: &str, euid: u32) -> (result: String)
    ensures
        result@ == directory_path(
            match runtime {
                Some(path) => Some(path@),
                None => None,
            },
            temporary@,
            euid,
        ),
{
    let base: &str = match runtime {
        Some(path) => {
            let chars = characters(path);
            if chars.len() > 0 && chars[0] == '/' {
                path
            } else {
                temporary
            }
        },
        None => temporary,
    };
    let part = String::from_str("jackstay-").concat(decimal_text(euid as u64).as_str());
    join(base, part.as_str())
}

/// The socket of an endpoint in that directory.
pub open spec fn socket_path(directory: Seq<char>, name: Seq<char>) -> Seq<char> {
    joined(directory, name + ".sock"@)
}

/// The socket of an endpoint in that directory. macOS and Linux have no session boundary to
/// enforce here.
pub fn render(directory: &str, endpoint: &Endpoint) -> (result: String)
    ensures
        result@ == socket_path(directory@, endpoint.spec_name()),
{
    let file = String::from_str(endpoint.name()).concat(".sock");
    join(directory, file.as_str())
}

/// Whether a directory is this user's alone: a directory (not a symbolic link), owned by this
/// user, with no group or other permissions.
pub open spec fn is_private(is_dir: bool, owner: u32, euid: u32, mode: u32) -> bool {
    is_dir && owner == euid && mode % 64 == 0
}

/// Whether a directory is this user's alone.
pub fn check_directory(is_dir: bool, owner: u32, euid: u32, mode: u32, path: &str) -> (result: Result<
    (),
    Error,
>)
    ensures
        if is_private(is_dir, owner, euid, mode) {
            result is Ok
        } else {
            result matches Err(Error::Io(why)) && why@ == path@
                + " is not a private directory owned by this user"@
        },
{
    if !is_dir || owner != euid || mode % 64 != 0 {
        return Err(
            Error::Io(
                String::from_str(path).concat(
                    " is not a private directory owned by this user",
                ),
            ),
        );
    }
    Ok(())
}

/// The identity of a peer, from its kernel-reported credentials.
pub fn identity(pid: u32, uid: u32) -> (result: PeerIdentity)
    ensures
        result.pid == pid,
        result.user@ == decimal(uid as nat),
        result.session is None,
{
    PeerIdentity { pid, user: decimal_text(uid as u64), session: None }
}

/// Checks that a server runs as this user, before any protocol bytes flow.
pub fn check_server(server: &PeerIdentity, euid: u32) -> (result: Result<(), Error>)
    ensures
        if server.user@ == decimal(euid as nat) {
            result is Ok
        } else {
            result matches Err(Error::UntrustedServer(why)) && why@ == "server process "@ + decimal(
                server.pid as nat,
            ) + " runs as uid "@ + server.user@ + ", not "@ + decimal(euid as nat)
        },
{
    let me = decimal_text(euid as u64);
    if same_text(server.user.as_str(), me.as_str()) {
        return Ok(());
    }
    Err(
        Error::UntrustedServer(
            String::from_str("server process ").concat(
                decimal_text(server.pid as u64).as_str(),
            ).concat(" runs as uid ").concat(server.user.as_str()).concat(", not ").concat(
                me.as_str(),
            ),
        ),
    )
}

/// What a listener does with the socket file that it finds at its address.
#[derive(Debug, Clone, Copy, PartialEq, Eq, Structural)]
pub enum BindStep {
    /// Nothing is there.
    Create,
    /// A stale socket of a crashed server is removed first.
    Replace,
    /// A live server keeps its endpoint.
    Refuse,
}

/// What a listener does with the socket file that it finds: a live server keeps its endpoint,
/// a stale socket (nothing accepting) is replaced.
pub fn bind_step(exists: bool, accepting: bool) -> (result: BindStep)
    ensures
        result == (if !exists {
            BindStep::Create
        } else if accepting {
            BindStep::Refuse
        } else {
            BindStep::Replace
        }),
{
    if !exists {
        BindStep::Create
    } else if accepting {
        BindStep::Refuse
    } else {
        BindStep::Replace
    }
}

/// What comes of one accepted socket.
#[derive(Debug, PartialEq, Eq)]
pub enum AcceptStep {
    Connected(PeerIdentity),
    /// The client left before it could be identified, such as another listener's probe.
    Skip,
    Failed(Error),
}

/// What comes of one accepted socket: cancellation wins, and a client that left before it
/// could be identified is skipped.
pub fn accept_step(cancelled: bool, peer: Result<PeerIdentity, String>, alive: bool) -> (result:
    AcceptStep)
    ensures
        result == (if cancelled {
            AcceptStep::Failed(Error::Cancelled)
        } else {
            match peer {
                Ok(peer) => AcceptStep::Connected(peer),
                Err(why) => if alive {
                    AcceptStep::Failed(Error::Io(why))
                } else {
                    AcceptStep::Skip
                },
            }
        }),
{
    if cancelled {
        return AcceptStep::Failed(Error::Cancelled);
    }
    match peer {
        Ok(peer) => AcceptStep::Connected(peer),
        Err(why) => if alive {
            AcceptStep::Failed(Error::Io(why))
        } else {
            AcceptStep::Skip
        },
    }
}

/// Whether a peer still holds its end, from a one-byte peek that consumes nothing: the end of
/// the stream is closure, and a failure is only if it is not one of waiting.
pub fn alive_after_peek(peeked: i64, would_wait: bool) -> (result: bool)
    ensures
        result == (peeked > 0 || (peeked < 0 && would_wait)),
{
    peeked > 0 || (peeked < 0 && would_wait)
}

} // verus!
