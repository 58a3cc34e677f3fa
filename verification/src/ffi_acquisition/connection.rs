//! Owned setup connections and setup servers: which calls may start, and which status they end
//! with.

use super::{install_status, install_status_of, status, status_of, FtAcquisitionConsumer};
use crate::acquisition::arena::consumer::ArenaConsumer;
use crate::acquisition::arena::producer::reconfiguration::ConfigurationInstall;
use crate::acquisition::socket::{CpuSetupClient, SocketError};
use crate::daemon::SessionInfo;
use crate::ffi::{
    FtStatus, FT_STATUS_CANCELLED, FT_STATUS_DRAINING, FT_STATUS_ERROR,
    FT_STATUS_INVALID_ARGUMENT, FT_STATUS_OK,
};
use vstd::prelude::*;

verus! {

/// A setup connection that was handed to C. Cancellation interrupts failures and future calls;
/// it cannot undo an installed configuration or a transferred consumer.
#[derive(Debug, Clone, Copy, PartialEq, Eq)]
pub struct FtCpuAcquisitionConnection {
    pub client: CpuSetupClient,
    pub cancelled: bool,
}

impl FtCpuAcquisitionConnection {
    pub fn new(client: CpuSetupClient) -> (result: Self)
        ensures
            result.client == client,
            !result.cancelled,
    {
        FtCpuAcquisitionConnection { client, cancelled: false }
    }

    /// Permanently interrupts this connection: the host shuts it down. Frames remain owned.
    pub fn cancel(&mut self)
        ensures
            final(self).cancelled,
            final(self).client == old(self).client,
    {
        self.cancelled = true;
    }

    /// Whether an operation may start.
    pub fn begin(&self) -> (result: Result<(), FtStatus>)
        ensures
            result == (if self.cancelled {
                Err::<(), FtStatus>(FT_STATUS_CANCELLED)
            } else {
                Ok(())
            }),
    {
        if self.cancelled {
            return Err(FT_STATUS_CANCELLED);
        }
        Ok(())
    }

    /// What an operation ends with: a completed one keeps its result, even if cancellation
    /// arrived before it is returned.
    pub fn finish<V>(&self, result: Result<V, FtStatus>) -> (ended: Result<V, FtStatus>)
        ensures
            ended == (match result {
                Ok(value) => Ok::<V, FtStatus>(value),
                Err(status) => Err(
                    if self.cancelled {
                        FT_STATUS_CANCELLED
                    } else {
                        status
                    },
                ),
            }),
    {
        match result {
            Ok(value) => Ok(value),
            Err(status) => if self.cancelled {
                Err(FT_STATUS_CANCELLED)
            } else {
                Err(status)
            },
        }
    }
}

/// The status of failed setup.
pub open spec fn socket_status_of(error: SocketError) -> FtStatus {
    match error {
        SocketError::Arena(error) => status_of(error),
        _ => FT_STATUS_ERROR,
    }
}

/// The status of failed setup.
pub fn socket_status(error: &SocketError) -> (result: FtStatus)
    ensures
        result == socket_status_of(*error),
{
    match error {
        SocketError::Arena(error) => status(error),
        _ => FT_STATUS_ERROR,
    }
}

/// Installs a pending CPU generation on this connection's existing consumer: what the exchange
/// gave, as a status.
pub fn ft_acquisition_cpu_install_configuration(
    connection: &FtCpuAcquisitionConnection,
    installed: Result<Option<ConfigurationInstall>, SocketError>,
) -> (result: FtStatus)
    ensures
        result == install_status_of(
            match installed {
                Ok(install) => Ok(install),
                Err(error) => Err(
                    if connection.cancelled {
                        FT_STATUS_CANCELLED
                    } else {
                        socket_status_of(error)
                    },
                ),
            },
        ),
{
    match installed {
        Ok(install) => install_status(connection.finish(Ok(install))),
        Err(error) => install_status(connection.finish(Err(socket_status(&error)))),
    }
}

/// Whether an attachment's arguments are usable: something is to be held, and no consumer is
/// overwritten.
pub fn attach_arguments(holding: u32, taken: bool) -> (result: FtStatus)
    ensures
        result == (if holding == 0 || taken {
            FT_STATUS_INVALID_ARGUMENT
        } else {
            FT_STATUS_OK
        }),
{
    if holding == 0 || taken {
        return FT_STATUS_INVALID_ARGUMENT;
    }
    FT_STATUS_OK
}

/// Admits a process-bound consumer: what the exchange gave, as a status and a handle. Any
/// failure of the exchange is one status.
pub fn ft_acquisition_cpu_attach<T>(
    connection: &FtCpuAcquisitionConnection,
    holding: u32,
    admitted: Result<ArenaConsumer<T>, SocketError>,
    out: &mut Option<FtAcquisitionConsumer<T>>,
) -> (result: FtStatus)
    ensures
        if holding == 0 || *old(out) is Some {
            result == FT_STATUS_INVALID_ARGUMENT && *final(out) == *old(out)
        } else {
            match admitted {
                Ok(consumer) => result == FT_STATUS_OK && *final(out) == Some(
                    FtAcquisitionConsumer { consumer },
                ),
                Err(_) => *final(out) is None && result == (if connection.cancelled {
                    FT_STATUS_CANCELLED
                } else {
                    FT_STATUS_ERROR
                }),
            }
        },
{
    let arguments: FtStatus = attach_arguments(holding, out.is_some());
    if arguments != FT_STATUS_OK {
        return arguments;
    }
    let admitted = match admitted {
        Ok(consumer) => Ok(consumer),
        Err(_) => Err(FT_STATUS_ERROR),
    };
    match connection.finish(admitted) {
        Ok(consumer) => {
            *out = Some(FtAcquisitionConsumer { consumer });
            FT_STATUS_OK
        },
        Err(status) => status,
    }
}

/// Whether a session can be asked for: its names are there, something is to be held, and no
/// handle is overwritten.
pub fn session_arguments(named: bool, holding: u32, taken: bool) -> (result: FtStatus)
    ensures
        result == (if !named || holding == 0 || taken {
            FT_STATUS_INVALID_ARGUMENT
        } else {
            FT_STATUS_OK
        }),
{
    if !named || holding == 0 || taken {
        return FT_STATUS_INVALID_ARGUMENT;
    }
    FT_STATUS_OK
}

/// The session that a host described, with the token that its caller gave.
pub fn with_token(info: SessionInfo, token: Option<String>) -> (result: SessionInfo)
    ensures
        result == (SessionInfo { bearer_token: token, ..info }),
{
    let mut info = info;
    info.bearer_token = token;
    info
}

/// Selects a session, authorizes it and requests holding capacity: what the host found, opened
/// and was granted, as a status and two handles. Either both handles are given or neither.
pub fn ft_acquisition_cpu_connect_session<T>(
    holding: u32,
    found: Option<SessionInfo>,
    opened: Option<CpuSetupClient>,
    admitted: Result<ArenaConsumer<T>, SocketError>,
    out_connection: &mut Option<FtCpuAcquisitionConnection>,
    out_consumer: &mut Option<FtAcquisitionConsumer<T>>,
    out_track: &mut u64,
) -> (result: FtStatus)
    ensures
        if holding == 0 || *old(out_connection) is Some || *old(out_consumer) is Some {
            &&& result == FT_STATUS_INVALID_ARGUMENT
            &&& *final(out_connection) == *old(out_connection)
            &&& *final(out_consumer) == *old(out_consumer)
            &&& *final(out_track) == *old(out_track)
        } else {
            match (found, opened, admitted) {
                (Some(info), Some(client), Ok(consumer)) => {
                    &&& result == FT_STATUS_OK
                    &&& *final(out_connection) == Some(
                        FtCpuAcquisitionConnection { client, cancelled: false },
                    )
                    &&& *final(out_consumer) == Some(FtAcquisitionConsumer { consumer })
                    &&& *final(out_track) == info.track_id
                },
                _ => {
                    &&& result == FT_STATUS_ERROR
                    &&& *final(out_connection) is None
                    &&& *final(out_consumer) is None
                    &&& *final(out_track) == 0
                },
            }
        },
{
    let arguments: FtStatus = session_arguments(
        true,
        holding,
        out_connection.is_some() || out_consumer.is_some(),
    );
    if arguments != FT_STATUS_OK {
        return arguments;
    }
    *out_track = 0;
    let info = match found {
        Some(info) => info,
        None => {
            return FT_STATUS_ERROR;
        },
    };
    let setup = match opened {
        Some(client) => FtCpuAcquisitionConnection::new(client),
        None => {
            return FT_STATUS_ERROR;
        },
    };
    let status: FtStatus = ft_acquisition_cpu_attach(&setup, holding, admitted, out_consumer);
    if status == FT_STATUS_OK {
        *out_track = info.track_id;
        *out_connection = Some(setup);
    }
    status
}

/// A worker that serves one authorized connection.
#[derive(Debug, Clone, Copy, PartialEq, Eq, Structural)]
pub struct FtCpuSetupServer {
    pub cancelled: bool,
    /// Whether the worker has not been joined.
    pub worker: bool,
    pub result: Option<FtStatus>,
}

impl FtCpuSetupServer {
    /// A worker that was started.
    pub fn new() -> (result: Self)
        ensures
            result == (FtCpuSetupServer { cancelled: false, worker: true, result: None }),
    {
        FtCpuSetupServer { cancelled: false, worker: true, result: None }
    }

    /// Whether the worker is left running: nobody waits for it, and it has not ended.
    pub open spec fn drains(self, wait: bool, running: bool) -> bool {
        self.result is None && !wait && self.worker && running
    }

    /// Whether the worker is left running; otherwise the host joins it.
    pub fn draining(&self, wait: bool, running: bool) -> (result: bool)
        ensures
            result == self.drains(wait, running),
    {
        self.result.is_none() && !wait && self.worker && running
    }

    /// The final status: what the joined worker gave the first time, and cancellation over it.
    pub fn finish(&mut self, joined: FtStatus) -> (result: FtStatus)
        ensures
            final(self).cancelled == old(self).cancelled,
            final(self).result == Some(
                match old(self).result {
                    Some(status) => status,
                    None => if old(self).worker {
                        joined
                    } else {
                        FT_STATUS_ERROR
                    },
                },
            ),
            final(self).worker == (old(self).worker && old(self).result is Some),
            result == (if old(self).cancelled {
                FT_STATUS_CANCELLED
            } else {
                final(self).result->0
            }),
    {
        let status: FtStatus = match self.result {
            Some(status) => status,
            None => {
                let status: FtStatus = if self.worker {
                    joined
                } else {
                    FT_STATUS_ERROR
                };
                self.worker = false;
                status
            },
        };
        self.result = Some(status);
        if self.cancelled {
            FT_STATUS_CANCELLED
        } else {
            status
        }
    }

    /// Observes the worker without blocking: DRAINING means that it still runs. `joined` is
    /// what it gave, if it ended.
    pub fn poll(&mut self, running: bool, joined: FtStatus) -> (result: FtStatus)
        ensures
            if old(self).drains(false, running) {
                result == FT_STATUS_DRAINING && *final(self) == *old(self)
            } else {
                &&& final(self).cancelled == old(self).cancelled
                &&& final(self).result == Some(
                    match old(self).result {
                        Some(status) => status,
                        None => if old(self).worker {
                            joined
                        } else {
                            FT_STATUS_ERROR
                        },
                    },
                )
                &&& final(self).worker == (old(self).worker && old(self).result is Some)
                &&& result == (if old(self).cancelled {
                    FT_STATUS_CANCELLED
                } else {
                    final(self).result->0
                })
            },
    {
        if self.draining(false, running) {
            return FT_STATUS_DRAINING;
        }
        self.finish(joined)
    }

    /// Cancels a worker that still runs, before it is joined for good: the host shuts its
    /// connection down.
    pub fn destroy(&mut self, running: bool) -> (result: bool)
        ensures
            result == old(self).drains(false, running),
            *final(self) == (FtCpuSetupServer {
                cancelled: old(self).cancelled || result,
                ..*old(self)
            }),
    {
        let cancels = self.draining(false, running);
        if cancels {
            self.cancelled = true;
        }
        cancels
    }
}

/// Checks what a host passed for a setup connection: a connected Unix stream.
pub fn check_stream(stream: bool, unix: bool) -> (result: Result<(), &'static str>)
    ensures
        if !stream {
            result matches Err(why) && why@ == "expected connected Unix stream"@
        } else if !unix {
            result matches Err(why) && why@ == "expected Unix socket family"@
        } else {
            result is Ok
        },
{
    if !stream {
        return Err("expected connected Unix stream");
    }
    if !unix {
        return Err("expected Unix socket family");
    }
    Ok(())
}

/// A completed operation wins over cancellation that arrives late, and a cancelled connection
/// starts no more work.
pub proof fn completed_operations_win_over_late_cancellation<V>(
    connection: FtCpuAcquisitionConnection,
    value: V,
    begun: Result<(), FtStatus>,
    ended: Result<V, FtStatus>,
)
    requires
        connection.cancelled,
        call_ensures(FtCpuAcquisitionConnection::begin, (&connection,), begun),
        call_ensures(
            FtCpuAcquisitionConnection::finish::<V>,
            (&connection, Ok::<V, FtStatus>(value)),
            ended,
        ),
    ensures
        ended == Ok::<V, FtStatus>(value),
        begun == Err::<(), FtStatus>(FT_STATUS_CANCELLED),
{
}

} // verus!
