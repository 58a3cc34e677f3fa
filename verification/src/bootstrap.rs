//! One host-authorized source connection, separate media and input transports.
//!
//! The original connection remains the media setup connection: moving setup to another one
//! would lose the original peer's kernel identity. Only the optional input channel is
//! transferred. The host selects and authorizes both resources; this module creates no
//! listener, discovers no source and grants no authority. It says what each side writes and
//! what it makes of what it reads; the host moves the bytes and the channel, bounded by one
//! deadline.

use crate::bytes::{be32, from_be32, integers_round_trip, push_be32, read_be32};
use crate::error::CaptureTransferError;
use crate::input::client::ConnectError;
use crate::input::model::{Error as InputError, Mode};
use crate::input::wire::Fault;
use vstd::prelude::*;

verus! {

/// How long the whole exchange may take, in nanoseconds.
pub const TIMEOUT: u128 = 5_000_000_000;

/// The bytes of each message.
pub const MESSAGE: usize = 12;

/// The version mark: `JSBOOT01`.
pub open spec fn magic() -> Seq<u8> {
    seq![0x4a, 0x53, 0x42, 0x4f, 0x4f, 0x54, 0x30, 0x31]
}

/// A message: the version mark and a number.
pub open spec fn preface(value: u32) -> Seq<u8> {
    magic() + be32(value)
}

/// What a connection asks for besides media.
#[derive(Debug, Clone, Copy, PartialEq, Eq, Structural)]
pub enum InputRequest {
    /// Media alone.
    Observe,
    Optional(Mode),
    Required(Mode),
}

impl InputRequest {
    /// The mode that is asked for.
    pub open spec fn spec_mode(self) -> Option<Mode> {
        match self {
            InputRequest::Observe => None,
            InputRequest::Optional(mode) => Some(mode),
            InputRequest::Required(mode) => Some(mode),
        }
    }

    /// The mode that is asked for.
    pub fn mode(self) -> (result: Option<Mode>)
        ensures
            result == self.spec_mode(),
    {
        match self {
            InputRequest::Observe => None,
            InputRequest::Optional(mode) => Some(mode),
            InputRequest::Required(mode) => Some(mode),
        }
    }

    /// The number that stands for the request in its message.
    pub open spec fn bit(self) -> u32 {
        match self.spec_mode() {
            Some(mode) => mode.spec_bit(),
            None => 0,
        }
    }
}

/// Why a connection was not established.
#[derive(Debug, PartialEq, Eq)]
pub enum Error {
    Io(String),
    /// The exchange did not end in time.
    TimedOut,
    Transfer(CaptureTransferError),
    Protocol(&'static str),
    Input(InputError),
    /// The input channel did not go through its first exchange.
    Channel(Fault),
}

impl Error {
    /// What the error says; what a failed channel says is its own.
    pub open spec fn text(self) -> Seq<char> {
        match self {
            Error::Io(why) => "source bootstrap I/O: "@ + why@,
            Error::TimedOut => "source bootstrap I/O: timed out"@,
            Error::Transfer(error) => "source bootstrap descriptor transfer: "@ + error.reported(),
            Error::Protocol(why) => "invalid source bootstrap: "@ + why@,
            Error::Input(error) => "input admission: "@ + error.name_text(),
            Error::Channel(fault) => "source bootstrap I/O: "@ + fault.text(),
        }
    }

    /// The error in words.
    pub fn message(&self) -> (result: String)
        ensures
            result@ == self.text(),
    {
        match self {
            Error::Io(why) => String::from_str("source bootstrap I/O: ").concat(why.as_str()),
            Error::TimedOut => String::from_str("source bootstrap I/O: timed out"),
            Error::Transfer(error) => String::from_str(
                "source bootstrap descriptor transfer: ",
            ).concat(error.message().as_str()),
            Error::Protocol(why) => String::from_str("invalid source bootstrap: ").concat(why),
            Error::Input(error) => String::from_str("input admission: ").concat(
                error.name(),
            ),
            Error::Channel(fault) => String::from_str("source bootstrap I/O: ").concat(
                fault.message().as_str(),
            ),
        }
    }
}

/// Whether an error says that the exchange was broken, and how.
pub open spec fn protocol_error(error: Error, why: Seq<char>) -> bool {
    error matches Error::Protocol(reason) && reason@ == why
}

/// A message: the version mark and a number.
fn message_of(value: u32) -> (result: Vec<u8>)
    ensures
        result@ == preface(value),
{
    let mut out: Vec<u8> = Vec::new();
    out.push(0x4a);
    out.push(0x53);
    out.push(0x42);
    out.push(0x4f);
    out.push(0x4f);
    out.push(0x54);
    out.push(0x30);
    out.push(0x31);
    assert(out@ =~= magic());
    push_be32(&mut out, value);
    out
}

/// The number of a message of this version.
fn read_preface(message: &[u8]) -> (result: Result<u32, Error>)
    requires
        message@.len() == MESSAGE,
    ensures
        match result {
            Ok(value) => message@.subrange(0, 8) == magic() && value == from_be32(
                message@.subrange(8, 12),
            ),
            Err(error) => message@.subrange(0, 8) != magic() && protocol_error(
                error,
                "unsupported version"@,
            ),
        },
{
    let same = message[0] == 0x4a && message[1] == 0x53 && message[2] == 0x42 && message[3] == 0x4f
        && message[4] == 0x4f && message[5] == 0x54 && message[6] == 0x30 && message[7] == 0x31;
    proof {
        let mark = message@.subrange(0, 8);
        if same {
            assert(mark =~= magic());
        } else if mark == magic() {
            assert(mark[0] == 0x4a && mark[1] == 0x53 && mark[2] == 0x42 && mark[3] == 0x4f
                && mark[4] == 0x4f && mark[5] == 0x54 && mark[6] == 0x30 && mark[7] == 0x31);
        }
    }
    if !same {
        return Err(Error::Protocol("unsupported version"));
    }
    Ok(read_be32(message, 8))
}

/// What the accepting side does with a request.
#[derive(Debug, PartialEq, Eq)]
pub struct Accepted {
    /// Whether an input channel is made, and its other end sent after the reply.
    pub input: bool,
    /// The reply.
    pub reply: Vec<u8>,
}

/// Negotiates one already selected source before media setup. `target` says whether the host
/// supplied an input target, which authorizes input on it for this peer. No input target is
/// admitted for an observer's request.
pub fn accept(request: &[u8], target: bool) -> (result: Result<Accepted, Error>)
    requires
        request@.len() == MESSAGE,
    ensures
        ({
            let mode = from_be32(request@.subrange(8, 12));
            if request@.subrange(0, 8) != magic() {
                result matches Err(error) && protocol_error(error, "unsupported version"@)
            } else if mode != 0 && mode != 1 && mode != 2 && mode != 4 {
                result matches Err(error) && protocol_error(error, "invalid input mode"@)
            } else {
                &&& result matches Ok(accepted)
                &&& accepted.input == (mode != 0 && target)
                &&& accepted.reply@ == preface(
                    if accepted.input {
                        1
                    } else {
                        0
                    },
                )
            }
        }),
{
    let mode: u32 = match read_preface(request) {
        Ok(mode) => mode,
        Err(error) => {
            return Err(error);
        },
    };
    if mode != 0 && mode != 1 && mode != 2 && mode != 4 {
        return Err(Error::Protocol("invalid input mode"));
    }
    let input = mode != 0 && target;
    let reply = message_of(
        if input {
            1
        } else {
            0
        },
    );
    Ok(Accepted { input, reply })
}

/// The message that asks for a connection.
pub fn request_message(request: InputRequest) -> (result: Vec<u8>)
    ensures
        result@ == preface(request.bit()),
{
    let bit: u32 = match request.mode() {
        Some(mode) => mode.bit(),
        None => 0,
    };
    message_of(bit)
}

/// Whether a reply is followed by an input channel.
pub fn offered(request: InputRequest, reply: &[u8]) -> (result: Result<bool, Error>)
    requires
        reply@.len() == MESSAGE,
    ensures
        ({
            let available = from_be32(reply@.subrange(8, 12));
            if reply@.subrange(0, 8) != magic() {
                result matches Err(error) && protocol_error(error, "unsupported version"@)
            } else if available == 0 {
                result == Ok::<bool, Error>(false)
            } else if available == 1 && request.spec_mode() is Some {
                result == Ok::<bool, Error>(true)
            } else {
                result matches Err(error) && protocol_error(error, "unexpected input offer"@)
            }
        }),
{
    let available: u32 = match read_preface(reply) {
        Ok(available) => available,
        Err(error) => {
            return Err(error);
        },
    };
    if available == 0 {
        return Ok(false);
    }
    if available == 1 && request.mode().is_some() {
        return Ok(true);
    }
    Err(Error::Protocol("unexpected input offer"))
}

/// A negotiated connection, besides its media stream.
#[derive(Debug, Clone, Copy, PartialEq, Eq, Structural)]
pub struct Connected {
    /// Whether there is an input client.
    pub input: bool,
    /// Clean admission rejection for optional input; `None` for an observer.
    pub input_error: Option<InputError>,
}

/// What comes of a connection: `admission` is what the first exchange over the input channel
/// gave, if one was offered. Optional input preserves media on a clean rejection, with its
/// reason. Transport errors and the rejection of required input fail the whole setup.
pub fn connect(request: InputRequest, admission: Option<Result<(), ConnectError>>) -> (result:
    Result<Connected, Error>)
    requires
        admission is Some ==> request.spec_mode() is Some,
    ensures
        ({
            let refused = match admission {
                None => if request.spec_mode() is Some {
                    Some(InputError::Unsupported)
                } else {
                    None
                },
                Some(Err(ConnectError::Admission(error))) => Some(error),
                Some(_) => None,
            };
            match (admission, refused) {
                (Some(Err(ConnectError::Transport(fault))), _) => result == Err::<
                    Connected,
                    Error,
                >(Error::Channel(fault)),
                (_, Some(error)) if request is Required => result == Err::<Connected, Error>(
                    Error::Input(error),
                ),
                _ => result == Ok::<Connected, Error>(
                    Connected {
                        input: admission matches Some(Ok(_)),
                        input_error: refused,
                    },
                ),
            }
        }),
{
    let (input, input_error): (bool, Option<InputError>) = match admission {
        None => (
            false,
            if request.mode().is_some() {
                Some(InputError::Unsupported)
            } else {
                None
            },
        ),
        Some(Ok(())) => (true, None),
        Some(Err(ConnectError::Admission(error))) => (false, Some(error)),
        Some(Err(ConnectError::Transport(fault))) => {
            return Err(Error::Channel(fault));
        },
    };
    if let Some(error) = input_error {
        if let InputRequest::Required(_) = request {
            return Err(Error::Input(error));
        }
    }
    Ok(Connected { input, input_error })
}

/// Whether the peer installed the input channel: the sending copy is kept until then.
pub fn check_receipt(receipt: u8) -> (result: Result<(), Error>)
    ensures
        if receipt == 1 {
            result is Ok
        } else {
            result matches Err(error) && protocol_error(error, "input descriptor not received"@)
        },
{
    if receipt != 1 {
        return Err(Error::Protocol("input descriptor not received"));
    }
    Ok(())
}

/// Whether what was received for the input channel is a connected one; `pipe` where channels
/// are pipes.
pub fn check_channel(connected: bool, pipe: bool) -> (result: Result<(), Error>)
    ensures
        if connected {
            result is Ok
        } else {
            result matches Err(error) && protocol_error(
                error,
                if pipe {
                    "input handle is not a connected pipe"@
                } else {
                    "input descriptor is not a connected Unix socket"@
                },
            )
        },
{
    if connected {
        return Ok(());
    }
    if pipe {
        Err(Error::Protocol("input handle is not a connected pipe"))
    } else {
        Err(Error::Protocol("input descriptor is not a connected Unix socket"))
    }
}

/// The two sides agree: every request is understood, its answer is one that the asking side
/// takes, and an input channel is offered exactly if it was asked for and the host supplied a
/// target. An observer is never offered one.
pub proof fn both_sides_agree(request: InputRequest, target: bool)
    ensures
        ({
            let message = preface(request.bit());
            let mode = from_be32(message.subrange(8, 12));
            let input = mode != 0 && target;
            let reply = preface(
                if input {
                    1
                } else {
                    0
                },
            );
            let available = from_be32(reply.subrange(8, 12));
            &&& message.len() == MESSAGE
            &&& message.subrange(0, 8) == magic()
            &&& mode == request.bit()
            &&& mode == 0 || mode == 1 || mode == 2 || mode == 4
            &&& input == (request.spec_mode() is Some && target)
            &&& reply.len() == MESSAGE
            &&& reply.subrange(0, 8) == magic()
            &&& available == (if input {
                1int
            } else {
                0
            })
        }),
{
    integers_round_trip(request.bit(), 0);
    integers_round_trip(0, 0);
    integers_round_trip(1, 0);
    let message = preface(request.bit());
    assert(message.subrange(0, 8) =~= magic());
    assert(message.subrange(8, 12) =~= be32(request.bit()));
    let one = preface(1);
    let zero = preface(0);
    assert(one.subrange(0, 8) =~= magic());
    assert(one.subrange(8, 12) =~= be32(1));
    assert(zero.subrange(0, 8) =~= magic());
    assert(zero.subrange(8, 12) =~= be32(0));
}

/// What one side asks for, the other side answers, and what it answers, the first side understands:
/// input is opened exactly where it was asked for and the host authorized it.
pub proof fn input_is_opened_where_asked_and_authorized(
    request: InputRequest,
    target: bool,
    message: Vec<u8>,
    heard: &[u8],
    accepted: Result<Accepted, Error>,
    reply: &[u8],
    understood: Result<bool, Error>,
)
    requires
        call_ensures(request_message, (request,), message),
        heard@ == message@,
        call_ensures(accept, (heard, target), accepted),
        accepted matches Ok(answer) ==> reply@ == answer.reply@,
        call_ensures(offered, (request, reply), understood),
    ensures
        message@.len() == 12,
        accepted matches Ok(answer) && answer.input == (!(request is Observe) && target)
            && answer.reply@.len() == 12,
        understood == Ok::<bool, Error>(!(request is Observe) && target),
        message@[11] == (match request {
            InputRequest::Observe => 0u8,
            InputRequest::Optional(Mode::Physical) | InputRequest::Required(Mode::Physical) => 1,
            InputRequest::Optional(Mode::SourceText) | InputRequest::Required(Mode::SourceText) => 2,
            _ => 4,
        }),
{
    both_sides_agree(request, target);
    let bit = request.bit();
    assert(message@[11] == be32(bit)[3]);
}

/// Whether a connection goes on: with input where the target admitted the controller; without it,
/// and with the reason, where input was only wished for; and not at all where it was required and
/// refused, or where its channel failed.
pub proof fn required_input_is_had_or_refused(
    request: InputRequest,
    admission: Option<Result<(), ConnectError>>,
    result: Result<Connected, Error>,
)
    requires
        admission is Some ==> !(request is Observe),
        call_ensures(connect, (request, admission), result),
    ensures
        admission matches Some(Ok(())) ==> result == Ok::<Connected, Error>(
            Connected { input: true, input_error: None },
        ),
        request is Observe ==> result == Ok::<Connected, Error>(
            Connected { input: false, input_error: None },
        ),
        admission matches Some(Err(ConnectError::Transport(fault))) ==> result == Err::<
            Connected,
            Error,
        >(Error::Channel(fault)),
        admission matches Some(Err(ConnectError::Admission(error))) ==> result == (
        if request is Required {
            Err::<Connected, Error>(Error::Input(error))
        } else {
            Ok(Connected { input: false, input_error: Some(error) })
        }),
        admission is None && request is Required ==> result == Err::<Connected, Error>(
            Error::Input(InputError::Unsupported),
        ),
        admission is None && request is Optional ==> result == Ok::<Connected, Error>(
            Connected { input: false, input_error: Some(InputError::Unsupported) },
        ),
        request is Required && result is Ok ==> (result->Ok_0).input,
{
}

/// A request is accepted only with its mark and one of the numbers that a request can have, and an
/// offer is believed only with its mark, and only of what was asked for.
pub proof fn strange_messages_are_refused(
    heard: &[u8],
    target: bool,
    accepted: Result<Accepted, Error>,
    request: InputRequest,
    reply: &[u8],
    understood: Result<bool, Error>,
)
    requires
        heard@.len() == 12,
        reply@.len() == 12,
        call_ensures(accept, (heard, target), accepted),
        call_ensures(offered, (request, reply), understood),
    ensures
        accepted is Ok ==> {
            &&& heard@[0] == 0x4a && heard@[1] == 0x53 && heard@[2] == 0x42 && heard@[3] == 0x4f
            &&& heard@[4] == 0x4f && heard@[5] == 0x54 && heard@[6] == 0x30 && heard@[7] == 0x31
        },
        understood is Ok ==> {
            &&& reply@[0] == 0x4a && reply@[1] == 0x53 && reply@[2] == 0x42 && reply@[3] == 0x4f
            &&& reply@[4] == 0x4f && reply@[5] == 0x54 && reply@[6] == 0x30 && reply@[7] == 0x31
        },
        understood == Ok::<bool, Error>(true) ==> !(request is Observe),
        heard@[8] != 0 || heard@[9] != 0 || heard@[10] != 0 || heard@[11] > 4 || heard@[11] == 3
            ==> accepted is Err,
{
    assert(heard@.subrange(0, 8)[0] == heard@[0] && heard@.subrange(0, 8)[1] == heard@[1]
        && heard@.subrange(0, 8)[2] == heard@[2] && heard@.subrange(0, 8)[3] == heard@[3]
        && heard@.subrange(0, 8)[4] == heard@[4] && heard@.subrange(0, 8)[5] == heard@[5]
        && heard@.subrange(0, 8)[6] == heard@[6] && heard@.subrange(0, 8)[7] == heard@[7]);
    assert(reply@.subrange(0, 8)[0] == reply@[0] && reply@.subrange(0, 8)[1] == reply@[1]
        && reply@.subrange(0, 8)[2] == reply@[2] && reply@.subrange(0, 8)[3] == reply@[3]
        && reply@.subrange(0, 8)[4] == reply@[4] && reply@.subrange(0, 8)[5] == reply@[5]
        && reply@.subrange(0, 8)[6] == reply@[6] && reply@.subrange(0, 8)[7] == reply@[7]);
    let number = heard@.subrange(8, 12);
    assert(number[0] == heard@[8] && number[1] == heard@[9] && number[2] == heard@[10] && number[3]
        == heard@[11]);
}

} // verus!
