//! The C boundary of source bootstrap: requests in numbers, and the statuses they end with.

use crate::bootstrap::{Connected, Error, InputRequest};
use crate::ffi::{FtStatus, FT_STATUS_EMPTY, FT_STATUS_ERROR, FT_STATUS_OK, FT_STATUS_TIMEOUT};
use crate::ffi_input;
use crate::input::model::Mode;
use crate::input::wire::Fault;
use vstd::prelude::*;

verus! {

pub const FT_BOOTSTRAP_INPUT_NONE: u32 = 0;
pub const FT_BOOTSTRAP_INPUT_OPTIONAL: u32 = 1;
pub const FT_BOOTSTRAP_INPUT_REQUIRED: u32 = 2;

/// The status of an error.
pub fn status(error: &Error) -> (result: FtStatus)
    ensures
        result == (match *error {
            Error::Input(error) => ffi_input::status_of(error),
            Error::TimedOut => FT_STATUS_TIMEOUT,
            Error::Channel(Fault::TimedOut) => FT_STATUS_TIMEOUT,
            _ => FT_STATUS_ERROR,
        }),
{
    match error {
        Error::Input(error) => ffi_input::status(*error),
        Error::TimedOut => FT_STATUS_TIMEOUT,
        Error::Channel(Fault::TimedOut) => FT_STATUS_TIMEOUT,
        _ => FT_STATUS_ERROR,
    }
}

/// The request that two numbers stand for: an observer names no mode.
pub open spec fn request_of(input_request: u32, input_mode: u32) -> Option<InputRequest> {
    if input_request == FT_BOOTSTRAP_INPUT_NONE && input_mode == 0 {
        Some(InputRequest::Observe)
    } else if input_request == FT_BOOTSTRAP_INPUT_OPTIONAL {
        match ffi_input::mode_of(input_mode) {
            Some(mode) => Some(InputRequest::Optional(mode)),
            None => None,
        }
    } else if input_request == FT_BOOTSTRAP_INPUT_REQUIRED {
        match ffi_input::mode_of(input_mode) {
            Some(mode) => Some(InputRequest::Required(mode)),
            None => None,
        }
    } else {
        None
    }
}

/// The request that two numbers stand for.
pub fn parse_request(input_request: u32, input_mode: u32) -> (result: Option<InputRequest>)
    ensures
        result == request_of(input_request, input_mode),
{
    if input_request == FT_BOOTSTRAP_INPUT_NONE && input_mode == 0 {
        return Some(InputRequest::Observe);
    }
    if input_request != FT_BOOTSTRAP_INPUT_OPTIONAL && input_request != FT_BOOTSTRAP_INPUT_REQUIRED {
        return None;
    }
    let mode: Mode = match ffi_input::mode(input_mode) {
        Some(mode) => mode,
        None => {
            return None;
        },
    };
    if input_request == FT_BOOTSTRAP_INPUT_OPTIONAL {
        Some(InputRequest::Optional(mode))
    } else {
        Some(InputRequest::Required(mode))
    }
}

/// What C is told of the input of an established connection: why there is none, or OK, or
/// empty where none was asked for.
pub fn connected_input(connection: &Connected) -> (result: FtStatus)
    ensures
        result == (match connection.input_error {
            Some(error) => ffi_input::status_of(error),
            None => if connection.input {
                FT_STATUS_OK
            } else {
                FT_STATUS_EMPTY
            },
        }),
{
    match connection.input_error {
        Some(error) => ffi_input::status(error),
        None => if connection.input {
            FT_STATUS_OK
        } else {
            FT_STATUS_EMPTY
        },
    }
}

} // verus!
