//! Errors of the host's USB library, by the codes it returns.
use vstd::prelude::*;

verus! {

#[allow(non_camel_case_types)]
#[derive(Debug, Copy, Clone, PartialEq, Eq, Structural)]
pub enum Error {
    /// Not an error: the code is a non-negative result.
    SUCCESS(i32),
    IO,
    INVALID_PARAM,
    ACCESS,
    NO_DEVICE,
    NOT_FOUND,
    BUSY,
    TIMEOUT,
    OVERFLOW,
    PIPE,
    INTERRUPTED,
    NO_MEM,
    NOT_SUPPORTED,
    OTHER,
}

pub const LIBUSB_ERROR_IO: i32 = -1;
pub const LIBUSB_ERROR_INVALID_PARAM: i32 = -2;
pub const LIBUSB_ERROR_ACCESS: i32 = -3;
pub const LIBUSB_ERROR_NO_DEVICE: i32 = -4;
pub const LIBUSB_ERROR_NOT_FOUND: i32 = -5;
pub const LIBUSB_ERROR_BUSY: i32 = -6;
pub const LIBUSB_ERROR_TIMEOUT: i32 = -7;
pub const LIBUSB_ERROR_OVERFLOW: i32 = -8;
pub const LIBUSB_ERROR_PIPE: i32 = -9;
pub const LIBUSB_ERROR_INTERRUPTED: i32 = -10;
pub const LIBUSB_ERROR_NO_MEM: i32 = -11;
pub const LIBUSB_ERROR_NOT_SUPPORTED: i32 = -12;
pub const LIBUSB_ERROR_OTHER: i32 = -99;

/// The error a return code stands for; codes that are not error codes
/// are results.
pub open spec fn error_of(e: i32) -> Error {
    if e == LIBUSB_ERROR_IO {
        Error::IO
    } else if e == LIBUSB_ERROR_INVALID_PARAM {
        Error::INVALID_PARAM
    } else if e == LIBUSB_ERROR_ACCESS {
        Error::ACCESS
    } else if e == LIBUSB_ERROR_NO_DEVICE {
        Error::NO_DEVICE
    } else if e == LIBUSB_ERROR_NOT_FOUND {
        Error::NOT_FOUND
    } else if e == LIBUSB_ERROR_BUSY {
        Error::BUSY
    } else if e == LIBUSB_ERROR_TIMEOUT {
        Error::TIMEOUT
    } else if e == LIBUSB_ERROR_OVERFLOW {
        Error::OVERFLOW
    } else if e == LIBUSB_ERROR_PIPE {
        Error::PIPE
    } else if e == LIBUSB_ERROR_INTERRUPTED {
        Error::INTERRUPTED
    } else if e == LIBUSB_ERROR_NO_MEM {
        Error::NO_MEM
    } else if e == LIBUSB_ERROR_NOT_SUPPORTED {
        Error::NOT_SUPPORTED
    } else if e == LIBUSB_ERROR_OTHER {
        Error::OTHER
    } else {
        Error::SUCCESS(e)
    }
}

/// The message for each error.
pub open spec fn message_of(e: Error) -> Seq<char> {
    match e {
        Error::SUCCESS(_) => "Success (no error)"@,
        Error::IO => "Input/output error"@,
        Error::INVALID_PARAM => "Invalid parameter"@,
        Error::ACCESS => "Access denied (insufficient permissions)"@,
        Error::NO_DEVICE => "No such device (it may have been disconnected)"@,
        Error::NOT_FOUND => "Entity not found"@,
        Error::BUSY => "Resource busy"@,
        Error::TIMEOUT => "Operation timed out"@,
        Error::OVERFLOW => "Overflow"@,
        Error::PIPE => "Pipe error"@,
        Error::INTERRUPTED => "System call interrupted (perhaps due to signal)"@,
        Error::NO_MEM => "Insufficient memory"@,
        Error::NOT_SUPPORTED => "Operation not supported or unimplemented on this platform"@,
        Error::OTHER => "Other error"@,
    }
}

impl Error {
    /// The error a return code stands for.
    pub fn new(e: i32) -> (r: Error)
        ensures
            r == error_of(e),
    {
        match e {
            LIBUSB_ERROR_IO => Error::IO,
            LIBUSB_ERROR_INVALID_PARAM => Error::INVALID_PARAM,
            LIBUSB_ERROR_ACCESS => Error::ACCESS,
            LIBUSB_ERROR_NO_DEVICE => Error::NO_DEVICE,
            LIBUSB_ERROR_NOT_FOUND => Error::NOT_FOUND,
            LIBUSB_ERROR_BUSY => Error::BUSY,
            LIBUSB_ERROR_TIMEOUT => Error::TIMEOUT,
            LIBUSB_ERROR_OVERFLOW => Error::OVERFLOW,
            LIBUSB_ERROR_PIPE => Error::PIPE,
            LIBUSB_ERROR_INTERRUPTED => Error::INTERRUPTED,
            LIBUSB_ERROR_NO_MEM => Error::NO_MEM,
            LIBUSB_ERROR_NOT_SUPPORTED => Error::NOT_SUPPORTED,
            LIBUSB_ERROR_OTHER => Error::OTHER,
            _ => Error::SUCCESS(e),
        }
    }

    /// The error's message.
    pub fn to_string(&self) -> (r: String)
        ensures
            r@ == message_of(*self),
    {
        broadcast use vstd::string::to_string_from_display_ensures_for_str;
        let s: &str = match self {
            Error::SUCCESS(_) => "Success (no error)",
            Error::IO => "Input/output error",
            Error::INVALID_PARAM => "Invalid parameter",
            Error::ACCESS => "Access denied (insufficient permissions)",
            Error::NO_DEVICE => "No such device (it may have been disconnected)",
            Error::NOT_FOUND => "Entity not found",
            Error::BUSY => "Resource busy",
            Error::TIMEOUT => "Operation timed out",
            Error::OVERFLOW => "Overflow",
            Error::PIPE => "Pipe error",
            Error::INTERRUPTED => "System call interrupted (perhaps due to signal)",
            Error::NO_MEM => "Insufficient memory",
            Error::NOT_SUPPORTED => "Operation not supported or unimplemented on this platform",
            Error::OTHER => "Other error",
        };
        s.to_string()
    }
}

} // verus!
