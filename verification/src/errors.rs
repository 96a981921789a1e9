//! The error values that endpoints and middleware return.

use vstd::prelude::*;

verus! {

/// The kinds of failure an endpoint or a middleware can report.
#[derive(Debug, Clone, Copy, PartialEq, Eq, Structural)]
pub enum ErrorCode {
    Failed,
    InvalidData,
    ConnectFailed,
    InvalidParam,
    ServerError,
    NotFound,
    IOError,
    BadRequest,
}

/// The number that stands for an error code on the wire: the position of the
/// code in the declaration of `ErrorCode`, counted from zero.
pub open spec fn code_number(code: ErrorCode) -> u16 {
    match code {
        ErrorCode::Failed => 0,
        ErrorCode::InvalidData => 1,
        ErrorCode::ConnectFailed => 2,
        ErrorCode::InvalidParam => 3,
        ErrorCode::ServerError => 4,
        ErrorCode::NotFound => 5,
        ErrorCode::IOError => 6,
        ErrorCode::BadRequest => 7,
    }
}

/// The name of an error code, as it is written in the declaration.
pub open spec fn code_name(code: ErrorCode) -> Seq<char> {
    match code {
        ErrorCode::Failed => "Failed"@,
        ErrorCode::InvalidData => "InvalidData"@,
        ErrorCode::ConnectFailed => "ConnectFailed"@,
        ErrorCode::InvalidParam => "InvalidParam"@,
        ErrorCode::ServerError => "ServerError"@,
        ErrorCode::NotFound => "NotFound"@,
        ErrorCode::IOError => "IOError"@,
        ErrorCode::BadRequest => "BadRequest"@,
    }
}

impl ErrorCode {
    /// The name of this code.
    pub fn name(self) -> (name: &'static str)
        ensures
            name@ == code_name(self),
    {
        match self {
            ErrorCode::Failed => "Failed",
            ErrorCode::InvalidData => "InvalidData",
            ErrorCode::ConnectFailed => "ConnectFailed",
            ErrorCode::InvalidParam => "InvalidParam",
            ErrorCode::ServerError => "ServerError",
            ErrorCode::NotFound => "NotFound",
            ErrorCode::IOError => "IOError",
            ErrorCode::BadRequest => "BadRequest",
        }
    }

    /// The number that stands for this code on the wire.
    pub fn number(self) -> (n: u16)
        ensures
            n == code_number(self),
    {
        match self {
            ErrorCode::Failed => 0,
            ErrorCode::InvalidData => 1,
            ErrorCode::ConnectFailed => 2,
            ErrorCode::InvalidParam => 3,
            ErrorCode::ServerError => 4,
            ErrorCode::NotFound => 5,
            ErrorCode::IOError => 6,
            ErrorCode::BadRequest => 7,
        }
    }
}

/// A failure: its kind and a message for the log.
#[derive(Debug)]
pub struct HttpError {
    pub code: ErrorCode,
    pub msg: String,
}

impl HttpError {
    /// A failure of the given kind with the given message.
    pub fn new(code: ErrorCode, msg: &str) -> (e: HttpError)
        ensures
            e.code == code,
            e.msg@ == msg@,
    {
        HttpError { code, msg: msg.to_owned() }
    }

    /// The kind of this failure.
    pub fn code(&self) -> (c: ErrorCode)
        ensures
            c == self.code,
    {
        self.code
    }

    /// The message of this failure.
    pub fn msg(&self) -> (m: &str)
        ensures
            m@ == self.msg@,
    {
        self.msg.as_str()
    }
}

/// What an endpoint or a middleware hands back.
pub type HttpResult<T> = Result<T, HttpError>;

} // verus!
