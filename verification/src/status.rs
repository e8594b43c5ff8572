//! The status vocabulary of the file-transfer protocol.

use vstd::prelude::*;

verus! {

/// Outcome codes that a reply can carry.
#[derive(Clone, Copy, Debug, PartialEq, Eq, Structural)]
pub enum StatusCode {
    Success,
    Eof,
    NoSuchFile,
    PermissionDenied,
    Failure,
    BadMessage,
    NoConnection,
    ConnectionLost,
    OpUnsupported,
}

impl StatusCode {
    /// The number that stands for this code on the wire.
    pub open spec fn spec_code(self) -> u32 {
        match self {
            StatusCode::Success => 0,
            StatusCode::Eof => 1,
            StatusCode::NoSuchFile => 2,
            StatusCode::PermissionDenied => 3,
            StatusCode::Failure => 4,
            StatusCode::BadMessage => 5,
            StatusCode::NoConnection => 6,
            StatusCode::ConnectionLost => 7,
            StatusCode::OpUnsupported => 8,
        }
    }

    /// The number that stands for this code on the wire.
    pub fn code(self) -> (n: u32)
        ensures
            n == self.spec_code(),
    {
        match self {
            StatusCode::Success => 0,
            StatusCode::Eof => 1,
            StatusCode::NoSuchFile => 2,
            StatusCode::PermissionDenied => 3,
            StatusCode::Failure => 4,
            StatusCode::BadMessage => 5,
            StatusCode::NoConnection => 6,
            StatusCode::ConnectionLost => 7,
            StatusCode::OpUnsupported => 8,
        }
    }

    /// The code that a number on the wire stands for, if any.
    pub fn from_code(n: u32) -> (c: Option<StatusCode>)
        ensures
            n <= 8 <==> c.is_some(),
            c.is_some() ==> c.unwrap().spec_code() == n,
    {
        match n {
            0 => Some(StatusCode::Success),
            1 => Some(StatusCode::Eof),
            2 => Some(StatusCode::NoSuchFile),
            3 => Some(StatusCode::PermissionDenied),
            4 => Some(StatusCode::Failure),
            5 => Some(StatusCode::BadMessage),
            6 => Some(StatusCode::NoConnection),
            7 => Some(StatusCode::ConnectionLost),
            8 => Some(StatusCode::OpUnsupported),
            _ => None,
        }
    }

    /// Whether the session must end once this code was answered.
    pub open spec fn spec_is_fatal(self) -> bool {
        self == StatusCode::ConnectionLost
    }

    /// Whether the session must end once this code was answered.
    pub fn is_fatal(self) -> (b: bool)
        ensures
            b == self.spec_is_fatal(),
    {
        match self {
            StatusCode::ConnectionLost => true,
            _ => false,
        }
    }
}

/// A status reply to the request numbered `id`.
#[derive(Debug, PartialEq, Eq)]
pub struct Status {
    pub id: u32,
    pub status_code: StatusCode,
    pub error_message: String,
    pub language_tag: String,
}

impl Status {
    /// Whether this is the reply that reports success for request `id`.
    pub open spec fn reports_success(self, id: u32) -> bool {
        &&& self.id == id
        &&& self.status_code == StatusCode::Success
        &&& self.error_message@ == "Ok"@
        &&& self.language_tag@ == "en-US"@
    }

    /// The reply that reports success for request `id`.
    pub fn ok(id: u32) -> (s: Status)
        ensures
            s.reports_success(id),
    {
        Status {
            id,
            status_code: StatusCode::Success,
            error_message: "Ok".to_string(),
            language_tag: "en-US".to_string(),
        }
    }
}

/// Whether `r` is the answer to request `id` that `code` calls for: the
/// reply that reports success, or `code` as the error.
pub open spec fn answered(r: Result<Status, StatusCode>, id: u32, code: StatusCode) -> bool {
    match r {
        Ok(s) => code == StatusCode::Success && s.reports_success(id),
        Err(e) => code != StatusCode::Success && e == code,
    }
}

/// The answer to request `id` that `code` calls for.
pub fn answer(id: u32, code: StatusCode) -> (r: Result<Status, StatusCode>)
    ensures
        answered(r, id, code),
{
    match code {
        StatusCode::Success => Ok(Status::ok(id)),
        _ => Err(code),
    }
}

} // verus!
