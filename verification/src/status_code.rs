//! The status codes that the server answers with.

use vstd::prelude::*;
use vstd::string::*;
use crate::text::{decimal, decimal_string};

verus! {

/// The status of a response.
#[derive(Debug, PartialEq, Eq, Structural, Clone, Copy)]
pub enum StatusCode {
    Okay,
    Created,
    BadRequest,
    NotFound,
    InternalServerError,
}

impl StatusCode {
    /// The number of the status.
    pub open spec fn number(self) -> nat {
        match self {
            StatusCode::Okay => 200,
            StatusCode::Created => 201,
            StatusCode::BadRequest => 400,
            StatusCode::NotFound => 404,
            StatusCode::InternalServerError => 500,
        }
    }

    /// The reason phrase of the status.
    pub open spec fn reason(self) -> Seq<char> {
        match self {
            StatusCode::Okay => "OK"@,
            StatusCode::Created => "Created"@,
            StatusCode::BadRequest => "Bad Request"@,
            StatusCode::NotFound => "Not Found"@,
            StatusCode::InternalServerError => "Internal Server Error"@,
        }
    }

    /// The first line of a response with this status, line ending included.
    pub open spec fn status_line(self) -> Seq<char> {
        "HTTP/1.1 "@ + decimal(self.number()) + " "@ + self.reason() + "\r\n"@
    }

    /// The number of the status.
    pub fn code(&self) -> (r: u16)
        ensures
            r == self.number(),
    {
        match self {
            StatusCode::Okay => 200,
            StatusCode::Created => 201,
            StatusCode::BadRequest => 400,
            StatusCode::NotFound => 404,
            StatusCode::InternalServerError => 500,
        }
    }

    /// The reason phrase of the status.
    pub fn message(&self) -> (r: &'static str)
        ensures
            r@ == self.reason(),
    {
        match self {
            StatusCode::Okay => "OK",
            StatusCode::Created => "Created",
            StatusCode::BadRequest => "Bad Request",
            StatusCode::NotFound => "Not Found",
            StatusCode::InternalServerError => "Internal Server Error",
        }
    }

    /// The first line of a response with this status, line ending included.
    pub fn to_string(&self) -> (r: String)
        ensures
            r@ == self.status_line(),
    {
        let number: usize = self.code().into();
        String::from_str("HTTP/1.1 ").concat(decimal_string(number).as_str()).concat(" ").concat(
            self.message(),
        ).concat("\r\n")
    }
}

impl Default for StatusCode {
    fn default() -> (r: StatusCode)
        ensures
            r == StatusCode::Okay,
    {
        StatusCode::Okay
    }
}

} // verus!
