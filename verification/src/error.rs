//! Why a request could not be read.

use vstd::prelude::*;
use vstd::string::*;
use crate::method::MethodError;

verus! {

/// The ways in which reading a request fails.
#[derive(Debug, PartialEq, Eq, Structural, Clone, Copy)]
pub enum ParseRequestErrorKind {
    /// The bytes are not UTF-8.
    EncodingError,
    /// The first token of the request line names no method.
    InvalidMethod,
    /// The protocol is not `HTTP/1.1`.
    InvalidProtocol,
    /// The request line or a header line is malformed.
    InvalidRequest,
    /// The bytes could not be read from the connection.
    NetworkError,
}

/// A failure to read a request.
#[derive(Debug, PartialEq, Eq, Structural, Clone, Copy)]
pub struct ParseRequestError {
    pub kind: ParseRequestErrorKind,
}

impl ParseRequestErrorKind {
    /// The text that describes the failure.
    pub open spec fn text(self) -> Seq<char> {
        match self {
            ParseRequestErrorKind::InvalidRequest => "Invalid Request"@,
            ParseRequestErrorKind::EncodingError => "Invalid Request Encoding"@,
            ParseRequestErrorKind::InvalidMethod => "Invalid Request Method"@,
            ParseRequestErrorKind::InvalidProtocol => "Invalid Request Protocol"@,
            ParseRequestErrorKind::NetworkError => "Network I/O Error"@,
        }
    }
}

impl ParseRequestError {
    /// The text that describes the failure.
    pub fn message(&self) -> (r: &'static str)
        ensures
            r@ == self.kind.text(),
    {
        match self.kind {
            ParseRequestErrorKind::InvalidRequest => "Invalid Request",
            ParseRequestErrorKind::EncodingError => "Invalid Request Encoding",
            ParseRequestErrorKind::InvalidMethod => "Invalid Request Method",
            ParseRequestErrorKind::InvalidProtocol => "Invalid Request Protocol",
            ParseRequestErrorKind::NetworkError => "Network I/O Error",
        }
    }

    /// The failure as one line of text.
    pub fn to_string(&self) -> (r: String)
        ensures
            r@ == "Request parsing error: "@ + self.kind.text(),
    {
        String::from_str("Request parsing error: ").concat(self.message())
    }
}

impl From<MethodError> for ParseRequestError {
    fn from(e: MethodError) -> (r: ParseRequestError) {
        ParseRequestError { kind: ParseRequestErrorKind::InvalidMethod }
    }
}

impl vstd::std_specs::convert::FromSpecImpl<MethodError> for ParseRequestError {
    open spec fn obeys_from_spec() -> bool {
        true
    }

    open spec fn from_spec(e: MethodError) -> ParseRequestError {
        ParseRequestError { kind: ParseRequestErrorKind::InvalidMethod }
    }
}

/// The error of `std::str::from_utf8`.
#[verifier::external_type_specification]
#[verifier::external_body]
pub struct ExUtf8Error(std::str::Utf8Error);

/// The error of the input and output functions of std.
#[verifier::external_type_specification]
#[verifier::external_body]
pub struct ExIoError(std::io::Error);

impl From<std::str::Utf8Error> for ParseRequestError {
    fn from(e: std::str::Utf8Error) -> (r: ParseRequestError) {
        ParseRequestError { kind: ParseRequestErrorKind::EncodingError }
    }
}

impl vstd::std_specs::convert::FromSpecImpl<std::str::Utf8Error> for ParseRequestError {
    open spec fn obeys_from_spec() -> bool {
        true
    }

    open spec fn from_spec(e: std::str::Utf8Error) -> ParseRequestError {
        ParseRequestError { kind: ParseRequestErrorKind::EncodingError }
    }
}

impl From<std::io::Error> for ParseRequestError {
    fn from(e: std::io::Error) -> (r: ParseRequestError) {
        ParseRequestError { kind: ParseRequestErrorKind::NetworkError }
    }
}

impl vstd::std_specs::convert::FromSpecImpl<std::io::Error> for ParseRequestError {
    open spec fn obeys_from_spec() -> bool {
        true
    }

    open spec fn from_spec(e: std::io::Error) -> ParseRequestError {
        ParseRequestError { kind: ParseRequestErrorKind::NetworkError }
    }
}

} // verus!
