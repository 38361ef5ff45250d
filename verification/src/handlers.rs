//! What the server answers: the route of a request, and the response for each
//! route and each outcome of the file system.

use vstd::prelude::*;
use vstd::string::*;
use vstd::utf8::*;
use crate::request::{headers_view, Request};
use crate::response_builder::{fresh, no_length_header, BuilderView, ResponseBuilder};
use crate::status_code::StatusCode;
use crate::text::{chars_of, find_from, find_seq, matches_at, occurs_at, str_eq};

verus! {

/// The value of the first header with this name, if there is one.
pub open spec fn header_value(headers: Seq<(Seq<char>, Seq<char>)>, name: Seq<char>) -> Option<
    Seq<char>,
>
    decreases headers.len(),
{
    if headers.len() == 0 {
        None
    } else if headers[0].0 == name {
        Some(headers[0].1)
    } else {
        header_value(headers.skip(1), name)
    }
}

/// Whether some `Accept-Encoding` header names gzip.
pub open spec fn wants_gzip(headers: Seq<(Seq<char>, Seq<char>)>) -> bool {
    exists|i: int|
        0 <= i < headers.len() && (#[trigger] headers[i]).0 == "Accept-Encoding"@ && find_seq(
            headers[i].1,
            "gzip"@,
        ) is Some
}

/// `s` without every copy of `prefix` that it starts with.
pub open spec fn trim_start(s: Seq<char>, prefix: Seq<char>) -> Seq<char>
    decreases s.len(),
{
    if prefix.len() > 0 && occurs_at(s, prefix, 0) {
        trim_start(s.skip(prefix.len() as int), prefix)
    } else {
        s
    }
}

/// The answer to a request for the client's user agent: the value of the
/// `User-Agent` header as plain text, or `400 Bad Request` without one.
pub open spec fn user_agent_response(headers: Seq<(Seq<char>, Seq<char>)>) -> BuilderView<
    StatusCode,
> {
    match header_value(headers, "User-Agent"@) {
        Some(agent) => fresh(StatusCode::Okay).with_headers(
            seq![("Content-Type"@, "text/plain"@)],
        ).with_body(encode_utf8(agent)),
        None => fresh(StatusCode::BadRequest),
    }
}

/// The answer that echoes `content` as plain text. Empty content gives a
/// response without a body.
pub open spec fn echo_response(content: Seq<char>) -> BuilderView<StatusCode> {
    let plain = fresh(StatusCode::Okay).with_headers(seq![("Content-Type"@, "text/plain"@)]);
    if content.len() == 0 {
        plain
    } else {
        plain.with_body(encode_utf8(content))
    }
}

/// The answer to a request for `/`.
pub open spec fn root_response() -> BuilderView<StatusCode> {
    fresh(StatusCode::Okay).with_headers(
        seq![("Connection"@, "Keep-Alive"@), ("Keep-Alive"@, "timeout=5, max=1000"@)],
    ).without_content_length()
}

/// The answer to a request for a file, given what reading it gave.
pub open spec fn file_read_response(contents: Option<Seq<u8>>) -> BuilderView<StatusCode> {
    match contents {
        Some(bytes) => fresh(StatusCode::Okay).with_headers(
            seq![("Content-Type"@, "application/octet-stream"@)],
        ).with_body(bytes),
        None => fresh(StatusCode::NotFound).without_content_length(),
    }
}

/// How writing a file ended.
#[derive(Debug, PartialEq, Eq, Structural, Clone, Copy)]
pub enum FileWriteOutcome {
    /// The file was opened and the bytes were written.
    Written,
    /// The file could not be created or opened.
    OpenFailed,
    /// The file was opened, and writing to it failed.
    WriteFailed,
}

/// The answer to a request to store a file, given how writing it ended.
pub open spec fn file_write_response(outcome: FileWriteOutcome) -> BuilderView<StatusCode> {
    match outcome {
        FileWriteOutcome::Written => fresh(StatusCode::Created).without_content_length(),
        FileWriteOutcome::OpenFailed => fresh(
            StatusCode::InternalServerError,
        ).without_content_length(),
        FileWriteOutcome::WriteFailed => fresh(StatusCode::BadRequest),
    }
}

/// Finds the first header with this name.
pub fn find_header<'a>(headers: &'a Vec<(String, String)>, name: &str) -> (r: Option<&'a String>)
    ensures
        match r {
            Some(value) => header_value(headers_view(headers@), name@) == Some(value@),
            None => header_value(headers_view(headers@), name@) is None,
        },
{
    let ghost all = headers_view(headers@);
    let mut k: usize = 0;
    proof {
        assert(all.skip(0) =~= all);
    }
    while k < headers.len()
        invariant
            k <= headers.len(),
            all == headers_view(headers@),
            header_value(all, name@) == header_value(all.skip(k as int), name@),
        decreases headers.len() - k,
    {
        let header = &headers[k];
        proof {
            assert(all.skip(k as int)[0] == all[k as int]);
            assert(all.skip(k as int).skip(1) =~= all.skip(k + 1));
        }
        if str_eq(header.0.as_str(), name) {
            return Some(&header.1);
        }
        k += 1;
    }
    None
}

/// Whether `pat` stands somewhere in `text`.
pub fn contains(text: &str, pat: &str) -> (r: bool)
    ensures
        r == find_seq(text@, pat@) is Some,
{
    let chars = chars_of(text);
    let pattern = chars_of(pat);
    proof {
        assert(text@.skip(0) =~= text@);
    }
    find_from(&chars, &pattern, 0).is_some()
}

/// Whether the client accepts a gzip-encoded body.
pub fn accepts_gzip(request: &Request) -> (r: bool)
    ensures
        r == wants_gzip(request@.headers),
{
    let ghost all = headers_view(request.headers@);
    let mut k: usize = 0;
    while k < request.headers.len()
        invariant
            k <= request.headers.len(),
            all == headers_view(request.headers@),
            forall|i: int|
                0 <= i < k ==> !((#[trigger] all[i]).0 == "Accept-Encoding"@ && find_seq(
                    all[i].1,
                    "gzip"@,
                ) is Some),
        decreases request.headers.len() - k,
    {
        let header = &request.headers[k];
        if str_eq(header.0.as_str(), "Accept-Encoding") && contains(header.1.as_str(), "gzip") {
            assert(all[k as int].0 == "Accept-Encoding"@);
            return true;
        }
        k += 1;
    }
    false
}

/// Takes every leading copy of `prefix` off `s`.
pub fn trim_start_matches<'a>(s: &'a str, prefix: &str) -> (r: &'a str)
    ensures
        r@ == trim_start(s@, prefix@),
{
    let chars = chars_of(s);
    let pat = chars_of(prefix);
    let mut pos: usize = 0;
    proof {
        assert(s@.skip(0) =~= s@);
    }
    if pat.len() > 0 {
        while matches_at(&chars, &pat, pos)
            invariant
                chars@ == s@,
                pat@ == prefix@,
                pat.len() > 0,
                pos <= chars.len(),
                trim_start(s@, prefix@) == trim_start(s@.skip(pos as int), prefix@),
            decreases chars.len() - pos,
        {
            proof {
                let tail = s@.skip(pos as int);
                assert(tail.subrange(0, prefix@.len() as int) =~= s@.subrange(
                    pos as int,
                    pos + prefix@.len(),
                ));
                assert(tail.skip(prefix@.len() as int) =~= s@.skip(pos + prefix@.len()));
            }
            pos += pat.len();
        }
        proof {
            let tail = s@.skip(pos as int);
            if pos + prefix@.len() <= s@.len() {
                assert(tail.subrange(0, prefix@.len() as int) =~= s@.subrange(
                    pos as int,
                    pos + prefix@.len(),
                ));
            }
        }
    }
    let r = s.substring_char(pos, chars.len());
    assert(r@ =~= s@.skip(pos as int));
    r
}

/// Answers a request for the client's user agent.
pub fn get_user_agent_response(request: &Request) -> (r: ResponseBuilder<StatusCode>)
    ensures
        r@ == user_agent_response(request@.headers),
        no_length_header(r@.headers),
{
    match find_header(&request.headers, "User-Agent") {
        Some(agent) => ResponseBuilder::ok().with(("Content-Type", "text/plain")).body(
            agent.as_str(),
        ),
        None => ResponseBuilder::bad_request(),
    }
}

/// Answers with `content` as plain text.
pub fn get_echo_response(content: &str) -> (r: ResponseBuilder<StatusCode>)
    ensures
        r@ == echo_response(content@),
        no_length_header(r@.headers),
{
    let response_builder = ResponseBuilder::ok().with(("Content-Type", "text/plain"));
    if content.is_empty() {
        response_builder
    } else {
        response_builder.body(content)
    }
}

/// Answers a request for `/`.
pub fn get_root_response() -> (r: ResponseBuilder<StatusCode>)
    ensures
        r@ == root_response(),
        no_length_header(r@.headers),
{
    let mut headers: Vec<(&str, &str)> = Vec::new();
    headers.push(("Connection", "Keep-Alive"));
    headers.push(("Keep-Alive", "timeout=5, max=1000"));
    let r = ResponseBuilder::ok().with(headers).without_content_length_header();
    proof {
        let more = seq![("Connection"@, "Keep-Alive"@), ("Keep-Alive"@, "timeout=5, max=1000"@)];
        assert(crate::response_builder::IntoResponsePart::part(headers) =~= more);
    }
    r
}

/// Answers a request for a file with what reading the file gave: the bytes,
/// or nothing where it could not be read.
pub fn get_file_response(contents: Option<Vec<u8>>) -> (r: ResponseBuilder<StatusCode>)
    ensures
        r@ == file_read_response(crate::response::body_view(contents)),
        no_length_header(r@.headers),
{
    match contents {
        Some(file) => ResponseBuilder::ok().with(("Content-Type", "application/octet-stream")).body(
            file,
        ),
        None => ResponseBuilder::not_found().without_content_length_header(),
    }
}

/// Answers a request to store a file with how writing the file ended.
pub fn post_file_response(outcome: FileWriteOutcome) -> (r: ResponseBuilder<StatusCode>)
    ensures
        r@ == file_write_response(outcome),
        no_length_header(r@.headers),
{
    match outcome {
        FileWriteOutcome::Written => ResponseBuilder::new().with_status_code(
            StatusCode::Created,
        ).without_content_length_header(),
        FileWriteOutcome::OpenFailed => ResponseBuilder::internal_server_error(
        ).without_content_length_header(),
        FileWriteOutcome::WriteFailed => ResponseBuilder::bad_request(),
    }
}

} // verus!
