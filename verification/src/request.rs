//! Requests, and reading one from text.

use vstd::prelude::*;
use vstd::string::*;
use vstd::utf8::*;
use crate::error::{ParseRequestError, ParseRequestErrorKind};
use crate::method::{method_of, Method};
use crate::text::{chars_of, find_from, find_seq, lemma_find_seq, str_eq};

verus! {

/// A line without the carriage return that ended it, if one did.
pub open spec fn strip_cr(line: Seq<char>) -> Seq<char> {
    if line.len() > 0 && line.last() == '\r' {
        line.drop_last()
    } else {
        line
    }
}

/// The lines of a text. A line ends with a line feed, or with a carriage
/// return and a line feed; neither belongs to the line. The last line needs
/// no line ending, and then keeps a carriage return at its end.
pub open spec fn lines_of(s: Seq<char>) -> Seq<Seq<char>>
    decreases s.len(),
    via lines_of_decreases
{
    if s.len() == 0 {
        Seq::empty()
    } else {
        match find_seq(s, "\n"@) {
            Some(i) => seq![strip_cr(s.take(i))] + lines_of(s.skip(i + 1)),
            None => seq![s],
        }
    }
}

#[via_fn]
proof fn lines_of_decreases(s: Seq<char>) {
    reveal_strlit("\n");
    lemma_find_seq(s, "\n"@);
}

/// The part of `line` before the first `sep` and the part after it.
pub open spec fn split_once(line: Seq<char>, sep: Seq<char>) -> Option<(Seq<char>, Seq<char>)> {
    match find_seq(line, sep) {
        Some(i) => Some((line.take(i), line.skip(i + sep.len()))),
        None => None,
    }
}

/// The first word of a line and what follows the space after it. A line
/// without a space is one word, followed by nothing; an empty line has no word.
pub open spec fn next_word(line: Seq<char>) -> Option<(Seq<char>, Seq<char>)> {
    if line.len() == 0 {
        None
    } else {
        match split_once(line, " "@) {
            Some(parts) => Some(parts),
            None => Some((line, Seq::empty())),
        }
    }
}

/// What each string of a sequence holds.
pub open spec fn strs_view(v: Seq<&str>) -> Seq<Seq<char>> {
    Seq::new(v.len(), |i: int| v[i]@)
}

/// Splits a text into its lines.
pub fn lines(s: &str) -> (out: Vec<&str>)
    ensures
        strs_view(out@) == lines_of(s@),
{
    let chars = chars_of(s);
    let nl = chars_of("\n");
    let n = chars.len();
    let mut out: Vec<&str> = Vec::new();
    let mut pos: usize = 0;
    proof {
        reveal_strlit("\n");
        assert(s@.skip(0) =~= s@);
        assert(strs_view(out@) + lines_of(s@) =~= lines_of(s@));
    }
    while pos < n
        invariant
            chars@ == s@,
            nl@ == "\n"@,
            nl@.len() == 1,
            n == chars.len(),
            pos <= n,
            lines_of(s@) == strs_view(out@) + lines_of(s@.skip(pos as int)),
        decreases n - pos,
    {
        let ghost tail = s@.skip(pos as int);
        let ghost before = strs_view(out@);
        match find_from(&chars, &nl, pos) {
            Some(i) => {
                let end = pos + i;
                let stop = if end > pos && chars[end - 1] == '\r' {
                    end - 1
                } else {
                    end
                };
                let line = s.substring_char(pos, stop);
                out.push(line);
                proof {
                    assert(tail.take(i as int) =~= s@.subrange(pos as int, end as int));
                    assert(strip_cr(tail.take(i as int)) =~= line@);
                    assert(tail.skip(i + 1) =~= s@.skip(end + 1));
                    assert(strs_view(out@) =~= before + seq![line@]);
                    assert(lines_of(s@) =~= strs_view(out@) + lines_of(s@.skip(end + 1)));
                }
                pos = end + 1;
            },
            None => {
                let line = s.substring_char(pos, n);
                out.push(line);
                proof {
                    assert(line@ =~= tail);
                    assert(strs_view(out@) =~= before + seq![line@]);
                    assert(s@.skip(n as int).len() == 0);
                    assert(lines_of(s@) =~= strs_view(out@) + lines_of(s@.skip(n as int)));
                }
                pos = n;
            },
        }
    }
    proof {
        assert(s@.skip(pos as int).len() == 0);
        assert(strs_view(out@) + lines_of(s@.skip(pos as int)) =~= strs_view(out@));
    }
    out
}

/// Splits a line at the first occurrence of `sep`.
pub fn split_once_at<'a>(line: &'a str, sep: &str) -> (r: Option<(&'a str, &'a str)>)
    ensures
        match r {
            Some((a, b)) => split_once(line@, sep@) == Some((a@, b@)),
            None => split_once(line@, sep@) is None,
        },
{
    let chars = chars_of(line);
    let pat = chars_of(sep);
    proof {
        assert(line@.skip(0) =~= line@);
    }
    match find_from(&chars, &pat, 0) {
        Some(i) => {
            let a = line.substring_char(0, i);
            let b = line.substring_char(i + pat.len(), chars.len());
            proof {
                assert(a@ =~= line@.take(i as int));
                assert(b@ =~= line@.skip(i + sep@.len()));
            }
            Some((a, b))
        },
        None => None,
    }
}

/// The first line of a request text, and the lines after it. A text without
/// a line is no request.
pub fn get_next_request_line(request_str: &str) -> (r: Result<(&str, Vec<&str>), ParseRequestError>)
    ensures
        match r {
            Ok((first, rest)) => lines_of(request_str@).len() > 0 && first@ == lines_of(
                request_str@,
            )[0] && strs_view(rest@) == lines_of(request_str@).skip(1),
            Err(e) => lines_of(request_str@).len() == 0 && e.kind
                == ParseRequestErrorKind::InvalidRequest,
        },
{
    let mut all = lines(request_str);
    if all.len() == 0 {
        return Err(ParseRequestError { kind: ParseRequestErrorKind::InvalidRequest });
    }
    let ghost before = all@;
    let first = all.remove(0);
    proof {
        assert(strs_view(before)[0] == first@);
        assert(strs_view(all@) =~= strs_view(before).skip(1));
    }
    Ok((first, all))
}

/// The first word of a line, and what follows the space after it.
pub fn get_next_word(request_line: &str) -> (r: Option<(&str, &str)>)
    ensures
        match r {
            Some((word, rest)) => next_word(request_line@) == Some((word@, rest@)),
            None => next_word(request_line@) is None,
        },
{
    if request_line.is_empty() {
        return None;
    }
    match split_once_at(request_line, " ") {
        Some(parts) => Some(parts),
        None => {
            let rest = "";
            proof {
                reveal_strlit("");
                assert(rest@ =~= Seq::<char>::empty());
            }
            Some((request_line, rest))
        },
    }
}

/// The name and the value of a header line: what stands before the first
/// colon-and-space, and what stands after it.
pub fn parse_header(header: &str) -> (r: Option<(&str, &str)>)
    ensures
        match r {
            Some((name, value)) => split_once(header@, ": "@) == Some((name@, value@)),
            None => split_once(header@, ": "@) is None,
        },
{
    split_once_at(header, ": ")
}

/// A request, as the parser reads it.
#[derive(Debug)]
pub struct Request {
    pub method: Method,
    /// The target; it starts with `/`.
    pub uri: String,
    /// Names and values, in the order of the header lines.
    pub headers: Vec<(String, String)>,
    pub body: Vec<u8>,
}

/// What a request holds.
pub struct RequestView {
    pub method: Method,
    pub uri: Seq<char>,
    pub headers: Seq<(Seq<char>, Seq<char>)>,
    pub body: Seq<u8>,
}

/// What a list of headers holds.
pub open spec fn headers_view(headers: Seq<(String, String)>) -> Seq<(Seq<char>, Seq<char>)> {
    Seq::new(headers.len(), |i: int| (headers[i].0@, headers[i].1@))
}

impl View for Request {
    type V = RequestView;

    open spec fn view(&self) -> RequestView {
        RequestView {
            method: self.method,
            uri: self.uri@,
            headers: headers_view(self.headers@),
            body: self.body@,
        }
    }
}

/// The method and the target of a request line. The line is a method name, a
/// space, a target that starts with `/`, a space, and `HTTP/1.1`.
pub open spec fn parse_request_line(line: Seq<char>) -> Result<
    (Method, Seq<char>),
    ParseRequestErrorKind,
> {
    match next_word(line) {
        None => Err(ParseRequestErrorKind::InvalidRequest),
        Some((token, rest)) => match method_of(token) {
            None => Err(ParseRequestErrorKind::InvalidMethod),
            Some(method) => match next_word(rest) {
                None => Err(ParseRequestErrorKind::InvalidRequest),
                Some((uri, protocol)) => if !(uri.len() > 0 && uri[0] == '/') {
                    Err(ParseRequestErrorKind::InvalidRequest)
                } else if protocol == "HTTP/1.1"@ {
                    Ok((method, uri))
                } else if protocol.len() == 0 {
                    Err(ParseRequestErrorKind::InvalidRequest)
                } else {
                    Err(ParseRequestErrorKind::InvalidProtocol)
                },
            },
        },
    }
}

/// The headers that the lines up to the first empty line hold, and the lines
/// after that empty line. Every line before it must be a header line.
pub open spec fn parse_headers(lines: Seq<Seq<char>>) -> Result<
    (Seq<(Seq<char>, Seq<char>)>, Seq<Seq<char>>),
    ParseRequestErrorKind,
>
    decreases lines.len(),
{
    if lines.len() == 0 {
        Ok((Seq::empty(), Seq::empty()))
    } else if lines[0].len() == 0 {
        Ok((Seq::empty(), lines.skip(1)))
    } else {
        match split_once(lines[0], ": "@) {
            None => Err(ParseRequestErrorKind::InvalidRequest),
            Some(header) => match parse_headers(lines.skip(1)) {
                Ok((headers, rest)) => Ok((seq![header] + headers, rest)),
                Err(e) => Err(e),
            },
        }
    }
}

/// The bytes of the lines, one after the other, with nothing between them.
pub open spec fn body_of(lines: Seq<Seq<char>>) -> Seq<u8>
    decreases lines.len(),
{
    if lines.len() == 0 {
        Seq::empty()
    } else {
        body_of(lines.drop_last()) + encode_utf8(lines.last())
    }
}

/// The request that a text holds: a request line, header lines up to the
/// first empty line, and the remaining lines as the body.
pub open spec fn parse_request(text: Seq<char>) -> Result<RequestView, ParseRequestErrorKind> {
    let lines = lines_of(text);
    if lines.len() == 0 {
        Err(ParseRequestErrorKind::InvalidRequest)
    } else {
        match parse_request_line(lines[0]) {
            Err(e) => Err(e),
            Ok((method, uri)) => match parse_headers(lines.skip(1)) {
                Err(e) => Err(e),
                Ok((headers, rest)) => Ok(
                    RequestView { method, uri, headers, body: body_of(rest) },
                ),
            },
        }
    }
}

/// The target of a request that was read starts with `/`.
pub proof fn lemma_parsed_uri_starts_with_slash(text: Seq<char>)
    ensures
        parse_request(text) matches Ok(request) ==> request.uri.len() > 0 && request.uri[0] == '/',
{
}

/// `parse_headers` with `done` put before the headers it finds.
spec fn headers_after(
    done: Seq<(Seq<char>, Seq<char>)>,
    lines: Seq<Seq<char>>,
) -> Result<(Seq<(Seq<char>, Seq<char>)>, Seq<Seq<char>>), ParseRequestErrorKind> {
    match parse_headers(lines) {
        Ok((headers, rest)) => Ok((done + headers, rest)),
        Err(e) => Err(e),
    }
}

fn invalid_request() -> (e: ParseRequestError)
    ensures
        e.kind == ParseRequestErrorKind::InvalidRequest,
{
    ParseRequestError { kind: ParseRequestErrorKind::InvalidRequest }
}

/// Reads the method and the target from a request line.
pub fn read_request_line(line: &str) -> (r: Result<(Method, String), ParseRequestError>)
    ensures
        match r {
            Ok((method, uri)) => parse_request_line(line@) == Ok::<
                (Method, Seq<char>),
                ParseRequestErrorKind,
            >((method, uri@)),
            Err(e) => parse_request_line(line@) == Err::<
                (Method, Seq<char>),
                ParseRequestErrorKind,
            >(e.kind),
        },
{
    let (token, rest_of_line) = match get_next_word(line) {
        Some(parts) => parts,
        None => { return Err(invalid_request()); },
    };
    let method = match Method::from_str(token) {
        Ok(m) => m,
        Err(e) => { return Err(ParseRequestError::from(e)); },
    };
    let (uri, protocol) = match get_next_word(rest_of_line) {
        Some(parts) => parts,
        None => { return Err(invalid_request()); },
    };
    if uri.is_empty() || uri.get_char(0) != '/' {
        return Err(invalid_request());
    }
    if !str_eq(protocol, "HTTP/1.1") {
        if protocol.is_empty() {
            return Err(invalid_request());
        }
        return Err(ParseRequestError { kind: ParseRequestErrorKind::InvalidProtocol });
    }
    Ok((method, uri.to_owned()))
}

impl Request {
    /// Reads a request from its text.
    pub fn try_from(request_str: &str) -> (r: Result<Request, ParseRequestError>)
        ensures
            match r {
                Ok(request) => parse_request(request_str@) == Ok::<
                    RequestView,
                    ParseRequestErrorKind,
                >(request@),
                Err(e) => parse_request(request_str@) == Err::<RequestView, ParseRequestErrorKind>(
                    e.kind,
                ),
            },
    {
        let (first_line, rest) = match get_next_request_line(request_str) {
            Ok(parts) => parts,
            Err(e) => { return Err(e); },
        };
        let (method, uri) = match read_request_line(first_line) {
            Ok(parts) => parts,
            Err(e) => { return Err(e); },
        };
        let ghost lines = strs_view(rest@);
        let mut headers: Vec<(String, String)> = Vec::new();
        let mut k: usize = 0;
        let mut in_headers = true;
        proof {
            assert(lines.skip(0) =~= lines);
            assert(headers_view(headers@) =~= Seq::empty());
            match parse_headers(lines) {
                Ok((h, rest)) => {
                    assert(Seq::<(Seq<char>, Seq<char>)>::empty() + h =~= h);
                },
                Err(e) => {},
            }
        }
        while in_headers && k < rest.len()
            invariant
                lines == strs_view(rest@),
                lines_of(request_str@).len() > 0,
                lines == lines_of(request_str@).skip(1),
                parse_request_line(lines_of(request_str@)[0]) is Ok,
                k <= rest.len(),
                in_headers ==> parse_headers(lines) == headers_after(
                    headers_view(headers@),
                    lines.skip(k as int),
                ),
                !in_headers ==> parse_headers(lines) == Ok::<
                    (Seq<(Seq<char>, Seq<char>)>, Seq<Seq<char>>),
                    ParseRequestErrorKind,
                >((headers_view(headers@), lines.skip(k as int))),
            decreases rest.len() - k + if in_headers { 1int } else { 0int },
        {
            let line = rest[k];
            let ghost tail = lines.skip(k as int);
            let ghost done = headers_view(headers@);
            proof {
                assert(tail[0] == line@);
                assert(tail.skip(1) =~= lines.skip(k + 1));
            }
            if line.is_empty() {
                in_headers = false;
                proof {
                    assert(done + Seq::<(Seq<char>, Seq<char>)>::empty() =~= done);
                }
            } else {
                let (name, value) = match parse_header(line) {
                    Some(parts) => parts,
                    None => { return Err(invalid_request()); },
                };
                headers.push((name.to_owned(), value.to_owned()));
                proof {
                    let header = (name@, value@);
                    assert(headers_view(headers@) =~= done + seq![header]);
                    match parse_headers(tail.skip(1)) {
                        Ok((h, r)) => {
                            assert(done + (seq![header] + h) =~= (done + seq![header]) + h);
                        },
                        Err(e) => {},
                    }
                }
            }
            k += 1;
        }
        proof {
            if in_headers {
                assert(lines.skip(k as int) =~= Seq::<Seq<char>>::empty());
                assert(headers_view(headers@) + Seq::<(Seq<char>, Seq<char>)>::empty()
                    =~= headers_view(headers@));
            }
        }
        let ghost body_lines = lines.skip(k as int);
        let start = k;
        let mut body: Vec<u8> = Vec::new();
        proof {
            assert(body_lines.take(0) =~= Seq::<Seq<char>>::empty());
        }
        while k < rest.len()
            invariant
                lines == strs_view(rest@),
                start <= k <= rest.len(),
                body_lines == lines.skip(start as int),
                body@ == body_of(body_lines.take(k - start)),
            decreases rest.len() - k,
        {
            let line = rest[k];
            proof {
                let upto = body_lines.take(k - start + 1);
                assert(upto.drop_last() =~= body_lines.take(k - start));
                assert(upto.last() == line@);
            }
            body.extend_from_slice(line.as_bytes());
            k += 1;
        }
        proof {
            assert(body_lines.take(k - start) =~= body_lines);
        }
        Ok(Request { method, uri, headers, body })
    }
}

/// `std::str::from_utf8`: the bytes as text, where they are valid UTF-8, and
/// nothing where they are not.
#[verifier::external_body]
fn utf8_text(bytes: &[u8]) -> (r: Option<&str>)
    ensures
        r is Some <==> valid_utf8(bytes@),
        r matches Some(text) ==> text@ == decode_utf8(bytes@),
{
    std::str::from_utf8(bytes).ok()
}

/// The request that bytes hold: they must be UTF-8, and their text a request.
pub open spec fn parse_request_bytes(bytes: Seq<u8>) -> Result<RequestView, ParseRequestErrorKind> {
    if valid_utf8(bytes) {
        parse_request(decode_utf8(bytes))
    } else {
        Err(ParseRequestErrorKind::EncodingError)
    }
}

impl Request {
    /// Reads a request from the bytes that a client sent.
    pub fn from_bytes(bytes: &[u8]) -> (r: Result<Request, ParseRequestError>)
        ensures
            match r {
                Ok(request) => parse_request_bytes(bytes@) == Ok::<
                    RequestView,
                    ParseRequestErrorKind,
                >(request@),
                Err(e) => parse_request_bytes(bytes@) == Err::<RequestView, ParseRequestErrorKind>(
                    e.kind,
                ),
            },
    {
        match utf8_text(bytes) {
            Some(text) => Request::try_from(text),
            None => Err(ParseRequestError { kind: ParseRequestErrorKind::EncodingError }),
        }
    }
}

} // verus!
