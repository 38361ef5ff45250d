//! Responses, and their form on the wire.

use vstd::prelude::*;
use vstd::string::*;
use vstd::utf8::*;
use crate::request::headers_view;
use crate::status_code::StatusCode;

verus! {

/// A finished response.
#[derive(Debug, PartialEq, Eq, Clone)]
pub struct Response {
    pub status_code: StatusCode,
    /// Names and values, in the order in which they are sent.
    pub headers: Vec<(String, String)>,
    /// The body; a response without a body is not one with an empty body.
    pub body: Option<Vec<u8>>,
}

/// What a response holds.
pub struct ResponseView {
    pub status_code: StatusCode,
    pub headers: Seq<(Seq<char>, Seq<char>)>,
    pub body: Option<Seq<u8>>,
}

/// What an optional byte vector holds.
pub open spec fn body_view(body: Option<Vec<u8>>) -> Option<Seq<u8>> {
    match body {
        Some(bytes) => Some(bytes@),
        None => None,
    }
}

impl View for Response {
    type V = ResponseView;

    open spec fn view(&self) -> ResponseView {
        ResponseView {
            status_code: self.status_code,
            headers: headers_view(self.headers@),
            body: body_view(self.body),
        }
    }
}

/// A header as a line of text: the name, a colon and a space, the value, and
/// the line ending.
pub open spec fn header_line(header: (Seq<char>, Seq<char>)) -> Seq<char> {
    header.0 + ": "@ + header.1 + "\r\n"@
}

/// The header lines, one after the other.
pub open spec fn header_lines(headers: Seq<(Seq<char>, Seq<char>)>) -> Seq<char>
    decreases headers.len(),
{
    if headers.len() == 0 {
        Seq::empty()
    } else {
        header_lines(headers.drop_last()) + header_line(headers.last())
    }
}

/// A header as bytes on the wire.
pub open spec fn header_bytes(header: (Seq<char>, Seq<char>)) -> Seq<u8> {
    encode_utf8(header.0) + encode_utf8(": "@) + encode_utf8(header.1) + encode_utf8("\r\n"@)
}

/// The headers as bytes on the wire, one after the other.
pub open spec fn headers_bytes(headers: Seq<(Seq<char>, Seq<char>)>) -> Seq<u8>
    decreases headers.len(),
{
    if headers.len() == 0 {
        Seq::empty()
    } else {
        headers_bytes(headers.drop_last()) + header_bytes(headers.last())
    }
}

impl ResponseView {
    /// The bytes of the body; none where there is no body.
    pub open spec fn body_bytes(self) -> Seq<u8> {
        match self.body {
            Some(bytes) => bytes,
            None => Seq::empty(),
        }
    }

    /// The status line, the header lines and the empty line, as bytes.
    pub open spec fn wire_head(self) -> Seq<u8> {
        encode_utf8(self.status_code.status_line()) + headers_bytes(self.headers) + encode_utf8(
            "\r\n"@,
        )
    }

    /// The response as bytes on the wire: the head, then the body.
    pub open spec fn wire(self) -> Seq<u8> {
        self.wire_head() + self.body_bytes()
    }

    /// The status line, the header lines and the empty line, as text.
    pub open spec fn text_head(self) -> Seq<char> {
        self.status_code.status_line() + header_lines(self.headers) + "\r\n"@
    }
}

/// The text that bytes are shown as: valid UTF-8 reads as it stands, and every
/// invalid part of the rest is shown as the replacement character.
pub uninterp spec fn lossy_text(bytes: Seq<u8>) -> Seq<char>;

/// `String::from_utf8_lossy`, as an owned string. The result depends on the
/// bytes alone; for bytes that are valid UTF-8 it is the text they encode.
#[verifier::external_body]
fn lossy_string(bytes: &[u8]) -> (r: String)
    ensures
        r@ == lossy_text(bytes@),
        valid_utf8(bytes@) ==> r@ == decode_utf8(bytes@),
{
    String::from_utf8_lossy(bytes).into_owned()
}

impl Response {
    /// The response as bytes on the wire.
    pub fn to_bytes_vec(&self) -> (out: Vec<u8>)
        ensures
            out@ == self@.wire(),
    {
        let mut out: Vec<u8> = Vec::new();
        out.extend_from_slice(self.status_code.to_string().as_str().as_bytes());
        let ghost line = out@;
        let ghost headers = headers_view(self.headers@);
        let mut k: usize = 0;
        proof {
            assert(headers.take(0) =~= Seq::empty());
            assert(line + headers_bytes(headers.take(0)) =~= line);
        }
        while k < self.headers.len()
            invariant
                k <= self.headers.len(),
                headers == headers_view(self.headers@),
                line == encode_utf8(self.status_code.status_line()),
                out@ == line + headers_bytes(headers.take(k as int)),
            decreases self.headers.len() - k,
        {
            let ghost before = out@;
            let header = &self.headers[k];
            out.extend_from_slice(header.0.as_str().as_bytes());
            out.extend_from_slice(": ".as_bytes());
            out.extend_from_slice(header.1.as_str().as_bytes());
            out.extend_from_slice("\r\n".as_bytes());
            proof {
                let upto = headers.take(k + 1);
                assert(upto.drop_last() =~= headers.take(k as int));
                assert(upto.last() == headers[k as int]);
                assert(out@ =~= before + header_bytes(headers[k as int]));
                assert(out@ =~= line + headers_bytes(upto));
            }
            k += 1;
        }
        proof {
            assert(headers.take(k as int) =~= headers);
        }
        out.extend_from_slice("\r\n".as_bytes());
        match &self.body {
            Some(body) => {
                out.extend_from_slice(body.as_slice());
            },
            None => {},
        }
        assert(out@ =~= self@.wire());
        out
    }

    /// The response as text: the head, then the body as far as it reads as
    /// text.
    pub fn to_string(&self) -> (out: String)
        ensures
            out@ == self@.text_head() + match self@.body {
                Some(bytes) => lossy_text(bytes),
                None => Seq::empty(),
            },
            valid_utf8(self@.body_bytes()) ==> out@ == self@.text_head() + decode_utf8(
                self@.body_bytes(),
            ),
    {
        let mut out = self.status_code.to_string();
        let ghost line = out@;
        let ghost headers = headers_view(self.headers@);
        let mut k: usize = 0;
        proof {
            assert(headers.take(0) =~= Seq::empty());
            assert(line + header_lines(headers.take(0)) =~= line);
        }
        while k < self.headers.len()
            invariant
                k <= self.headers.len(),
                headers == headers_view(self.headers@),
                line == self.status_code.status_line(),
                out@ == line + header_lines(headers.take(k as int)),
            decreases self.headers.len() - k,
        {
            let ghost before = out@;
            let header = &self.headers[k];
            out.append(header.0.as_str());
            out.append(": ");
            out.append(header.1.as_str());
            out.append("\r\n");
            proof {
                let upto = headers.take(k + 1);
                assert(upto.drop_last() =~= headers.take(k as int));
                assert(upto.last() == headers[k as int]);
                assert(out@ =~= before + header_line(headers[k as int]));
                assert(out@ =~= line + header_lines(upto));
            }
            k += 1;
        }
        proof {
            assert(headers.take(k as int) =~= headers);
        }
        out.append("\r\n");
        let ghost head = out@;
        assert(head =~= self@.text_head());
        match &self.body {
            Some(body) => {
                let shown = lossy_string(body.as_slice());
                out.append(shown.as_str());
            },
            None => {
                assert(out@ =~= head + Seq::<char>::empty());
                assert(decode_utf8(Seq::<u8>::empty()) =~= Seq::<char>::empty());
            },
        }
        out
    }
}

} // verus!
