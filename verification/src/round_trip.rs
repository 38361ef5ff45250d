//! Text that is written from a request or a response reads back as what it
//! was written from.

use vstd::prelude::*;
use vstd::utf8::*;
use crate::error::ParseRequestErrorKind;
use crate::method::{lemma_method_name_round_trip, Method};
use crate::request::{
    body_of, lines_of, next_word, parse_headers, parse_request, parse_request_line, split_once,
    strip_cr, RequestView,
};
use crate::handlers::header_value;
use crate::response::{header_line, header_lines, headers_bytes, ResponseView};
use crate::response_builder::{no_length_header, settable, BuilderView};
use crate::status_code::StatusCode;
use crate::text::{decimal, digit};
use crate::text::{find_seq, lemma_find_seq, lemma_find_seq_is, lemma_find_seq_none, occurs_at};

verus! {

/// `c` stands nowhere in `s`.
pub open spec fn without_char(s: Seq<char>, c: char) -> bool {
    forall|i: int| 0 <= i < s.len() ==> s[i] != c
}

/// A header that fills one line: no line feed in the name or the value.
pub open spec fn line_header(header: (Seq<char>, Seq<char>)) -> bool {
    &&& without_char(header.0, '\n')
    &&& without_char(header.1, '\n')
}

/// Every header of the list fills one line.
pub open spec fn line_headers(headers: Seq<(Seq<char>, Seq<char>)>) -> bool {
    forall|i: int| 0 <= i < headers.len() ==> line_header(#[trigger] headers[i])
}

/// A header that a header line can hold: it fills one line, and its name
/// holds no colon-and-space.
pub open spec fn plain_header(header: (Seq<char>, Seq<char>)) -> bool {
    &&& line_header(header)
    &&& find_seq(header.0, ": "@) is None
}

/// Every header of the list can stand in a header line.
pub open spec fn plain_headers(headers: Seq<(Seq<char>, Seq<char>)>) -> bool {
    forall|i: int| 0 <= i < headers.len() ==> plain_header(#[trigger] headers[i])
}

/// The header that the line of a header reads as. It is the header itself
/// where the name holds no colon-and-space.
pub open spec fn read_header(header: (Seq<char>, Seq<char>)) -> (Seq<char>, Seq<char>) {
    split_once(header_text(header), ": "@)->0
}

/// The headers that the lines of a list of headers read as.
pub open spec fn read_headers(headers: Seq<(Seq<char>, Seq<char>)>) -> Seq<
    (Seq<char>, Seq<char>),
> {
    Seq::new(headers.len(), |i: int| read_header(headers[i]))
}

/// A header line without its line ending.
pub open spec fn header_text(header: (Seq<char>, Seq<char>)) -> Seq<char> {
    header.0 + ": "@ + header.1
}

/// The header lines of a list, each without its line ending.
pub open spec fn header_texts(headers: Seq<(Seq<char>, Seq<char>)>) -> Seq<Seq<char>> {
    Seq::new(headers.len(), |i: int| header_text(headers[i]))
}

/// A line without a line feed, followed by a line ending and more text, is
/// the first line of the whole; the lines of the rest follow it.
pub proof fn lemma_lines_after_line(line: Seq<char>, rest: Seq<char>)
    requires
        without_char(line, '\n'),
    ensures
        lines_of(line + "\r\n"@ + rest) == seq![line] + lines_of(rest),
{
    reveal_strlit("\r\n");
    reveal_strlit("\n");
    let s = line + "\r\n"@ + rest;
    let n = line.len() as int;
    assert(s[n] == '\r');
    assert(s[n + 1] == '\n');
    assert(s.subrange(n + 1, n + 2) =~= "\n"@);
    assert forall|j: int| 0 <= j < n + 1 implies !occurs_at(s, "\n"@, j) by {
        if occurs_at(s, "\n"@, j) {
            assert(s.subrange(j, j + 1)[0] == s[j]);
            if j < n {
                assert(s[j] == line[j]);
            }
        }
    }
    lemma_find_seq_is(s, "\n"@, n + 1);
    assert(s.take(n + 1) =~= line.push('\r'));
    assert(strip_cr(s.take(n + 1)) =~= line);
    assert(s.skip(n + 2) =~= rest);
}

/// A header line holds no line feed where its header does not.
pub proof fn lemma_header_text_is_a_line(header: (Seq<char>, Seq<char>))
    requires
        line_header(header),
    ensures
        without_char(header_text(header), '\n'),
        header_text(header).len() >= 2,
        header_line(header) == header_text(header) + "\r\n"@,
{
    reveal_strlit(": ");
    let text = header_text(header);
    let n = header.0.len() as int;
    assert forall|i: int| 0 <= i < text.len() implies text[i] != '\n' by {
        if i < n {
            assert(text[i] == header.0[i]);
        } else if i < n + 2 {
            assert(text[i] == ": "@[i - n]);
        } else {
            assert(text[i] == header.1[i - n - 2]);
        }
    }
}

/// The lines of header lines that are followed by more text: one line for
/// each header, then the lines of the rest.
pub proof fn lemma_lines_of_header_lines(headers: Seq<(Seq<char>, Seq<char>)>, rest: Seq<char>)
    requires
        line_headers(headers),
    ensures
        lines_of(header_lines(headers) + rest) == header_texts(headers) + lines_of(rest),
    decreases headers.len(),
{
    if headers.len() == 0 {
        assert(header_lines(headers) + rest =~= rest);
        assert(header_texts(headers) + lines_of(rest) =~= lines_of(rest));
    } else {
        let init = headers.drop_last();
        let last = headers.last();
        assert(line_header(last));
        assert(line_headers(init)) by {
            assert forall|i: int| 0 <= i < init.len() implies line_header(#[trigger] init[i]) by {
                assert(init[i] == headers[i]);
            }
        }
        lemma_header_text_is_a_line(last);
        let tail = header_line(last) + rest;
        assert(header_lines(headers) + rest =~= header_lines(init) + tail);
        lemma_lines_of_header_lines(init, tail);
        assert(tail =~= header_text(last) + "\r\n"@ + rest);
        lemma_lines_after_line(header_text(last), rest);
        assert(header_texts(init) + (seq![header_text(last)] + lines_of(rest)) =~= header_texts(
            headers,
        ) + lines_of(rest));
    }
}

/// A header line splits into the name and the value of its header.
pub proof fn lemma_split_header_text(header: (Seq<char>, Seq<char>))
    requires
        find_seq(header.0, ": "@) is None,
    ensures
        split_once(header_text(header), ": "@) == Some(header),
{
    reveal_strlit(": ");
    let sep = ": "@;
    let text = header_text(header);
    let n = header.0.len() as int;
    lemma_find_seq(header.0, sep);
    assert(text.subrange(n, n + 2) =~= sep);
    assert forall|j: int| 0 <= j < n implies !occurs_at(text, sep, j) by {
        if occurs_at(text, sep, j) {
            let found = text.subrange(j, j + 2);
            assert(found[0] == text[j] && found[1] == text[j + 1]);
            if j + 1 < n {
                assert(header.0.subrange(j, j + 2) =~= found);
                assert(occurs_at(header.0, sep, j));
            } else {
                assert(text[j + 1] == ':');
            }
        }
    }
    lemma_find_seq_is(text, sep, n);
    assert(text.take(n) =~= header.0);
    assert(text.skip(n + 2) =~= header.1);
}

/// A header line holds a colon-and-space, so it reads as some header.
pub proof fn lemma_header_text_splits(header: (Seq<char>, Seq<char>))
    ensures
        split_once(header_text(header), ": "@) is Some,
        header_text(header).len() >= 2,
{
    reveal_strlit(": ");
    let text = header_text(header);
    let n = header.0.len() as int;
    assert(text.subrange(n, n + 2) =~= ": "@);
    assert(occurs_at(text, ": "@, n));
    lemma_find_seq(text, ": "@);
}

/// The lines of plain headers read as the headers themselves.
pub proof fn lemma_read_plain_headers(headers: Seq<(Seq<char>, Seq<char>)>)
    requires
        plain_headers(headers),
    ensures
        read_headers(headers) == headers,
{
    assert forall|i: int| 0 <= i < headers.len() implies read_headers(headers)[i]
        == headers[i] by {
        assert(plain_header(headers[i]));
        lemma_split_header_text(headers[i]);
    }
    assert(read_headers(headers) =~= headers);
}

/// Header lines, an empty line and more lines read as one header for each
/// line, with the lines after the empty line left over.
pub proof fn lemma_parse_header_texts(
    headers: Seq<(Seq<char>, Seq<char>)>,
    after: Seq<Seq<char>>,
)
    ensures
        parse_headers(header_texts(headers) + seq![Seq::<char>::empty()] + after) == Ok::<
            (Seq<(Seq<char>, Seq<char>)>, Seq<Seq<char>>),
            ParseRequestErrorKind,
        >((read_headers(headers), after)),
    decreases headers.len(),
{
    let lines = header_texts(headers) + seq![Seq::<char>::empty()] + after;
    if headers.len() == 0 {
        assert(lines[0].len() == 0);
        assert(lines.skip(1) =~= after);
        assert(read_headers(headers) =~= Seq::empty());
    } else {
        let first = headers[0];
        let others = headers.skip(1);
        lemma_header_text_splits(first);
        assert(lines[0] == header_text(first));
        assert(lines.skip(1) =~= header_texts(others) + seq![Seq::<char>::empty()] + after);
        lemma_parse_header_texts(others, after);
        assert(seq![read_header(first)] + read_headers(others) =~= read_headers(headers));
    }
}

/// A word without a space, a space and more text split into the word and
/// the text.
pub proof fn lemma_next_word(word: Seq<char>, rest: Seq<char>)
    requires
        without_char(word, ' '),
    ensures
        next_word(word + " "@ + rest) == Some((word, rest)),
{
    reveal_strlit(" ");
    let sep = " "@;
    let line = word + sep + rest;
    let n = word.len() as int;
    assert(line.subrange(n, n + 1) =~= sep);
    assert forall|j: int| 0 <= j < n implies !occurs_at(line, sep, j) by {
        if occurs_at(line, sep, j) {
            assert(line.subrange(j, j + 1)[0] == line[j]);
            assert(line[j] == word[j]);
        }
    }
    lemma_find_seq_is(line, sep, n);
    assert(line.take(n) =~= word);
    assert(line.skip(n + 1) =~= rest);
}

/// The name of a method holds neither a space nor a line feed.
pub proof fn lemma_method_name_is_a_word(method: Method)
    ensures
        without_char(method.name(), ' '),
        without_char(method.name(), '\n'),
{
    reveal_strlit("GET");
    reveal_strlit("POST");
    reveal_strlit("PUT");
    reveal_strlit("DELETE");
    reveal_strlit("PATCH");
    reveal_strlit("OPTIONS");
    reveal_strlit("HEAD");
    reveal_strlit("CONNECT");
    reveal_strlit("TRACE");
}

/// The request line of a method and a target.
pub open spec fn request_line(method: Method, uri: Seq<char>) -> Seq<char> {
    method.name() + " "@ + uri + " HTTP/1.1"@
}

/// A target that a request line can hold: it starts with `/` and holds
/// neither a space nor a line feed.
pub open spec fn plain_uri(uri: Seq<char>) -> bool {
    &&& uri.len() > 0
    &&& uri[0] == '/'
    &&& without_char(uri, ' ')
    &&& without_char(uri, '\n')
}

/// A request line reads as its method and its target.
pub proof fn lemma_parse_request_line(method: Method, uri: Seq<char>)
    requires
        plain_uri(uri),
    ensures
        parse_request_line(request_line(method, uri)) == Ok::<
            (Method, Seq<char>),
            ParseRequestErrorKind,
        >((method, uri)),
        without_char(request_line(method, uri), '\n'),
{
    reveal_strlit(" ");
    reveal_strlit(" HTTP/1.1");
    reveal_strlit("HTTP/1.1");
    let line = request_line(method, uri);
    let name = method.name();
    lemma_method_name_is_a_word(method);
    lemma_method_name_round_trip(method);
    let after_name = uri + " HTTP/1.1"@;
    assert(line =~= name + " "@ + after_name);
    lemma_next_word(name, after_name);
    assert(" HTTP/1.1"@ =~= " "@ + "HTTP/1.1"@);
    assert(after_name =~= uri + " "@ + "HTTP/1.1"@);
    lemma_next_word(uri, "HTTP/1.1"@);
    assert forall|i: int| 0 <= i < line.len() implies line[i] != '\n' by {
        let a = name.len() as int;
        let b = a + 1 + uri.len();
        if i < a {
            assert(line[i] == name[i]);
        } else if i == a {
            assert(line[i] == ' ');
        } else if i < b {
            assert(line[i] == uri[i - a - 1]);
        } else {
            assert(line[i] == " HTTP/1.1"@[i - b]);
        }
    }
}

/// The text of a request: the request line, the header lines, an empty line
/// and the body.
pub open spec fn request_text(
    method: Method,
    uri: Seq<char>,
    headers: Seq<(Seq<char>, Seq<char>)>,
    body: Seq<char>,
) -> Seq<char> {
    request_line(method, uri) + "\r\n"@ + header_lines(headers) + "\r\n"@ + body
}

/// The text of a request reads as the method, the target, the headers in
/// their order, and the bytes of the body that it was written from. The body
/// is one line: a body with a line feed in it reads as its lines joined.
pub proof fn lemma_request_round_trip(
    method: Method,
    uri: Seq<char>,
    headers: Seq<(Seq<char>, Seq<char>)>,
    body: Seq<char>,
)
    requires
        plain_uri(uri),
        plain_headers(headers),
        without_char(body, '\n'),
    ensures
        parse_request(request_text(method, uri, headers, body)) == Ok::<
            RequestView,
            ParseRequestErrorKind,
        >(RequestView { method, uri, headers, body: encode_utf8(body) }),
{
    reveal_strlit("\n");
    let text = request_text(method, uri, headers, body);
    let first = request_line(method, uri);
    let blank = Seq::<char>::empty();
    let end = "\r\n"@ + body;
    let after_first = header_lines(headers) + end;
    lemma_parse_request_line(method, uri);
    assert(text =~= first + "\r\n"@ + after_first);
    lemma_lines_after_line(first, after_first);
    assert(line_headers(headers)) by {
        assert forall|i: int| 0 <= i < headers.len() implies line_header(#[trigger] headers[i]) by {
            assert(plain_header(headers[i]));
        }
    }
    lemma_lines_of_header_lines(headers, end);
    assert(end =~= blank + "\r\n"@ + body);
    lemma_lines_after_line(blank, body);
    let body_lines = lines_of(body);
    if body.len() > 0 {
        assert forall|j: int| !occurs_at(body, "\n"@, j) by {
            if occurs_at(body, "\n"@, j) {
                assert(body.subrange(j, j + 1)[0] == body[j]);
            }
        }
        lemma_find_seq_none(body, "\n"@);
        assert(body_lines == seq![body]);
        assert(body_lines.drop_last() =~= Seq::<Seq<char>>::empty());
        assert(body_lines.last() == body);
        assert(body_of(body_lines.drop_last()) =~= Seq::<u8>::empty());
        assert(body_of(body_lines) =~= encode_utf8(body));
    } else {
        assert(body_of(body_lines) =~= encode_utf8(body));
    }
    let lines = lines_of(text);
    assert(lines =~= seq![first] + (header_texts(headers) + (seq![blank] + body_lines)));
    assert(lines[0] == first);
    assert(lines.skip(1) =~= header_texts(headers) + seq![blank] + body_lines);
    lemma_parse_header_texts(headers, body_lines);
    lemma_read_plain_headers(headers);
}

/// The digit that a character writes.
pub open spec fn digit_value(c: char) -> Option<nat> {
    if c == '0' {
        Some(0)
    } else if c == '1' {
        Some(1)
    } else if c == '2' {
        Some(2)
    } else if c == '3' {
        Some(3)
    } else if c == '4' {
        Some(4)
    } else if c == '5' {
        Some(5)
    } else if c == '6' {
        Some(6)
    } else if c == '7' {
        Some(7)
    } else if c == '8' {
        Some(8)
    } else if c == '9' {
        Some(9)
    } else {
        None
    }
}

/// The number that decimal digits write; none for text that is empty or
/// holds anything but digits.
pub open spec fn decimal_value(digits: Seq<char>) -> Option<nat>
    decreases digits.len(),
{
    if digits.len() == 0 {
        None
    } else {
        match digit_value(digits.last()) {
            None => None,
            Some(d) => if digits.len() == 1 {
                Some(d)
            } else {
                match decimal_value(digits.drop_last()) {
                    Some(v) => Some(v * 10 + d),
                    None => None,
                }
            },
        }
    }
}

/// A number written in decimal reads as that number, and its text holds
/// digits only.
pub proof fn lemma_decimal_round_trip(n: nat)
    ensures
        decimal_value(decimal(n)) == Some(n),
        decimal(n).len() > 0,
        forall|i: int| 0 <= i < decimal(n).len() ==> digit_value(#[trigger] decimal(n)[i]) is Some,
    decreases n,
{
    if n >= 10 {
        lemma_decimal_round_trip(n / 10);
        let init = decimal(n / 10);
        let all = decimal(n);
        assert(all.drop_last() =~= init);
        assert(all.last() == digit((n % 10) as int));
        assert forall|i: int| 0 <= i < all.len() implies digit_value(#[trigger] all[i]) is Some by {
            if i < init.len() {
                assert(all[i] == init[i]);
            }
        }
    }
}

/// The status with this number.
pub open spec fn status_with_number(n: nat) -> Option<StatusCode> {
    if n == 200 {
        Some(StatusCode::Okay)
    } else if n == 201 {
        Some(StatusCode::Created)
    } else if n == 400 {
        Some(StatusCode::BadRequest)
    } else if n == 404 {
        Some(StatusCode::NotFound)
    } else if n == 500 {
        Some(StatusCode::InternalServerError)
    } else {
        None
    }
}

/// The status that a status line names: the line is `HTTP/1.1`, a space, the
/// number of the status, a space, and a reason phrase.
pub open spec fn read_status_line(line: Seq<char>) -> Option<StatusCode> {
    match next_word(line) {
        Some((protocol, rest)) if protocol == "HTTP/1.1"@ => match next_word(rest) {
            Some((digits, reason)) => match decimal_value(digits) {
                Some(n) => status_with_number(n),
                None => None,
            },
            None => None,
        },
        _ => None,
    }
}

/// The status and the headers that the head of a response holds.
pub open spec fn read_response_head(text: Seq<char>) -> Option<
    (StatusCode, Seq<(Seq<char>, Seq<char>)>),
> {
    let lines = lines_of(text);
    if lines.len() == 0 {
        None
    } else {
        match (read_status_line(lines[0]), parse_headers(lines.skip(1))) {
            (Some(status), Ok((headers, rest))) => Some((status, headers)),
            _ => None,
        }
    }
}

/// The number that the first `Content-Length` header gives.
pub open spec fn content_length(headers: Seq<(Seq<char>, Seq<char>)>) -> Option<nat> {
    match header_value(headers, "Content-Length"@) {
        Some(value) => decimal_value(value),
        None => None,
    }
}

/// A status line without its line ending.
pub open spec fn status_text(status: StatusCode) -> Seq<char> {
    "HTTP/1.1"@ + " "@ + (decimal(status.number()) + " "@ + status.reason())
}

/// A status line reads as its status.
pub proof fn lemma_read_status_line(status: StatusCode)
    ensures
        status.status_line() == status_text(status) + "\r\n"@,
        read_status_line(status_text(status)) == Some(status),
        without_char(status_text(status), '\n'),
{
    reveal_strlit("HTTP/1.1 ");
    reveal_strlit("HTTP/1.1");
    reveal_strlit(" ");
    reveal_strlit("OK");
    reveal_strlit("Created");
    reveal_strlit("Bad Request");
    reveal_strlit("Not Found");
    reveal_strlit("Internal Server Error");
    let number = decimal(status.number());
    let reason = status.reason();
    let after = number + " "@ + reason;
    let line = status_text(status);
    lemma_decimal_round_trip(status.number());
    assert("HTTP/1.1 "@ =~= "HTTP/1.1"@ + " "@);
    assert(status.status_line() =~= line + "\r\n"@);
    lemma_next_word("HTTP/1.1"@, after);
    assert(without_char(number, ' ')) by {
        assert forall|i: int| 0 <= i < number.len() implies number[i] != ' ' by {
            assert(digit_value(number[i]) is Some);
        }
    }
    lemma_next_word(number, reason);
    assert forall|i: int| 0 <= i < line.len() implies line[i] != '\n' by {
        let a = 9int;
        let b = a + number.len();
        if i < 8 {
            assert(line[i] == "HTTP/1.1"@[i]);
        } else if i == 8 {
            assert(line[i] == ' ');
        } else if i < b {
            assert(line[i] == number[i - a]);
            assert(digit_value(number[i - a]) is Some);
        } else if i == b {
            assert(line[i] == ' ');
        } else {
            assert(line[i] == reason[i - b - 1]);
        }
    }
}

/// A header that is added after headers of other names is the first of its
/// name.
pub proof fn lemma_header_value_of_last(
    headers: Seq<(Seq<char>, Seq<char>)>,
    name: Seq<char>,
    value: Seq<char>,
)
    requires
        forall|i: int| 0 <= i < headers.len() ==> (#[trigger] headers[i]).0 != name,
    ensures
        header_value(headers.push((name, value)), name) == Some(value),
    decreases headers.len(),
{
    let all = headers.push((name, value));
    if headers.len() > 0 {
        assert(all[0] == headers[0]);
        assert(all.skip(1) =~= headers.skip(1).push((name, value)));
        assert forall|i: int| 0 <= i < headers.skip(1).len() implies (#[trigger] headers.skip(
            1,
        )[i]).0 != name by {
            assert(headers.skip(1)[i] == headers[i + 1]);
        }
        lemma_header_value_of_last(headers.skip(1), name, value);
    }
}

/// The bytes of two texts, one after the other, are the bytes of the texts
/// joined.
pub proof fn lemma_encode_joined(a: Seq<char>, b: Seq<char>)
    ensures
        encode_utf8(a + b) == encode_utf8(a) + encode_utf8(b),
    decreases a.len(),
{
    if a.len() == 0 {
        assert(a + b =~= b);
        assert(encode_utf8(a) + encode_utf8(b) =~= encode_utf8(b));
    } else {
        lemma_encode_joined(a.drop_first(), b);
        assert((a + b).drop_first() =~= a.drop_first() + b);
        assert((a + b)[0] == a[0]);
        assert(encode_utf8(a + b) =~= encode_utf8(a) + encode_utf8(b));
    }
}

/// The header lines on the wire are the bytes of the header lines as text.
pub proof fn lemma_headers_bytes(headers: Seq<(Seq<char>, Seq<char>)>)
    ensures
        headers_bytes(headers) == encode_utf8(header_lines(headers)),
    decreases headers.len(),
{
    if headers.len() > 0 {
        let last = headers.last();
        lemma_headers_bytes(headers.drop_last());
        lemma_encode_joined(last.0, ": "@);
        lemma_encode_joined(last.0 + ": "@, last.1);
        lemma_encode_joined(last.0 + ": "@ + last.1, "\r\n"@);
        lemma_encode_joined(header_lines(headers.drop_last()), header_line(last));
    }
}

/// The head of a response on the wire is the bytes of its head as text.
pub proof fn lemma_wire_head_is_text(response: ResponseView)
    ensures
        response.wire_head() == encode_utf8(response.text_head()),
        valid_utf8(response.wire_head()),
        decode_utf8(response.wire_head()) == response.text_head(),
{
    let line = response.status_code.status_line();
    lemma_headers_bytes(response.headers);
    lemma_encode_joined(line, header_lines(response.headers));
    lemma_encode_joined(line + header_lines(response.headers), "\r\n"@);
    encode_utf8_valid_utf8(response.text_head());
    encode_utf8_decode_utf8(response.text_head());
}

/// The `Content-Length` header that a builder adds can stand in a header
/// line.
pub proof fn lemma_length_header_is_plain(n: nat)
    ensures
        plain_header(("Content-Length"@, decimal(n))),
{
    reveal_strlit("Content-Length");
    reveal_strlit(": ");
    let name = "Content-Length"@;
    let number = decimal(n);
    lemma_decimal_round_trip(n);
    assert forall|i: int| 0 <= i < number.len() implies number[i] != '\n' by {
        assert(digit_value(number[i]) is Some);
    }
    assert forall|j: int| !occurs_at(name, ": "@, j) by {
        if occurs_at(name, ": "@, j) {
            let found = name.subrange(j, j + 2);
            assert(found[1] == name[j + 1]);
            assert(name[j + 1] == ' ');
        }
    }
    lemma_find_seq_none(name, ": "@);
}

/// The head of a response reads as its status and one header for each of
/// its header lines, where each header fills one line.
pub proof fn lemma_read_response_head(response: ResponseView)
    requires
        line_headers(response.headers),
    ensures
        read_response_head(response.text_head()) == Some(
            (response.status_code, read_headers(response.headers)),
        ),
{
    let status = response.status_code;
    let blank = Seq::<char>::empty();
    let end = "\r\n"@;
    let after_first = header_lines(response.headers) + end;
    lemma_read_status_line(status);
    assert(response.text_head() =~= status_text(status) + "\r\n"@ + after_first);
    lemma_lines_after_line(status_text(status), after_first);
    lemma_lines_of_header_lines(response.headers, end);
    assert(end =~= blank + "\r\n"@ + blank);
    lemma_lines_after_line(blank, blank);
    let none = Seq::<Seq<char>>::empty();
    let lines = lines_of(response.text_head());
    assert(lines =~= seq![status_text(status)] + (header_texts(response.headers) + seq![blank]));
    assert(lines[0] == status_text(status));
    assert(lines.skip(1) =~= header_texts(response.headers) + seq![blank] + none);
    lemma_parse_header_texts(response.headers, none);
}

/// A response with a body and a length header goes over the wire as its head
/// and then the body. The head reads back as the status of the response and
/// the headers of its header lines, and the length that these headers give
/// is the number of bytes that follow the head. Each header of the builder
/// must fill one line, and none of the lines may read as a `Content-Length`
/// header.
pub proof fn lemma_response_round_trip(builder: BuilderView<StatusCode>, sent: Seq<u8>)
    requires
        builder.set_content_length,
        line_headers(builder.headers),
        forall|i: int|
            0 <= i < builder.headers.len() ==> read_header(#[trigger] builder.headers[i]).0
                != "Content-Length"@,
    ensures
        ({
            let response = builder.finished(Some(sent));
            &&& response.wire() == response.wire_head() + sent
            &&& response.wire().len() - response.wire_head().len() == sent.len()
            &&& read_response_head(decode_utf8(response.wire_head())) == Some(
                (builder.status_code, read_headers(response.headers)),
            )
            &&& content_length(read_headers(response.headers)) == Some(sent.len())
        }),
{
    let response = builder.finished(Some(sent));
    let length = ("Content-Length"@, decimal(sent.len()));
    lemma_length_header_is_plain(sent.len());
    assert(line_headers(response.headers)) by {
        assert forall|i: int| 0 <= i < response.headers.len() implies line_header(
            #[trigger] response.headers[i],
        ) by {
            if i < builder.headers.len() {
                assert(response.headers[i] == builder.headers[i]);
                assert(line_header(builder.headers[i]));
            }
        }
    }
    lemma_wire_head_is_text(response);
    lemma_read_response_head(response);
    lemma_split_header_text(length);
    let read = read_headers(builder.headers);
    assert(read_headers(response.headers) =~= read.push(length));
    assert forall|i: int| 0 <= i < read.len() implies (#[trigger] read[i]).0
        != "Content-Length"@ by {
        assert(read[i] == read_header(builder.headers[i]));
    }
    lemma_header_value_of_last(read, "Content-Length"@, decimal(sent.len()));
    lemma_decimal_round_trip(sent.len());
}

/// A response with a body and a length header whose headers are plain: its
/// head reads back as its status and its headers, and the `Content-Length`
/// header among them gives the number of bytes of the body.
pub proof fn lemma_plain_response_round_trip(builder: BuilderView<StatusCode>, sent: Seq<u8>)
    requires
        builder.set_content_length,
        no_length_header(builder.headers),
        plain_headers(builder.headers),
    ensures
        ({
            let response = builder.finished(Some(sent));
            &&& response.wire() == response.wire_head() + sent
            &&& read_response_head(decode_utf8(response.wire_head())) == Some(
                (builder.status_code, response.headers),
            )
            &&& content_length(response.headers) == Some(sent.len())
        }),
{
    let response = builder.finished(Some(sent));
    lemma_length_header_is_plain(sent.len());
    assert(plain_headers(response.headers)) by {
        assert forall|i: int| 0 <= i < response.headers.len() implies plain_header(
            #[trigger] response.headers[i],
        ) by {
            if i < builder.headers.len() {
                assert(response.headers[i] == builder.headers[i]);
            }
        }
    }
    lemma_read_plain_headers(builder.headers);
    lemma_read_plain_headers(response.headers);
    assert(line_headers(builder.headers)) by {
        assert forall|i: int| 0 <= i < builder.headers.len() implies line_header(
            #[trigger] builder.headers[i],
        ) by {
            assert(plain_header(builder.headers[i]));
        }
    }
    assert forall|i: int| 0 <= i < builder.headers.len() implies read_header(
        #[trigger] builder.headers[i],
    ).0 != "Content-Length"@ by {
        assert(read_headers(builder.headers)[i] == read_header(builder.headers[i]));
        assert(settable(builder.headers[i]));
    }
    lemma_response_round_trip(builder, sent);
}

/// What `lemma_response_round_trip` says, of the response that a builder
/// with a body stands for.
pub proof fn lemma_built_response_round_trip(builder: BuilderView<StatusCode>)
    requires
        builder.set_content_length,
        builder.body is Some,
        builder.encodable(),
        line_headers(builder.headers),
        forall|i: int|
            0 <= i < builder.headers.len() ==> read_header(#[trigger] builder.headers[i]).0
                != "Content-Length"@,
    ensures
        builder.built().body is Some,
        builder.built().wire() == builder.built().wire_head() + builder.built().body->0,
        read_response_head(decode_utf8(builder.built().wire_head())) == Some(
            (builder.status_code, read_headers(builder.built().headers)),
        ),
        content_length(read_headers(builder.built().headers)) == Some(
            builder.built().body->0.len(),
        ),
{
    lemma_response_round_trip(builder, builder.sent_body()->0);
}

} // verus!
