use http_server::error::{ParseRequestError, ParseRequestErrorKind};
use http_server::method::Method;
use http_server::request::{get_next_request_line, get_next_word, lines, parse_header, Request};

#[test]
fn test_get_next_word() {
    assert_eq!(
        get_next_word("GET / HTTP/1.1"),
        Some(("GET", "/ HTTP/1.1")),
        "String slice incremental parsing"
    );
    assert_eq!(
        get_next_word("GET /"),
        Some(("GET", "/")),
        "String slice incremental parsing"
    );
    assert_eq!(
        get_next_word("GET"),
        Some(("GET", "")),
        "String slice incremental parsing"
    );
    assert_eq!(
        get_next_word(""),
        None,
        "String slice incremental parsing termiantion"
    );
}

#[test]
fn test_get_next_request_line() {
    let request = "GET / HTTP/1.1\r\n";
    let line = "GET / HTTP/1.1";
    let (req, rest) = get_next_request_line(request).unwrap();
    let mut lines = rest.into_iter();
    assert_eq!(req, line, "First line of the request");
    assert!(lines.next().is_none(), "No more lines");

    let request = "GET /\r\nHost: localhost:8080\r\n\r\n";
    let line = "GET /";
    let (req, rest) = get_next_request_line(request).unwrap();
    let mut lines = rest.into_iter();
    assert_eq!(req, line, "First line of the request");
    assert_eq!(
        lines.next().unwrap(),
        "Host: localhost:8080",
        "Second line of the request"
    );
    assert_eq!(lines.next().unwrap(), "", "Third line of the request");
    assert!(lines.next().is_none(), "No more lines");

    let request = "GET";
    let line = "GET";
    let (req, rest) = get_next_request_line(request).unwrap();
    let mut lines = rest.into_iter();
    assert_eq!(req, line, "First line of the request");
    assert!(lines.next().is_none(), "No more lines");

    let request = "";
    let err = get_next_request_line(request).unwrap_err();
    let err_kind = ParseRequestErrorKind::InvalidRequest;
    assert_eq!(err.kind, err_kind, "Empty request");
}

#[test]
fn test_try_from_request() {
    let request =
        Request::try_from("POST / HTTP/1.1\r\nHost: localhost:4221\r\nUser-Agent: curl/8.6.0\r\nAccept: */*\r\nContent-Type: application/json\r\nContent-Length: 11\r\n\r\nHello world").unwrap();
    assert_eq!(request.method, Method::Post, "Method");
    assert_eq!(request.uri, "/".to_owned(), "URI");
    assert!(request.headers.len() == 5, "Headers");

    let header_0 = ("Host".to_owned(), "localhost:4221".to_owned());
    let header_1 = ("User-Agent".to_owned(), "curl/8.6.0".to_owned());
    let header_2 = ("Accept".to_owned(), "*/*".to_owned());
    let header_3 = ("Content-Type".to_owned(), "application/json".to_owned());
    let header_4 = ("Content-Length".to_owned(), "11".to_owned());

    assert_eq!(
        request.headers[0], header_0,
        "Host header with the value localhost:4221"
    );
    assert_eq!(
        request.headers[1], header_1,
        "User-Agent header with the value curl/8.6.0"
    );
    assert_eq!(
        request.headers[2], header_2,
        "Accept header with the value */*"
    );
    assert_eq!(
        request.headers[3], header_3,
        "Content-Type header with the value application/json"
    );
    assert_eq!(
        request.headers[4], header_4,
        "Content-Length header with the value 11"
    );
    assert_eq!(request.body, b"Hello world", "Request body");

    let request = Request::try_from("POST /abc/def HTTP/1.1\r\n\r\n").unwrap();
    assert_eq!(request.method, Method::Post, "Method");
    assert_eq!(request.uri, "/abc/def", "URI");
    assert!(request.headers.is_empty(), "Headers are empty");
    assert!(request.body.is_empty(), "Request body is empty");

    let request = Request::try_from("GET / HTTP/1.0\r\n\r\n");
    let err_kind = ParseRequestErrorKind::InvalidProtocol;
    assert_eq!(
        request.unwrap_err().kind,
        err_kind,
        "Invalid protocol error"
    );

    let request = Request::try_from("GET abc HTTP/1.0\r\n\r\n");
    let err_kind = ParseRequestErrorKind::InvalidRequest;
    assert_eq!(request.unwrap_err().kind, err_kind, "Invalid request error");

    let request = Request::try_from("GETT / HTTP/1.1\r\n\r\n");
    let err_kind = ParseRequestErrorKind::InvalidMethod;
    assert_eq!(request.unwrap_err().kind, err_kind, "Invalid method error");

    let request = Request::try_from("GET HTTP/1.1\r\n\r\n");
    let err_kind = ParseRequestErrorKind::InvalidRequest;
    assert_eq!(request.unwrap_err().kind, err_kind, "Invalid request error");
}

#[test]
fn test_parse_header() {
    let arg = "Host: localhost:4221";
    let expected = Some(("Host", "localhost:4221"));
    assert_eq!(parse_header(arg), expected, "Host header");

    let arg = "User-Agent: curl/8.6.0";
    let expected = Some(("User-Agent", "curl/8.6.0"));
    assert_eq!(parse_header(arg), expected, "User-Agent header");

    let arg = "Accept: */*";
    let expected = Some(("Accept", "*/*"));
    assert_eq!(parse_header(arg), expected, "Accept header");

    let arg = "Content-Type: application/json";
    let expected = Some(("Content-Type", "application/json"));
    assert_eq!(parse_header(arg), expected, "Content-Type header");

    let arg = "Content-Length: 11";
    let expected = Some(("Content-Length", "11"));
    assert_eq!(parse_header(arg), expected, "Content-Length header");
}

#[test]
fn parse_header_splits_at_the_first_separator() {
    assert_eq!(parse_header("a: b: c"), Some(("a", "b: c")));
    assert_eq!(parse_header(": x"), Some(("", "x")));
    assert_eq!(parse_header("Host:localhost"), None);
    assert_eq!(parse_header(""), None);
}

#[test]
fn next_word_handles_text_beyond_ascii() {
    assert_eq!(get_next_word("h\u{e9}llo w\u{f6}rld"), Some(("h\u{e9}llo", "w\u{f6}rld")));
    assert_eq!(get_next_word(" x"), Some(("", "x")));
    assert_eq!(get_next_word("a  b"), Some(("a", " b")));
}

#[test]
fn lines_follow_the_line_endings() {
    assert_eq!(lines(""), Vec::<&str>::new());
    assert_eq!(lines("a"), vec!["a"]);
    assert_eq!(lines("a\n"), vec!["a"]);
    assert_eq!(lines("a\r\n"), vec!["a"]);
    assert_eq!(lines("\n"), vec![""]);
    assert_eq!(lines("a\n\nb"), vec!["a", "", "b"]);
    assert_eq!(lines("a\r\n\r\nb\r\n"), vec!["a", "", "b"]);
    assert_eq!(lines("a\rb\n"), vec!["a\rb"]);
    assert_eq!(lines("a\r"), vec!["a\r"]);
    assert_eq!(lines("a\r\r\n"), vec!["a\r"]);
}

#[test]
fn lines_agree_with_the_standard_library() {
    let texts = [
        "",
        "GET / HTTP/1.1\r\nHost: x\r\n\r\nbody",
        "\r\n\r\n",
        "one\ntwo\r\nthree\r",
        "\n\n\n",
        "caf\u{e9}\r\n\u{1f600}\n",
    ];
    for text in texts {
        let expected: Vec<&str> = text.lines().collect();
        assert_eq!(lines(text), expected);
    }
}

#[test]
fn a_header_line_without_separator_is_rejected() {
    let request = Request::try_from("GET / HTTP/1.1\r\nHost localhost\r\n\r\n");
    assert_eq!(request.unwrap_err().kind, ParseRequestErrorKind::InvalidRequest);
}

#[test]
fn an_empty_text_is_rejected() {
    assert_eq!(Request::try_from("").unwrap_err().kind, ParseRequestErrorKind::InvalidRequest);
    assert_eq!(Request::try_from("\r\n").unwrap_err().kind, ParseRequestErrorKind::InvalidRequest);
    assert_eq!(Request::try_from("GET").unwrap_err().kind, ParseRequestErrorKind::InvalidRequest);
    assert_eq!(Request::try_from("GET /").unwrap_err().kind, ParseRequestErrorKind::InvalidRequest);
}

#[test]
fn the_method_is_matched_exactly() {
    assert_eq!(Request::try_from("get / HTTP/1.1\r\n\r\n").unwrap_err().kind, ParseRequestErrorKind::InvalidMethod);
    assert_eq!(Request::try_from(" GET / HTTP/1.1\r\n\r\n").unwrap_err().kind, ParseRequestErrorKind::InvalidMethod);
    let names = ["GET", "POST", "PUT", "DELETE", "PATCH", "OPTIONS", "HEAD", "CONNECT", "TRACE"];
    let methods = [
        Method::Get,
        Method::Post,
        Method::Put,
        Method::Delete,
        Method::Patch,
        Method::Options,
        Method::Head,
        Method::Connect,
        Method::Trace,
    ];
    for (name, method) in names.iter().zip(methods) {
        assert_eq!(Method::from_str(name), Ok(method));
        assert_eq!(method.as_str(), *name);
        assert_eq!(method.to_string(), *name);
        let text = format!("{} /x HTTP/1.1\r\n\r\n", name);
        assert_eq!(Request::try_from(text.as_str()).unwrap().method, method);
    }
    assert!(Method::from_str("").is_err());
    assert!(Method::from_str("GETT").is_err());
}

#[test]
fn the_protocol_is_matched_exactly() {
    assert_eq!(Request::try_from("GET / HTTP/1.1 \r\n\r\n").unwrap_err().kind, ParseRequestErrorKind::InvalidProtocol);
    assert_eq!(Request::try_from("GET / http/1.1\r\n\r\n").unwrap_err().kind, ParseRequestErrorKind::InvalidProtocol);
    assert_eq!(Request::try_from("GET / \r\n\r\n").unwrap_err().kind, ParseRequestErrorKind::InvalidRequest);
    assert_eq!(Request::try_from("GET /\r\n\r\n").unwrap_err().kind, ParseRequestErrorKind::InvalidRequest);
}

#[test]
fn the_body_is_the_remaining_lines_joined() {
    let request = Request::try_from("POST /f HTTP/1.1\r\n\r\none\r\ntwo\nthree").unwrap();
    assert_eq!(request.body, b"onetwothree");
    let request = Request::try_from("POST /f HTTP/1.1\r\nA: b").unwrap();
    assert_eq!(request.headers, vec![("A".to_string(), "b".to_string())]);
    assert!(request.body.is_empty());
    let request = Request::try_from("POST /f HTTP/1.1\r\n\r\ncaf\u{e9}").unwrap();
    assert_eq!(request.body, "caf\u{e9}".as_bytes());
}

#[test]
fn headers_keep_order_and_duplicates() {
    let request = Request::try_from("GET / HTTP/1.1\r\nb: 1\r\na: 2\r\nb: 3\r\n\r\n").unwrap();
    let expected = vec![
        ("b".to_string(), "1".to_string()),
        ("a".to_string(), "2".to_string()),
        ("b".to_string(), "3".to_string()),
    ];
    assert_eq!(request.headers, expected);
}

#[test]
fn bytes_that_are_not_text_are_an_encoding_error() {
    let err = Request::from_bytes(&[b'G', b'E', b'T', b' ', 0xff, 0xfe]).unwrap_err();
    assert_eq!(err.kind, ParseRequestErrorKind::EncodingError);
    assert_eq!(err.message(), "Invalid Request Encoding");
    let request = Request::from_bytes(b"GET /caf\xc3\xa9 HTTP/1.1\r\n\r\n").unwrap();
    assert_eq!(request.uri, "/caf\u{e9}");
    assert_eq!(request.method, Method::Get);
}

#[test]
fn error_messages() {
    let kinds = [
        (ParseRequestErrorKind::InvalidRequest, "Invalid Request"),
        (ParseRequestErrorKind::EncodingError, "Invalid Request Encoding"),
        (ParseRequestErrorKind::InvalidMethod, "Invalid Request Method"),
        (ParseRequestErrorKind::InvalidProtocol, "Invalid Request Protocol"),
        (ParseRequestErrorKind::NetworkError, "Network I/O Error"),
    ];
    for (kind, text) in kinds {
        let e = ParseRequestError { kind };
        assert_eq!(e.message(), text);
        assert_eq!(e.to_string(), format!("Request parsing error: {}", text));
    }
}

#[test]
fn a_written_request_reads_back() {
    let methods = [Method::Get, Method::Post, Method::Delete, Method::Trace];
    let uris = ["/", "/a/b?c=d", "/caf\u{e9}\r", "/:"];
    let header_lists: [Vec<(&str, &str)>; 4] = [
        vec![],
        vec![("Host", "localhost:4221")],
        vec![("A", "1"), ("A", "2: 3"), ("", ""), ("b:", " c\r")],
        vec![("Content-Length", "11"), ("X", "\u{1f600}")],
    ];
    let bodies = ["", "Hello world", "a\rb\r", "\u{e9}"];
    for method in methods {
        for uri in uris {
            for headers in &header_lists {
                for body in bodies {
                    let mut text = format!("{} {} HTTP/1.1\r\n", method.as_str(), uri);
                    for (name, value) in headers {
                        text.push_str(&format!("{}: {}\r\n", name, value));
                    }
                    text.push_str("\r\n");
                    text.push_str(body);
                    let request = Request::try_from(text.as_str()).unwrap();
                    assert_eq!(request.method, method);
                    assert_eq!(request.uri, uri);
                    let expected: Vec<(String, String)> =
                        headers.iter().map(|(n, v)| (n.to_string(), v.to_string())).collect();
                    assert_eq!(request.headers, expected);
                    assert_eq!(request.body, body.as_bytes());
                    let again = Request::from_bytes(text.as_bytes()).unwrap();
                    assert_eq!(again.uri, uri);
                    assert_eq!(again.body, body.as_bytes());
                }
            }
        }
    }
}

#[test]
fn a_body_with_line_feeds_is_joined() {
    let request = Request::try_from("POST /f HTTP/1.1\r\nContent-Length: 3\r\n\r\na\nb").unwrap();
    assert_eq!(request.body, b"ab");
}
