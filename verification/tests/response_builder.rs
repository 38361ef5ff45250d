use std::io::Read;

use flate2::read::GzDecoder;
use http_server::response_builder::ResponseBuilder;
use http_server::status_code::StatusCode;

#[test]
fn test_response_builder_default() {
    let response = ResponseBuilder::default().build();

    assert_eq!(
        response.status_code,
        StatusCode::Okay,
        "Status code should be 200 OK"
    );
    assert_eq!(
        response.headers,
        vec![("Content-Length".to_string(), "0".to_string())],
        "Headers should contain Content-Length: 0"
    );
    assert!(response.body.is_none(), "No body should be set");
    assert_eq!(
        response.to_string(),
        "HTTP/1.1 200 OK\r\nContent-Length: 0\r\n\r\n",
        "Response string should be 200 OK"
    );
}

#[test]
fn test_response_builder_ok() {
    let response = ResponseBuilder::ok().build();
    assert_eq!(
        response.status_code,
        StatusCode::Okay,
        "Status code should be 200 OK"
    );
}

#[test]
fn test_response_builder_not_found() {
    let response = ResponseBuilder::not_found().build();
    assert_eq!(
        response.status_code,
        StatusCode::NotFound,
        "Status code should be 404 Not Found"
    );
}

#[test]
fn test_response_builder_bad_request() {
    let response = ResponseBuilder::bad_request().build();
    assert_eq!(
        response.status_code,
        StatusCode::BadRequest,
        "Status code should be 400 Bad Request"
    );
}

#[test]
fn test_response_builder_internal_server_error() {
    let response = ResponseBuilder::internal_server_error().build();
    assert_eq!(
        response.status_code,
        StatusCode::InternalServerError,
        "Status code should be 500 Internal Server Error"
    );
}

#[test]
fn test_without_content_length_header() {
    let response = ResponseBuilder::ok()
        .without_content_length_header()
        .build();

    assert_eq!(
        response.headers,
        vec![],
        "No headers should be set when the `without_content_length_header` method is called"
    );

    let response = ResponseBuilder::ok().build();

    assert_eq!(
        response.headers,
        vec![("Content-Length".to_string(), "0".to_string())],
        "Headers should contain Content-Length: 0"
    );

    // Manually set Content-Length header and then call without_content_length_header
    let response = ResponseBuilder::ok()
        .with(("Content-Length", "0"))
        .without_content_length_header()
        .build();

    assert_eq!(response.headers.len(), 0, "No headers should be set");
    assert_eq!(response.headers, vec![], "No headers should be set");
}

#[test]
fn test_response_builder_with() {
    // Set a single header
    let response = ResponseBuilder::ok()
        .with(("Content-Type", "text/html"))
        .without_content_length_header()
        .build();

    let headers = vec![("Content-Type".to_string(), "text/html".to_string())];

    assert_eq!(response.headers.len(), 1, "One header should be set");
    assert_eq!(
        response.headers, headers,
        "Headers should contain Content-Type: text/html only"
    );

    // Set multiple headers at once
    let response = ResponseBuilder::ok()
        .with(vec![("Content-Type", "text/html"), ("X-Custom", "value")])
        .build();

    let headers = vec![
        ("Content-Type".to_string(), "text/html".to_string()),
        ("X-Custom".to_string(), "value".to_string()),
        ("Content-Length".to_string(), "0".to_string()),
    ];

    assert_eq!(response.headers.len(), 3, "Three headers should be set");
    assert_eq!(
        response.headers, headers,
        "Headers should contain Content-Type: text/html, X-Custom: value, and Content-Length: 4"
    );
}

#[test]
fn test_response_builder_body() {
    let body = "Hello, world!";
    let response = ResponseBuilder::ok().body(body).build();
    assert_eq!(
        response.body.unwrap(),
        body.as_bytes().to_vec(),
        "Body should be set to the given value"
    );
}

#[test]
fn builder_keeps_the_order_of_headers() {
    let response = ResponseBuilder::ok()
        .with(("Content-Type", "text/plain"))
        .with(vec![("X-Custom-Header", "value"), ("Keep-Alive", "timeout=5, max=1000")])
        .build();

    let expected_headers = vec![
        ("Content-Type".to_string(), "text/plain".to_string()),
        ("X-Custom-Header".to_string(), "value".to_string()),
        ("Keep-Alive".to_string(), "timeout=5, max=1000".to_string()),
        ("Content-Length".to_string(), "0".to_string()),
    ];

    let response_string = "HTTP/1.1 200 OK\r\nContent-Type: text/plain\r\nX-Custom-Header: value\r\nKeep-Alive: timeout=5, max=1000\r\nContent-Length: 0\r\n\r\n";

    assert_eq!(response.headers.len(), expected_headers.len());
    assert_eq!(response.headers, expected_headers);
    assert_eq!(response.to_string(), response_string);
}

#[test]
fn builder_drops_length_headers_from_lists() {
    let response = ResponseBuilder::ok()
        .with(vec![("Content-Length", "99"), ("A", "1"), ("Content-Length", "7"), ("B", "2")])
        .headers(vec![("Content-Length".to_string(), "5".to_string()), ("C".to_string(), "3".to_string())])
        .header("Content-Length", "1")
        .header("content-length", "kept")
        .body("abc")
        .build();
    let expected = vec![
        ("A".to_string(), "1".to_string()),
        ("B".to_string(), "2".to_string()),
        ("C".to_string(), "3".to_string()),
        ("content-length".to_string(), "kept".to_string()),
        ("Content-Length".to_string(), "3".to_string()),
    ];
    assert_eq!(response.headers, expected);
}

#[test]
fn suppression_holds_after_any_number_of_length_headers() {
    let mut builder = ResponseBuilder::not_found();
    for n in 0..5 {
        builder = builder.with(("Content-Length", "12"));
        builder = builder.with(vec![("Content-Length".to_string(), n.to_string())]);
    }
    let response = builder.without_content_length_header().body("x").build();
    assert!(response.headers.is_empty());
    assert_eq!(response.body, Some(b"x".to_vec()));
}

#[test]
fn suppression_holds_for_a_body() {
    let response = ResponseBuilder::ok().body("Hello").without_content_length_header().build();
    assert_eq!(response.headers, vec![]);
    assert_eq!(response.to_bytes_vec(), b"HTTP/1.1 200 OK\r\n\r\nHello".to_vec());
}

#[test]
fn an_empty_body_is_not_a_missing_body() {
    let response = ResponseBuilder::ok().body(Vec::new()).build();
    assert_eq!(response.body, Some(Vec::new()));
    assert_eq!(response.headers, vec![("Content-Length".to_string(), "0".to_string())]);
    let response = ResponseBuilder::ok().build();
    assert_eq!(response.body, None);
}

#[test]
fn a_status_can_be_chosen_later() {
    let response = ResponseBuilder::new()
        .with(("A", "b"))
        .body("xy")
        .with_status_code(StatusCode::Created)
        .build();
    assert_eq!(response.status_code, StatusCode::Created);
    assert_eq!(
        response.headers,
        vec![("A".to_string(), "b".to_string()), ("Content-Length".to_string(), "2".to_string())]
    );
    assert_eq!(response.body, Some(b"xy".to_vec()));
    assert_eq!(ResponseBuilder::with_status(StatusCode::Created).build().status_code, StatusCode::Created);
}

#[test]
fn a_clone_builds_the_same_response() {
    let builder = ResponseBuilder::ok().with(("A", "b")).body("xy");
    let copy = builder.clone();
    assert_eq!(builder.build(), copy.build());
}

#[test]
fn gzip_encodes_the_body_and_counts_the_encoded_bytes() {
    let text = "Hello World, Hello World, Hello World, Hello World";
    let response = ResponseBuilder::ok()
        .with(("Content-Encoding", "gzip"))
        .body(text)
        .build();
    let body = response.body.clone().unwrap();
    assert_ne!(body, text.as_bytes().to_vec());
    assert_eq!(&body[..3], &[0x1f, 0x8b, 8]);
    assert_eq!(
        response.headers,
        vec![
            ("Content-Encoding".to_string(), "gzip".to_string()),
            ("Content-Length".to_string(), body.len().to_string()),
        ]
    );
    let mut decoded = String::new();
    GzDecoder::new(&body[..]).read_to_string(&mut decoded).unwrap();
    assert_eq!(decoded, text);
}

#[test]
fn gzip_gives_the_same_stream_each_time() {
    let first = ResponseBuilder::ok().with(("Content-Encoding", "gzip")).body("abcabcabc").build();
    let second = ResponseBuilder::ok().with(("Content-Encoding", "gzip")).body("abcabcabc").build();
    assert_eq!(first.body, second.body);
    let tried = ResponseBuilder::ok().with(("Content-Encoding", "gzip")).body("abcabcabc").try_build();
    assert_eq!(tried.unwrap(), first);
}

#[test]
fn gzip_without_a_body_does_nothing() {
    let response = ResponseBuilder::ok().with(("Content-Encoding", "gzip")).build();
    assert_eq!(response.body, None);
    assert_eq!(
        response.headers,
        vec![
            ("Content-Encoding".to_string(), "gzip".to_string()),
            ("Content-Length".to_string(), "0".to_string()),
        ]
    );
}

#[test]
fn another_encoding_leaves_the_body() {
    let response = ResponseBuilder::ok().with(("Content-Encoding", "br")).body("abc").build();
    assert_eq!(response.body, Some(b"abc".to_vec()));
    let response = ResponseBuilder::ok().with(("content-encoding", "gzip")).body("abc").build();
    assert_eq!(response.body, Some(b"abc".to_vec()));
}

#[test]
fn finish_takes_the_body_to_send() {
    let response = ResponseBuilder::ok().with(("A", "b")).body("ignored").finish(Some(vec![1, 2, 3, 4]));
    assert_eq!(response.body, Some(vec![1, 2, 3, 4]));
    assert_eq!(
        response.headers,
        vec![("A".to_string(), "b".to_string()), ("Content-Length".to_string(), "4".to_string())]
    );
    let response = ResponseBuilder::ok().without_content_length_header().finish(None);
    assert_eq!(response.body, None);
    assert!(response.headers.is_empty());
}
