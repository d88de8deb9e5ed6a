use ziliwebka::http::resolve_reason_phrase;
use ziliwebka::http::Response;

#[test]
fn test_to_bytes_response() {
    let mut response = Response::new();
    response.set_code(200);
    response.add_header("Host".to_string(), "0.0.0.0:7878".to_string());
    let vector = Vec::from("HTTP/1.1 200 OK\r\nhost: 0.0.0.0:7878\r\n".as_bytes());
    assert_eq!(response.to_bytes(), vector);
}

#[test]
fn response_with_length_and_body_round_trips() {
    let mut response = Response::new();
    response.set_code(200);
    response.add_header("content-length".to_string(), "5".to_string());
    response.set_body(b"hello".to_vec());
    assert_eq!(
        response.to_bytes(),
        b"HTTP/1.1 200 OK\r\ncontent-length: 5\r\n\r\nhello".to_vec()
    );
}

#[test]
fn new_response_has_code_zero_and_no_phrase() {
    let response = Response::new();
    assert_eq!(response.code(), 0);
    assert_eq!(response.to_bytes(), b"HTTP/1.1 0 \r\n".to_vec());
}

#[test]
fn blank_line_is_written_only_before_a_body() {
    let mut response = Response::new();
    response.set_code(404);
    assert_eq!(response.to_bytes(), b"HTTP/1.1 404 Not Found\r\n".to_vec());
    let mut response = Response::new();
    response.set_code(404);
    response.set_body(vec![0]);
    assert_eq!(
        response.to_bytes(),
        b"HTTP/1.1 404 Not Found\r\n\r\n\0".to_vec()
    );
}

#[test]
fn headers_are_written_in_the_order_of_their_names() {
    let mut response = Response::new();
    response.set_code(500);
    response.add_header("B".to_string(), "2".to_string());
    response.add_header("A".to_string(), "1".to_string());
    response.add_header("b".to_string(), "3".to_string());
    assert_eq!(
        response.to_bytes(),
        b"HTTP/1.1 500 Internal Server Error\r\nb: 3\r\na: 1\r\n".to_vec()
    );
}

#[test]
fn removed_header_is_not_written() {
    let mut response = Response::new();
    response.set_code(204);
    response.add_header("Content-Type".to_string(), "text/html".to_string());
    response.add_header("Server".to_string(), "z".to_string());
    response.remove_header(&"CONTENT-TYPE".to_string());
    assert_eq!(response.header("content-type"), None);
    assert_eq!(response.header("SERVER"), Some(&"z".to_string()));
    assert_eq!(
        response.to_bytes(),
        b"HTTP/1.1 204 No Content\r\nserver: z\r\n".to_vec()
    );
}

#[test]
fn body_is_replaced_and_appended() {
    let mut response = Response::new();
    response.set_code(200);
    response.set_body(b"abc".to_vec());
    response.set_body(b"he".to_vec());
    response.append_body(b"llo".to_vec());
    response.append_body(Vec::new());
    assert_eq!(response.body(), &b"hello".to_vec());
    assert_eq!(response.to_bytes(), b"HTTP/1.1 200 OK\r\n\r\nhello".to_vec());
}

#[test]
fn length_header_is_never_derived() {
    let mut response = Response::new();
    response.set_code(200);
    response.set_body(b"hello".to_vec());
    assert_eq!(response.header("content-length"), None);
}

#[test]
fn unknown_codes_have_an_empty_phrase() {
    assert_eq!(resolve_reason_phrase(&0), "");
    assert_eq!(resolve_reason_phrase(&99), "");
    assert_eq!(resolve_reason_phrase(&306), "");
    assert_eq!(resolve_reason_phrase(&418), "");
    assert_eq!(resolve_reason_phrase(&506), "");
    let mut response = Response::new();
    response.set_code(12345);
    assert_eq!(response.to_bytes(), b"HTTP/1.1 12345 \r\n".to_vec());
}

#[test]
fn standard_codes_have_their_phrase() {
    let table: Vec<(usize, &str)> = vec![
        (100, "Continue"),
        (101, "Switching Protocols"),
        (200, "OK"),
        (201, "Created"),
        (202, "Accepted"),
        (203, "Non-Authoritative Information"),
        (204, "No Content"),
        (205, "Reset Content"),
        (206, "Partial Content"),
        (300, "Multiple Choices"),
        (301, "Moved Permanently"),
        (302, "Found"),
        (303, "See Other"),
        (304, "Not Modified"),
        (305, "Use Proxy"),
        (307, "Temporary Redirect"),
        (400, "Bad Request"),
        (401, "Unauthorized"),
        (402, "Payment Required"),
        (403, "Forbidden"),
        (404, "Not Found"),
        (405, "Method Not Allowed"),
        (406, "Not Acceptable"),
        (407, "Proxy Authentication Required"),
        (408, "Request Time-out"),
        (409, "Conflict"),
        (410, "Gone"),
        (411, "Length Required"),
        (412, "Precondition Failed"),
        (413, "Request Entity Too Large"),
        (414, "Request-URI Too Large"),
        (415, "Unsupported Media Type"),
        (416, "Requested range not satisfiable"),
        (417, "Expectation Failed"),
        (500, "Internal Server Error"),
        (501, "Not Implemented"),
        (502, "Bad Gateway"),
        (503, "Service Unavailable"),
        (504, "Gateway Time-out"),
        (505, "HTTP Version not supported"),
    ];
    for (code, phrase) in table {
        assert_eq!(resolve_reason_phrase(&code), phrase);
    }
}

#[test]
fn header_text_is_written_as_utf8() {
    let mut response = Response::new();
    response.set_code(200);
    response.add_header("X-Name".to_string(), "caf\u{e9}".to_string());
    assert_eq!(
        response.to_bytes(),
        "HTTP/1.1 200 OK\r\nx-name: caf\u{e9}\r\n".as_bytes().to_vec()
    );
}
