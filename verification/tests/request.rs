use ziliwebka::http::parse;
use ziliwebka::http::parse_head;
use ziliwebka::http::Headers;
use ziliwebka::http::Method;
use ziliwebka::http::ParseError;
use ziliwebka::http::Request;
use ziliwebka::http::StringMap;
use ziliwebka::http::URIQuery;

#[test]
fn whole_request_is_read() {
    let buffer =
        b"POST /submit?a=1&b=2 HTTP/1.1\r\nHost: example.com\r\nContent-Type:text/plain\r\n\r\nhello";
    let request = parse(buffer).unwrap();
    assert_eq!(request.method(), Method::POST);
    let mut pairs = StringMap::new();
    pairs.insert("a".to_string(), "1".to_string());
    pairs.insert("b".to_string(), "2".to_string());
    assert_eq!(
        request.uri(),
        ("/submit".to_string(), Some(URIQuery::PairList(pairs)))
    );
    let mut headers = Headers::new();
    headers.insert("host", " example.com".to_string());
    headers.insert("content-type", "text/plain".to_string());
    assert_eq!(request.headers(), headers);
    assert_eq!(request.body(), Some(b"hello".to_vec()));
}

#[test]
fn zero_padding_after_the_blank_line_is_no_body() {
    let mut buffer = b"GET / HTTP/1.1\r\nHost: x\r\n\r\n".to_vec();
    buffer.resize(2048, 0);
    let request = parse(&buffer).unwrap();
    assert_eq!(request.method(), Method::GET);
    assert_eq!(request.uri(), ("/".to_string(), None));
    assert_eq!(request.body(), None);
}

#[test]
fn nothing_after_the_blank_line_is_no_body() {
    let request = parse(b"GET / HTTP/1.1\r\n\r\n").unwrap();
    assert_eq!(request.body(), None);
    assert_eq!(request.headers().len(), 0);
}

#[test]
fn body_with_zero_tail_is_kept_whole() {
    let request = parse(b"PUT /f HTTP/1.1\r\n\r\nab\0\0").unwrap();
    assert_eq!(request.body(), Some(b"ab\0\0".to_vec()));
    let request = parse(b"PUT /f HTTP/1.1\r\n\r\n\0\0a").unwrap();
    assert_eq!(request.body(), Some(b"\0\0a".to_vec()));
}

#[test]
fn body_may_hold_a_blank_line() {
    let request = parse(b"PUT /f HTTP/1.1\r\n\r\na\r\n\r\nb").unwrap();
    assert_eq!(request.body(), Some(b"a\r\n\r\nb".to_vec()));
}

#[test]
fn empty_buffer_is_refused() {
    assert_eq!(parse(b"").unwrap_err(), ParseError::EmptyInput);
}

#[test]
fn buffer_without_blank_line_is_refused() {
    assert_eq!(
        parse(b"GET / HTTP/1.1\r\nHost: x\r\n").unwrap_err(),
        ParseError::NoTerminator
    );
    assert_eq!(parse(b"\r\n\r").unwrap_err(), ParseError::NoTerminator);
    assert_eq!(parse(b"\n\r\n\r").unwrap_err(), ParseError::NoTerminator);
    assert_eq!(parse(b"x").unwrap_err(), ParseError::NoTerminator);
    assert_eq!(parse(&[0u8; 64]).unwrap_err(), ParseError::NoTerminator);
}

#[test]
fn request_line_with_one_token_is_refused() {
    assert_eq!(
        parse(b"GET\r\nHost: x\r\n\r\n").unwrap_err(),
        ParseError::MissingMethodOrURI
    );
    assert_eq!(parse(b"\r\n\r\n").unwrap_err(), ParseError::MissingMethodOrURI);
    assert_eq!(
        parse_head("", None).unwrap_err(),
        ParseError::MissingMethodOrURI
    );
}

#[test]
fn percent_in_the_path_is_refused() {
    assert_eq!(
        parse(b"GET /a%20b HTTP/1.1\r\n\r\n").unwrap_err(),
        ParseError::RejectedPercentInPath
    );
    assert_eq!(
        parse(b"GET /a%20b?q=1 HTTP/1.1\r\n\r\n").unwrap_err(),
        ParseError::RejectedPercentInPath
    );
}

#[test]
fn percent_in_the_query_is_decoded() {
    let request = parse(b"GET /a?b%20c HTTP/1.1\r\n\r\n").unwrap();
    assert_eq!(
        request.uri(),
        (
            "/a".to_string(),
            Some(URIQuery::SingleParamsList(vec!["b c".to_string()]))
        )
    );
}

#[test]
fn two_tokens_are_enough() {
    let request = parse(b"BREW /pot\r\n\r\n").unwrap();
    assert_eq!(request.method(), Method::UNKNOWN("BREW".to_string()));
    assert_eq!(request.uri(), ("/pot".to_string(), None));
}

#[test]
fn tokens_are_cut_at_single_spaces() {
    let request = parse(b"GET  /x HTTP/1.1\r\n\r\n").unwrap();
    assert_eq!(request.method(), Method::GET);
    assert_eq!(request.uri(), (String::new(), None));
}

#[test]
fn header_lines_are_cut_at_the_first_colon() {
    let request = parse_head(
        "GET / HTTP/1.1\r\nHost: localhost:7878\r\nno colon here\r\nX-Empty:\r\n:anonymous",
        None,
    )
    .unwrap();
    let headers = request.headers();
    assert_eq!(headers.len(), 3);
    assert_eq!(headers.get("host"), Some(&" localhost:7878".to_string()));
    assert_eq!(headers.get("x-empty"), Some(&String::new()));
    assert_eq!(headers.get(""), Some(&"anonymous".to_string()));
    assert_eq!(headers.name_at(0), "host");
    assert_eq!(headers.name_at(1), "x-empty");
    assert_eq!(headers.name_at(2), "");
}

#[test]
fn later_header_line_wins() {
    let request = parse(b"GET / HTTP/1.1\r\nAccept: a\r\nACCEPT: b\r\n\r\n").unwrap();
    let headers = request.headers();
    assert_eq!(headers.len(), 1);
    assert_eq!(headers.get("Accept"), Some(&" b".to_string()));
}

#[test]
fn lines_are_cut_at_cr_lf_only() {
    let request = parse_head("GET / HTTP/1.1\nHost: x\r\nA: b\rc", None).unwrap();
    let headers = request.headers();
    assert_eq!(headers.len(), 1);
    assert_eq!(headers.get("a"), Some(&" b\rc".to_string()));
}

#[test]
fn body_is_handed_through_by_parse_head() {
    let request = parse_head("GET / HTTP/1.1", Some(vec![1, 2, 3])).unwrap();
    assert_eq!(request.body(), Some(vec![1, 2, 3]));
}

#[test]
fn bytes_that_are_not_utf8_are_replaced() {
    let request = parse(b"GET / HTTP/1.1\r\nX: a\xffb\r\n\r\n").unwrap();
    assert_eq!(
        request.headers().get("x"),
        Some(&" a\u{fffd}b".to_string())
    );
}

#[test]
fn header_text_in_utf8_is_decoded() {
    let request = parse("GET /caf\u{e9} HTTP/1.1\r\nX-N\u{c4}me: \u{e9}\r\n\r\n".as_bytes()).unwrap();
    assert_eq!(request.uri(), ("/caf\u{e9}".to_string(), None));
    assert_eq!(
        request.headers().get("x-n\u{e4}me"),
        Some(&" \u{e9}".to_string())
    );
}

#[test]
fn refused_request_says_why_and_keeps_the_method() {
    let refused = Request::new(b"").unwrap_err();
    assert_eq!(refused.reason(), ParseError::EmptyInput);
    assert_eq!(refused.method(), None);

    let refused = Request::new(b"GET / HTTP/1.1").unwrap_err();
    assert_eq!(refused.reason(), ParseError::NoTerminator);
    assert_eq!(refused.method(), None);

    let refused = Request::new(b"DELETE\r\n\r\n").unwrap_err();
    assert_eq!(refused.reason(), ParseError::MissingMethodOrURI);
    assert_eq!(refused.method(), Some(Method::DELETE));

    let refused = Request::new(b"GET /% HTTP/1.1\r\n\r\n").unwrap_err();
    assert_eq!(refused.reason(), ParseError::RejectedPercentInPath);
    assert_eq!(refused.method(), Some(Method::GET));
    assert_eq!(refused.uri(), None);
    assert_eq!(refused.headers(), None);
    assert_eq!(refused.body(), None);
}

#[test]
fn request_new_reads_what_parse_reads() {
    let buffer = b"GET /x?y HTTP/1.1\r\nA: b\r\n\r\nbody";
    let one = Request::new(buffer).unwrap();
    let other = parse(buffer).unwrap();
    assert_eq!(one, other);
    assert_eq!(one.method(), Method::GET);
    assert_eq!(one.body(), Some(b"body".to_vec()));
}
