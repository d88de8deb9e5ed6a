use ziliwebka::sequential::generate_response;
use ziliwebka::sequential::plan_answer;
use ziliwebka::sequential::plan_answer_to;
use ziliwebka::sequential::Answer;

#[test]
fn response_text_has_status_headers_and_body() {
    assert_eq!(
        generate_response(200, "A: b".to_string(), "hello".to_string()),
        "HTTP/1.1 200 OK\n\rA: b\n\rhello"
    );
    assert_eq!(
        generate_response(501, String::new(), String::new()),
        "HTTP/1.1 501 Not Implemented\n\r\n\r"
    );
    assert_eq!(
        generate_response(799, String::new(), "x".to_string()),
        "HTTP/1.1 799 \n\r\n\rx"
    );
    assert_eq!(
        generate_response(4294967295, String::new(), String::new()),
        "HTTP/1.1 4294967295 \n\r\n\r"
    );
}

#[test]
fn get_is_answered_with_the_file() {
    assert_eq!(
        plan_answer("GET /index.html HTTP/1.1\r\nHost: example.com\r\n\r\n"),
        Answer::File("/index.html".to_string())
    );
}

#[test]
fn get_for_a_target_that_ends_in_a_question_mark_is_not_implemented() {
    assert_eq!(
        plan_answer("GET /api? HTTP/1.1\r\nHost: example.com\r\n\r\n"),
        Answer::Status(501)
    );
}

#[test]
fn other_methods_are_not_implemented() {
    assert_eq!(
        plan_answer("POST /index.html HTTP/1.1\r\nHost: example.com\r\n\r\n"),
        Answer::Status(501)
    );
    assert_eq!(plan_answer("get / a b"), Answer::Status(501));
}

#[test]
fn three_tokens_or_fewer_are_no_request() {
    assert_eq!(plan_answer(""), Answer::Nothing);
    assert_eq!(plan_answer("GET / HTTP/1.1\r\n\r\n"), Answer::Nothing);
    assert_eq!(plan_answer("GET /"), Answer::Nothing);
    assert_eq!(plan_answer("GET / a b"), Answer::File("/".to_string()));
    assert_eq!(plan_answer("GET  a b"), Answer::File(String::new()));
}

#[test]
fn bytes_are_decoded_before_they_are_read() {
    assert_eq!(
        plan_answer_to(b"GET /\xff HTTP/1.1\r\nHost: example.com\r\n\r\n"),
        Answer::File("/\u{fffd}".to_string())
    );
    let mut buffer = b"GET /a HTTP/1.1\r\nHost: example.com\r\n\r\n".to_vec();
    buffer.resize(1024, 0);
    assert_eq!(plan_answer_to(&buffer), Answer::File("/a".to_string()));
}
