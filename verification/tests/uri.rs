use ziliwebka::http::parse_from_unsafe;
use ziliwebka::http::parse_hex;
use ziliwebka::http::Method;
use ziliwebka::http::StringMap;
use ziliwebka::http::URIQuery;

#[test]
fn test_from_unsafe_parsing() {
    let string_to_parse =
        "sample.com/?hello+world+this+is+a+test+string+%25+.+%2B+-+%3D+-+*".to_string();
    let mark = string_to_parse.find('?').unwrap();
    let decoded_query = parse_hex(&string_to_parse[mark..]);
    assert_eq!(
        (parse_from_unsafe(string_to_parse).unwrap().0, decoded_query),
        (
            "sample.com/".to_string(),
            "?hello+world+this+is+a+test+string+%+.+++-+=+-+*".to_string()
        )
    );
}

#[test]
fn decoded_equals_sign_makes_the_query_a_pair_list() {
    let target = "sample.com/?hello+world+this+is+a+test+string+%25+.+%2B+-+%3D+-+*".to_string();
    let (_, query) = parse_from_unsafe(target).unwrap();
    let mut expected = StringMap::new();
    expected.insert(
        "hello+world+this+is+a+test+string+%+.+++-+".to_string(),
        "+-+*".to_string(),
    );
    assert_eq!(query, Some(URIQuery::PairList(expected)));
}

#[test]
fn standard_methods_are_recognised() {
    assert_eq!(Method::new("GET"), Method::GET);
    assert_eq!(Method::new("HEAD"), Method::HEAD);
    assert_eq!(Method::new("POST"), Method::POST);
    assert_eq!(Method::new("PUT"), Method::PUT);
    assert_eq!(Method::new("DELETE"), Method::DELETE);
    assert_eq!(Method::new("TRACE"), Method::TRACE);
    assert_eq!(Method::new("OPTIONS"), Method::OPTIONS);
    assert_eq!(Method::new("CONNECT"), Method::CONNECT);
    assert_eq!(Method::new("PATCH"), Method::PATCH);
}

#[test]
fn other_tokens_are_kept_as_they_came() {
    assert_eq!(Method::new("get"), Method::UNKNOWN("get".to_string()));
    assert_eq!(Method::new("GETS"), Method::UNKNOWN("GETS".to_string()));
    assert_eq!(Method::new(""), Method::UNKNOWN(String::new()));
    assert_eq!(Method::new("BREW"), Method::UNKNOWN("BREW".to_string()));
}

#[test]
fn percent_escapes_decode_to_their_character() {
    assert_eq!(parse_hex("%25"), "%");
    assert_eq!(parse_hex("%2B"), "+");
    assert_eq!(parse_hex("%2b"), "+");
    assert_eq!(parse_hex("+"), "+");
    assert_eq!(parse_hex("a%20b"), "a b");
    assert_eq!(parse_hex("%41%42%43"), "ABC");
    assert_eq!(parse_hex("%E9"), "\u{e9}");
    assert_eq!(parse_hex(""), "");
    assert_eq!(parse_hex("plain text"), "plain text");
}

#[test]
fn escapes_that_are_no_hex_decode_to_nul() {
    assert_eq!(parse_hex("%zz"), "\0");
    assert_eq!(parse_hex("%4z"), "\0");
    assert_eq!(parse_hex("%+5"), "\0");
    assert_eq!(parse_hex("a%g1b"), "a\0b");
}

#[test]
fn escapes_cut_short_give_nothing() {
    assert_eq!(parse_hex("%"), "");
    assert_eq!(parse_hex("%4"), "");
    assert_eq!(parse_hex("abc%4"), "abc");
    assert_eq!(parse_hex("%%41"), "A");
    assert_eq!(parse_hex("%4%1"), "A");
}

#[test]
fn query_with_pairs_is_a_mapping() {
    let (path, query) = parse_from_unsafe("/p?a=1&b=2".to_string()).unwrap();
    assert_eq!(path, "/p");
    let mut expected = StringMap::new();
    expected.insert("a".to_string(), "1".to_string());
    expected.insert("b".to_string(), "2".to_string());
    assert_eq!(query, Some(URIQuery::PairList(expected)));
    match query {
        Some(URIQuery::PairList(pairs)) => {
            assert_eq!(pairs.len(), 2);
            assert_eq!(pairs.get("a"), Some(&"1".to_string()));
            assert_eq!(pairs.get("b"), Some(&"2".to_string()));
            assert_eq!(pairs.get("c"), None);
        }
        _ => panic!("the query holds pairs"),
    }
}

#[test]
fn query_without_equals_is_a_token_list() {
    let (path, query) = parse_from_unsafe("/p?x&y&z".to_string()).unwrap();
    assert_eq!(path, "/p");
    assert_eq!(
        query,
        Some(URIQuery::SingleParamsList(vec![
            "x".to_string(),
            "y".to_string(),
            "z".to_string()
        ]))
    );
}

#[test]
fn later_pair_wins_and_segments_without_equals_are_skipped() {
    let (_, query) = parse_from_unsafe("/?k=1&skip&k=2&e=".to_string()).unwrap();
    let mut expected = StringMap::new();
    expected.insert("k".to_string(), "2".to_string());
    expected.insert("e".to_string(), "".to_string());
    assert_eq!(query, Some(URIQuery::PairList(expected)));
}

#[test]
fn pair_is_cut_at_the_first_equals_sign() {
    let (_, query) = parse_from_unsafe("/?a=b=c".to_string()).unwrap();
    let mut expected = StringMap::new();
    expected.insert("a".to_string(), "b=c".to_string());
    assert_eq!(query, Some(URIQuery::PairList(expected)));
}

#[test]
fn target_without_question_mark_has_no_query() {
    assert_eq!(
        parse_from_unsafe("/index.html".to_string()),
        Some(("/index.html".to_string(), None))
    );
    assert_eq!(parse_from_unsafe(String::new()), Some((String::new(), None)));
}

#[test]
fn empty_query_is_one_empty_token() {
    assert_eq!(
        parse_from_unsafe("/p?".to_string()),
        Some((
            "/p".to_string(),
            Some(URIQuery::SingleParamsList(vec![String::new()]))
        ))
    );
}

#[test]
fn percent_in_path_is_refused() {
    assert_eq!(parse_from_unsafe("/a%20b".to_string()), None);
    assert_eq!(parse_from_unsafe("/a%20b?x=1".to_string()), None);
    assert_eq!(parse_from_unsafe("%".to_string()), None);
}

#[test]
fn percent_after_the_question_mark_is_decoded() {
    assert_eq!(
        parse_from_unsafe("/a?b%20c".to_string()),
        Some((
            "/a".to_string(),
            Some(URIQuery::SingleParamsList(vec!["b c".to_string()]))
        ))
    );
}

#[test]
fn path_is_cut_by_characters_not_by_bytes() {
    assert_eq!(
        parse_from_unsafe("/caf\u{e9}?x".to_string()),
        Some((
            "/caf\u{e9}".to_string(),
            Some(URIQuery::SingleParamsList(vec!["x".to_string()]))
        ))
    );
}
