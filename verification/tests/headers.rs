use ziliwebka::http::Headers;
use ziliwebka::http::StringMap;

#[test]
fn header_lookup_ignores_case() {
    let mut headers = Headers::new();
    headers.insert("Content-Type", "text/html".to_string());
    assert_eq!(headers.get("content-type"), Some(&"text/html".to_string()));
    assert_eq!(headers.get("CONTENT-TYPE"), Some(&"text/html".to_string()));
    assert_eq!(headers.get("Content-Type"), Some(&"text/html".to_string()));
    assert!(headers.contains("cOnTeNt-TyPe"));
    assert!(!headers.contains("content-length"));
}

#[test]
fn header_given_twice_is_one_field_with_the_later_value() {
    let mut headers = Headers::new();
    headers.insert("Content-Type", "text/html".to_string());
    headers.insert("content-type", "text/plain".to_string());
    assert_eq!(headers.len(), 1);
    assert_eq!(headers.get("Content-Type"), Some(&"text/plain".to_string()));
}

#[test]
fn header_names_are_stored_in_lower_case() {
    let mut headers = Headers::new();
    headers.insert("X-Custom-Header", " padded ".to_string());
    assert_eq!(headers.len(), 1);
    assert_eq!(headers.name_at(0), "x-custom-header");
    assert_eq!(headers.value_at(0), " padded ");
}

#[test]
fn header_removal_ignores_case() {
    let mut headers = Headers::new();
    headers.insert("Host", "a".to_string());
    headers.insert("Accept", "b".to_string());
    assert_eq!(headers.remove("HOST"), Some("a".to_string()));
    assert_eq!(headers.remove("host"), None);
    assert_eq!(headers.len(), 1);
    assert_eq!(headers.name_at(0), "accept");
}

#[test]
fn headers_compare_without_regard_to_order() {
    let mut one = Headers::new();
    one.insert("A", "1".to_string());
    one.insert("B", "2".to_string());
    let mut other = Headers::new();
    other.insert("b", "2".to_string());
    other.insert("a", "1".to_string());
    assert_eq!(one, other);
    other.insert("a", "3".to_string());
    assert_ne!(one, other);
    assert_eq!(one.clone(), one);
}

#[test]
fn string_map_keeps_insertion_order_and_replaces_in_place() {
    let mut map = StringMap::new();
    map.insert("k1".to_string(), "a".to_string());
    map.insert("k2".to_string(), "b".to_string());
    map.insert("k1".to_string(), "c".to_string());
    assert_eq!(map.len(), 2);
    assert_eq!(map.key_at(0), "k1");
    assert_eq!(map.value_at(0), "c");
    assert_eq!(map.key_at(1), "k2");
    assert!(map.contains_key("k2"));
    assert_eq!(map.remove("k1"), Some("c".to_string()));
    assert_eq!(map.remove("k1"), None);
    assert_eq!(map.len(), 1);
    assert_eq!(map.key_at(0), "k2");
    assert_eq!(map.get("K2"), None);
}

#[test]
fn string_maps_of_different_size_differ() {
    let mut one = StringMap::new();
    one.insert("a".to_string(), "1".to_string());
    let two = StringMap::new();
    assert_ne!(one, two);
    assert_eq!(two, StringMap::new());
    assert_eq!(one.clone(), one);
}
