use fastcgi_server::json::{append_json_string, append_json_string_array, append_json_string_object};
use fastcgi_server::response::{HttpResponse, HttpResponseBody};
use fastcgi_server::text::{decimal_string, insert_pair, str_lt};

#[test]
fn decimal_rendering_exact_values() {
    assert_eq!(decimal_string(0).as_str(), "0");
    assert_eq!(decimal_string(7).as_str(), "7");
    assert_eq!(decimal_string(10).as_str(), "10");
    assert_eq!(decimal_string(429).as_str(), "429");
    assert_eq!(decimal_string(1844674407370955161).as_str(), "1844674407370955161");
    assert_eq!(
        decimal_string(340282366920938463463374607431768211455).as_str(),
        "340282366920938463463374607431768211455"
    );
}

#[test]
fn json_string_escapes_specials() {
    let mut out = String::new();
    append_json_string(&mut out, "a\"b\\c");
    assert_eq!(out.as_str(), "\"a\\\"b\\\\c\"");
}

#[test]
fn json_string_escapes_controls() {
    let mut out = String::new();
    append_json_string(&mut out, "\u{8}\t\n\u{c}\r\u{1}\u{1f}");
    assert_eq!(out.as_str(), "\"\\b\\t\\n\\f\\r\\u0001\\u001f\"");
}

#[test]
fn json_string_keeps_unicode_text() {
    let mut out = String::new();
    append_json_string(&mut out, "héllo ✓");
    assert_eq!(out.as_str(), "\"héllo ✓\"");
}

#[test]
fn json_string_array_rendering() {
    let mut out = String::new();
    append_json_string_array(&mut out, &Vec::new());
    assert_eq!(out.as_str(), "[]");

    let mut out = String::new();
    append_json_string_array(&mut out, &vec!["-la".to_owned()]);
    assert_eq!(out.as_str(), "[\"-la\"]");

    let mut out = String::new();
    append_json_string_array(&mut out, &vec!["a".to_owned(), "b".to_owned()]);
    assert_eq!(out.as_str(), "[\"a\",\"b\"]");
}

#[test]
fn json_object_rendering() {
    let mut out = String::new();
    let pairs = vec![
        ("accept".to_owned(), "*/*".to_owned()),
        ("host".to_owned(), "localhost".to_owned()),
    ];
    append_json_string_object(&mut out, &pairs);
    assert_eq!(out.as_str(), "{\"accept\":\"*/*\",\"host\":\"localhost\"}");
}

#[test]
fn string_order_is_lexicographic_by_scalar_value() {
    assert!(str_lt("abc", "abd"));
    assert!(str_lt("ab", "abc"));
    assert!(!str_lt("abc", "abc"));
    assert!(!str_lt("abd", "abc"));
    assert!(str_lt("", "a"));
    assert!(str_lt("HOST", "host"));
}

#[test]
fn ordered_insert_sorts_and_replaces() {
    let mut pairs: Vec<(String, String)> = Vec::new();
    insert_pair(&mut pairs, "b".to_owned(), "2".to_owned());
    insert_pair(&mut pairs, "a".to_owned(), "1".to_owned());
    insert_pair(&mut pairs, "c".to_owned(), "3".to_owned());
    insert_pair(&mut pairs, "b".to_owned(), "9".to_owned());
    let rendered: Vec<(&str, &str)> =
        pairs.iter().map(|p| (p.0.as_str(), p.1.as_str())).collect();
    assert_eq!(rendered, vec![("a", "1"), ("b", "9"), ("c", "3")]);
}

#[test]
fn header_string_has_wire_shape() {
    let response = HttpResponse::new(
        200,
        vec![("content-type".to_owned(), "application/json".to_owned())],
        Some(HttpResponseBody::from("{}".to_owned())),
    );
    assert_eq!(
        response.build_header_string().as_str(),
        "Status: 200 OK\ncontent-type: application/json\n\n"
    );
}

#[test]
fn header_string_unknown_status_reason() {
    let response = HttpResponse::new(599, Vec::new(), None);
    assert_eq!(response.build_header_string().as_str(), "Status: 599 [Unknown]\n\n");
}

#[test]
fn header_string_canonical_reasons() {
    assert_eq!(
        HttpResponse::new(400, Vec::new(), None).build_header_string().as_str(),
        "Status: 400 Bad Request\n\n"
    );
    assert_eq!(
        HttpResponse::new(404, Vec::new(), None).build_header_string().as_str(),
        "Status: 404 Not Found\n\n"
    );
    assert_eq!(
        HttpResponse::new(429, Vec::new(), None).build_header_string().as_str(),
        "Status: 429 Too Many Requests\n\n"
    );
    assert_eq!(
        HttpResponse::new(500, Vec::new(), None).build_header_string().as_str(),
        "Status: 500 Internal Server Error\n\n"
    );
}

#[test]
fn wire_bytes_are_header_then_body() {
    let response = HttpResponse::new(
        200,
        vec![("content-type".to_owned(), "application/json".to_owned())],
        Some(HttpResponseBody::from("[1]".to_owned())),
    );
    let bytes = response.wire_bytes();
    assert_eq!(
        bytes.as_slice(),
        b"Status: 200 OK\ncontent-type: application/json\n\n[1]"
    );
}

#[test]
fn body_bytes_are_utf8() {
    let body = HttpResponseBody::from("résultat".to_owned());
    assert_eq!(body.as_bytes(), "résultat".as_bytes());
}
