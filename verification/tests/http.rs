use duck_web_core::http::{Method, PathParams, QueryParams, Response};
use duck_web_core::naming::{handler_type_name, registration_name, with_suffix};
use duck_web_core::prelude::DuckWeb;
use duck_web_core::text::{
    cut_once, decimal_chars, from_chars, push_chars, push_decimal, same_text, split_chars,
    split_words, to_chars,
};

#[test]
fn serializing_ok_gives_exact_envelope() {
    let response = Response::new(200, "ok".to_string());
    assert_eq!(response.to_http(), "HTTP/1.1 200\r\nContent-Length: 2\r\n\r\nok");
}

#[test]
fn envelope_counts_bytes_not_characters() {
    let response = Response::new(201, "héllo €".to_string());
    assert_eq!(response.to_http(), "HTTP/1.1 201\r\nContent-Length: 10\r\n\r\nhéllo €");
}

#[test]
fn envelope_of_empty_body() {
    let response = Response::new(204, String::new());
    assert_eq!(response.to_http(), "HTTP/1.1 204\r\nContent-Length: 0\r\n\r\n");
}

#[test]
fn envelope_leaves_headers_out() {
    let mut response = Response::new(500, "x".to_string());
    response.headers.insert("Content-Type".to_string(), "text/plain".to_string());
    assert_eq!(response.to_http(), "HTTP/1.1 500\r\nContent-Length: 1\r\n\r\nx");
}

#[test]
fn envelope_of_extreme_status() {
    assert_eq!(
        Response::new(0, "a".to_string()).to_http(),
        "HTTP/1.1 0\r\nContent-Length: 1\r\n\r\na"
    );
    assert_eq!(
        Response::new(65535, "a".to_string()).to_http(),
        "HTTP/1.1 65535\r\nContent-Length: 1\r\n\r\na"
    );
}

#[test]
fn method_is_read_in_any_case() {
    assert_eq!(Method::from("GET"), Method::GET);
    assert_eq!(Method::from("post"), Method::POST);
    assert_eq!(Method::from("Put"), Method::PUT);
    assert_eq!(Method::from("dElEtE"), Method::DELETE);
    assert_eq!(Method::from("patch"), Method::PATCH);
    assert_eq!(Method::from("head"), Method::HEAD);
    assert_eq!(Method::from("options"), Method::OPTIONS);
}

#[test]
fn method_case_follows_unicode() {
    assert_eq!(Method::from("po\u{17f}t"), Method::POST);
    assert_eq!(Method::from_upper("po\u{17f}t"), Method::GET);
}

#[test]
fn unknown_method_is_get() {
    assert_eq!(Method::from("BREW"), Method::GET);
    assert_eq!(Method::from(""), Method::GET);
    assert_eq!(Method::from("GET "), Method::GET);
    assert_eq!(Method::from("POSTS"), Method::GET);
}

#[test]
fn from_upper_reads_upper_case_only() {
    assert_eq!(Method::from_upper("POST"), Method::POST);
    assert_eq!(Method::from_upper("post"), Method::GET);
    assert_eq!(Method::from_upper("OPTIONS"), Method::OPTIONS);
}

#[test]
fn method_names_round_trip() {
    let all = [
        (Method::GET, "GET"),
        (Method::POST, "POST"),
        (Method::PUT, "PUT"),
        (Method::DELETE, "DELETE"),
        (Method::PATCH, "PATCH"),
        (Method::HEAD, "HEAD"),
        (Method::OPTIONS, "OPTIONS"),
    ];
    for (method, name) in all {
        assert_eq!(method.as_str(), name);
        assert_eq!(Method::from_upper(method.as_str()), method);
        assert_eq!(format!("{:?}", method), name);
    }
}

#[test]
fn path_params_bind_and_replace() {
    let mut params = PathParams::new();
    assert_eq!(params.len(), 0);
    assert!(params.get("id").is_none());
    params.insert("id".to_string(), "1".to_string());
    params.insert("name".to_string(), "duck".to_string());
    params.insert("id".to_string(), "2".to_string());
    assert_eq!(params.len(), 2);
    assert_eq!(params.get("id"), Some(&"2".to_string()));
    assert_eq!(params.get("name"), Some(&"duck".to_string()));
    assert!(params.contains("name"));
    assert!(!params.contains("other"));
}

#[test]
fn query_collects_values_by_key() {
    let query = QueryParams::from("a=1&b=2&a=3");
    assert_eq!(query.get("a"), Some(&vec!["1".to_string(), "3".to_string()]));
    assert_eq!(query.get("b"), Some(&vec!["2".to_string()]));
    assert!(query.get("c").is_none());
}

#[test]
fn query_of_empty_text_is_empty() {
    let query = QueryParams::from("");
    assert!(query.get("").is_none());
    assert!(query.params.is_empty());
}

#[test]
fn query_value_ends_at_second_equals_sign() {
    let query = QueryParams::from("k=v=w&=x&y=");
    assert_eq!(query.get("k"), Some(&vec!["v".to_string()]));
    assert_eq!(query.get(""), Some(&vec!["x".to_string()]));
    assert_eq!(query.get("y"), Some(&vec![String::new()]));
}

#[test]
fn query_without_equals_sign_is_refused() {
    assert!(QueryParams::parse("a=1&b").is_none());
    assert!(QueryParams::parse("a").is_none());
    assert!(QueryParams::parse("a=1&").is_none());
    assert!(QueryParams::parse("&a=1").is_none());
    assert!(QueryParams::parse("").is_some());
    let query = QueryParams::parse("a=1&a=2").unwrap();
    assert_eq!(query.get("a"), Some(&vec!["1".to_string(), "2".to_string()]));
}

#[test]
fn query_add_appends() {
    let mut query = QueryParams::new();
    query.add("k".to_string(), "1".to_string());
    query.add("k".to_string(), "2".to_string());
    query.add("j".to_string(), "3".to_string());
    assert_eq!(query.get("k"), Some(&vec!["1".to_string(), "2".to_string()]));
    assert_eq!(query.get("j"), Some(&vec!["3".to_string()]));
}

#[test]
fn server_address_defaults_and_binds() {
    assert_eq!(DuckWeb::new().addr(), "127.0.0.1:7878");
    assert_eq!(DuckWeb::new().bind("0.0.0.0:80".to_string()).addr(), "0.0.0.0:80");
}

#[test]
fn chars_round_trip() {
    assert_eq!(to_chars("a€b"), vec!['a', '€', 'b']);
    assert_eq!(from_chars(&vec!['a', '€', 'b']), "a€b");
    assert_eq!(to_chars(""), Vec::<char>::new());
    let mut out = String::from("x");
    push_chars(&mut out, &vec!['y', 'z']);
    assert_eq!(out, "xyz");
}

#[test]
fn same_text_compares_characters() {
    assert!(same_text("GET", "GET"));
    assert!(!same_text("GET", "GE"));
    assert!(!same_text("GET", "GEt"));
    assert!(same_text("", ""));
}

#[test]
fn split_keeps_empty_pieces() {
    let pieces = split_chars(&to_chars("/a//b/"), '/');
    let texts: Vec<String> = pieces.iter().map(from_chars).collect();
    assert_eq!(texts, vec!["", "a", "", "b", ""]);
    assert_eq!(split_chars(&to_chars(""), '/'), vec![Vec::<char>::new()]);
    assert_eq!(split_chars(&to_chars("abc"), '/'), vec![to_chars("abc")]);
}

#[test]
fn words_drop_white_space() {
    let words = split_words(&to_chars("  a\tbc \r\n d\u{a0}e\u{3000}"));
    let texts: Vec<String> = words.iter().map(from_chars).collect();
    assert_eq!(texts, vec!["a", "bc", "d", "e"]);
    assert!(split_words(&to_chars(" \t ")).is_empty());
    assert!(split_words(&to_chars("")).is_empty());
}

#[test]
fn cut_once_cuts_at_first() {
    let (head, tail) = cut_once(&to_chars("a?b?c"), '?');
    assert_eq!((from_chars(&head), from_chars(&tail)), ("a".to_string(), "b?c".to_string()));
    let (head, tail) = cut_once(&to_chars("abc"), '?');
    assert_eq!((from_chars(&head), from_chars(&tail)), ("abc".to_string(), String::new()));
    let (head, tail) = cut_once(&to_chars("abc?"), '?');
    assert_eq!((from_chars(&head), from_chars(&tail)), ("abc".to_string(), String::new()));
    let (head, tail) = cut_once(&to_chars("?"), '?');
    assert_eq!((from_chars(&head), from_chars(&tail)), (String::new(), String::new()));
}

#[test]
fn decimal_numerals() {
    assert_eq!(from_chars(&decimal_chars(0)), "0");
    assert_eq!(from_chars(&decimal_chars(9)), "9");
    assert_eq!(from_chars(&decimal_chars(10)), "10");
    assert_eq!(from_chars(&decimal_chars(405)), "405");
    assert_eq!(from_chars(&decimal_chars(1234567890)), "1234567890");
    assert_eq!(from_chars(&decimal_chars(u64::MAX)), "18446744073709551615");
    let mut out = String::from("n=");
    push_decimal(&mut out, 1024);
    assert_eq!(out, "n=1024");
}

#[test]
fn handler_type_is_named_in_pascal_case() {
    assert_eq!(handler_type_name("get_user"), "GetUserHandler");
    assert_eq!(handler_type_name("index"), "IndexHandler");
    assert_eq!(handler_type_name("list_all_items2"), "ListAllItems2Handler");
}

#[test]
fn registration_is_named_after_the_function() {
    assert_eq!(registration_name("get_user"), "get_user_registration");
    assert_eq!(with_suffix("a", "b"), "ab");
    assert_eq!(with_suffix("", ""), "");
}
