use http::HeaderMap;
use wiremock::matchers::{
    basic_auth, bearer_token, body_json_string, body_partial_json_string, body_string,
    body_string_contains, header, header_exists, header_regex, headers, method, path, path_regex,
    query_param, query_param_contains, query_param_is_missing, BasicAuthMatcher, Match,
    PathExactMatcher, PathRegexMatcher,
};
use wiremock::request::Request;
use wiremock::matchers::MethodExactMatcher;
use wiremock::response_template::ResponseTemplate;

fn with_headers(pairs: &[(&str, &[u8])]) -> Request {
    let mut hs = HeaderMap::new();
    for (n, v) in pairs {
        hs.append(http::HeaderName::from_bytes(n.as_bytes()).unwrap(), http::HeaderValue::from_bytes(v).unwrap());
    }
    Request::from_wire("GET", "/", false, hs, Vec::new()).unwrap()
}

fn with_body(body: &[u8]) -> Request {
    Request::from_wire("POST", "/", false, HeaderMap::new(), body.to_vec()).unwrap()
}

fn at(target: &str) -> Request {
    Request::from_wire("GET", target, false, HeaderMap::new(), Vec::new()).unwrap()
}

#[test]
fn method_matcher_is_case_insensitive() {
    let request = Request::from_wire("get", "/hello", false, HeaderMap::new(), Vec::new()).unwrap();
    assert_eq!(request.method(), "GET");
    assert!(method("Get").matches(&request));
    assert!(!method("POST").matches(&request));
}

#[test]
fn path_gets_a_leading_slash() {
    assert_eq!(path("abcd").0, "/abcd");
    assert!(path("hello").matches(&at("/hello")));
    assert!(!path("/hello").matches(&at("/hello/there")));
}

#[test]
fn path_with_query_or_host_is_refused() {
    assert!(PathExactMatcher::try_new("abcd?").is_none());
    assert!(PathExactMatcher::try_new("https://domain.com/abcd").is_none());
    assert!(PathExactMatcher::try_new("/abcd").is_some());
}

#[test]
fn path_regex_matches_anywhere() {
    assert!(path_regex("[a-z]{4}").matches(&at("/abcd")));
    assert!(!path_regex("^/[0-9]+$").matches(&at("/abcd")));
    assert!(PathRegexMatcher::try_new("(").is_none());
}

#[test]
fn should_match_simple_request_header() {
    let r = with_headers(&[("content-type", b"application/json")]);
    assert!(header("content-type", "application/json").matches(&r));
    assert!(!header("accept", "application/json").matches(&r));
    assert!(!header("content-type", "application/xml").matches(&r));
}

#[test]
fn header_names_are_case_insensitive() {
    let r = with_headers(&[("content-type", b"application/json")]);
    assert!(header("Content-Type", "application/json").matches(&r));
    assert!(header_exists("CONTENT-TYPE").matches(&r));
    assert!(!header_exists("accept").matches(&r));
}

#[test]
fn should_match_multi_request_header() {
    let joined = with_headers(&[("cache-control", b"no-cache, no-store")]);
    let split = with_headers(&[("cache-control", b"no-cache"), ("cache-control", b"no-store")]);
    let m = headers("cache-control", vec!["no-cache", "no-store"]);
    assert!(m.matches(&joined));
    assert!(m.matches(&split));
    let wrong = with_headers(&[("cache-control", b"no-cache, no-transform")]);
    assert!(!m.matches(&wrong));
    let incomplete = with_headers(&[("cache-control", b"no-cache")]);
    assert!(!m.matches(&incomplete));
}

#[test]
fn header_regex_needs_every_value_to_match() {
    let m = header_regex("cache-control", "no-(cache|store)");
    assert!(m.matches(&with_headers(&[("cache-control", b"no-cache")])));
    assert!(m.matches(&with_headers(&[("cache-control", b"no-cache"), ("cache-control", b"no-store")])));
    assert!(!m.matches(&with_headers(&[("cache-control", b"no-junk")])));
    assert!(!m.matches(&with_headers(&[("cache-control", b"no-cache"), ("cache-control", b"no-junk")])));
    assert!(!m.matches(&with_headers(&[])));
}

#[test]
fn basic_auth_encodes_credentials() {
    let r = with_headers(&[("authorization", b"Basic QWxhZGRpbjpvcGVuIHNlc2FtZQ==")]);
    assert!(basic_auth("Aladdin", "open sesame").matches(&r));
    assert!(!basic_auth("Aladdin", "close sesame").matches(&r));
    assert!(BasicAuthMatcher::from_token("QWxhZGRpbjpvcGVuIHNlc2FtZQ==").matches(&r));
    assert_eq!(basic_auth("Aladdin", "open sesame").0 .1[0], b"Basic QWxhZGRpbjpvcGVuIHNlc2FtZQ==".to_vec());
}

#[test]
fn bearer_token_matches_the_token() {
    let r = with_headers(&[("authorization", b"Bearer delightful")]);
    assert!(bearer_token("delightful").matches(&r));
    assert!(!bearer_token("expired").matches(&r));
}

#[test]
fn body_matchers() {
    let r = with_body(b"hello world");
    assert!(body_string("hello world").matches(&r));
    assert!(!body_string("hello").matches(&r));
    assert!(body_string_contains("lo wo").matches(&r));
    assert!(!body_string_contains("xyz").matches(&r));
    assert!(!body_string_contains("lo").matches(&with_body(&[0xff, b'l', b'o'])));
}

#[test]
fn json_body_matches_independent_of_key_ordering() {
    let r = with_body(br#"{"b": 2, "a": 1}"#);
    assert!(body_json_string(br#"{"a":1,"b":2}"#).matches(&r));
    assert!(!body_json_string(br#"{"a":1}"#).matches(&r));
    assert!(body_partial_json_string(r#"{"a":1}"#).matches(&r));
    assert!(!body_partial_json_string(r#"{"c":1}"#).matches(&r));
    assert!(!body_json_string(b"{}").matches(&with_body(b"not json")));
}

#[test]
fn query_matchers() {
    let r = at("/search?q=rust+verus&page=2");
    assert_eq!(r.query_pairs().len(), 2);
    assert!(query_param("q", "rust verus").matches(&r));
    assert!(!query_param("q", "rust").matches(&r));
    assert!(query_param_contains("q", "verus").matches(&r));
    assert!(!query_param_contains("page", "3").matches(&r));
    assert!(query_param_is_missing("sort").matches(&r));
    assert!(!query_param_is_missing("page").matches(&r));
}

#[test]
fn mixed_case_request_header_names_match() {
    let mut hs = HeaderMap::new();
    hs.append(
        http::HeaderName::from_bytes(b"Authorization").unwrap(),
        http::HeaderValue::from_static("Basic QWxhZGRpbjpvcGVuIHNlc2FtZQ=="),
    );
    let r = Request::from_wire("GET", "/", false, hs, Vec::new()).unwrap();
    assert_eq!(r.header_pairs()[0].0, "authorization");
    assert!(basic_auth("Aladdin", "open sesame").matches(&r));
}

#[test]
fn base64_pads_short_groups() {
    assert_eq!(basic_auth("a", "").0 .1[0], b"Basic YTo=".to_vec());
    assert_eq!(basic_auth("", "").0 .1[0], b"Basic Og==".to_vec());
    assert_eq!(basic_auth("ab", "c").0 .1[0], b"Basic YWI6Yw==".to_vec());
}

#[test]
fn method_and_status_checks() {
    assert!(MethodExactMatcher::try_new("").is_none());
    assert!(MethodExactMatcher::try_new("GE T").is_none());
    assert_eq!(MethodExactMatcher::try_new("patch").unwrap().0, "PATCH");
    assert!(ResponseTemplate::try_new(700).is_none());
    assert!(ResponseTemplate::try_new(99).is_none());
    assert_eq!(ResponseTemplate::try_new(599).unwrap().status(), 599);
    let t = ResponseTemplate::new(200).append_header("a", "1").append_header("a", "2");
    assert_eq!(t.header_count(), 2);
}
