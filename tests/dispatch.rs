use std::time::Duration;
use http::HeaderMap;
use wiremock::matchers::{any, method, path, path_regex};
use wiremock::mock::{Mock, Reply};
use wiremock::request::{BodyPrintLimit, Request};
use wiremock::response_template::ResponseTemplate;
use wiremock::server_state::MockServerState;
use wiremock::times::Times;

fn get(target: &str) -> Request {
    Request::from_wire("GET", target, false, HeaderMap::new(), Vec::new()).unwrap()
}

fn post(target: &str) -> Request {
    Request::from_wire("POST", target, false, HeaderMap::new(), Vec::new()).unwrap()
}

fn status(reply: &Reply) -> u16 {
    match reply {
        Reply::Response(r, _) => r.status,
        Reply::Error(_) => 0,
    }
}

fn body(reply: &Reply) -> Vec<u8> {
    match reply {
        Reply::Response(r, _) => r.body.clone(),
        Reply::Error(_) => Vec::new(),
    }
}

fn state() -> MockServerState {
    MockServerState::new(true, BodyPrintLimit::Limited(10_000))
}

#[test]
fn no_mocks_means_404_with_empty_body() {
    let mut s = state();
    for target in ["/", "/a", "/b?c=d"] {
        let reply = s.handle_request(get(target));
        assert_eq!(status(&reply), 404);
        assert!(body(&reply).is_empty());
        match reply {
            Reply::Response(r, delay) => {
                assert_eq!(r.headers.len(), 0);
                assert!(delay.is_none());
            }
            Reply::Error(_) => panic!("expected a response"),
        }
    }
}

#[test]
fn get_match_and_miss() {
    let mut s = state();
    s.register(
        Mock::given(method("GET"))
            .and(path("/hello"))
            .respond_with(ResponseTemplate::new(200).set_body_bytes(b"world".to_vec())),
    );
    let reply = s.handle_request(get("/hello"));
    assert_eq!(status(&reply), 200);
    assert_eq!(body(&reply), b"world".to_vec());
    assert_eq!(status(&s.handle_request(get("/missing"))), 404);
}

#[test]
fn cap_makes_a_mock_stop_matching() {
    let mut s = state();
    s.register(Mock::given(method("GET")).respond_with(ResponseTemplate::new(200)).up_to_n_times(1));
    assert_eq!(status(&s.handle_request(get("/"))), 200);
    assert_eq!(status(&s.handle_request(get("/"))), 404);
    assert_eq!(status(&s.handle_request(get("/"))), 404);
}

#[test]
fn higher_priority_wins_over_insertion_order() {
    let mut s = state();
    s.register(
        Mock::given(method("GET"))
            .and(path_regex("[a-z]{4}"))
            .respond_with(ResponseTemplate::new(201))
            .with_priority(2),
    );
    s.register(
        Mock::given(method("GET"))
            .and(path("/abcd"))
            .respond_with(ResponseTemplate::new(200))
            .with_priority(1),
    );
    assert_eq!(status(&s.handle_request(get("/abcd"))), 200);
}

#[test]
fn lower_priority_loses() {
    let mut s = state();
    s.register(
        Mock::given(method("GET"))
            .and(path("/abcd"))
            .respond_with(ResponseTemplate::new(200))
            .with_priority(255),
    );
    s.register(
        Mock::given(method("GET")).and(path_regex("[a-z]{4}")).respond_with(ResponseTemplate::new(201)),
    );
    assert_eq!(status(&s.handle_request(get("/abcd"))), 201);
}

#[test]
fn equal_priority_uses_insertion_order() {
    let mut s = state();
    s.register(Mock::given(any()).respond_with(ResponseTemplate::new(201)));
    s.register(Mock::given(any()).respond_with(ResponseTemplate::new(200)));
    assert_eq!(status(&s.handle_request(get("/abcd"))), 201);
    assert_eq!(status(&s.handle_request(get("/abcd"))), 201);
}

#[test]
fn exhausted_mock_gives_way_to_the_next() {
    let mut s = state();
    s.register(Mock::given(any()).respond_with(ResponseTemplate::new(201)).up_to_n_times(2));
    s.register(Mock::given(any()).respond_with(ResponseTemplate::new(202)));
    assert_eq!(status(&s.handle_request(get("/"))), 201);
    assert_eq!(status(&s.handle_request(get("/"))), 201);
    assert_eq!(status(&s.handle_request(get("/"))), 202);
}

#[test]
fn expectation_met_means_no_failure() {
    let mut s = state();
    s.register(Mock::given(method("GET")).respond_with(ResponseTemplate::new(200)).expect(Times::from(1..)));
    s.handle_request(get("/"));
    assert!(s.verification_failure().is_none());
}

#[test]
fn named_expectation_failure_lists_name_range_count_and_request() {
    let mut s = state();
    s.register(
        Mock::given(method("POST"))
            .respond_with(ResponseTemplate::new(200))
            .expect(Times::from(1..))
            .named("POST expected"),
    );
    s.handle_request(get("/"));
    let message = s.verification_failure().unwrap();
    assert!(message.contains("POST expected"));
    assert!(message.contains("1 <= x"));
    assert!(message.contains("0"));
    assert!(message.contains("GET http://localhost/"));
    assert_eq!(
        message,
        "Verifications failed:\n- POST expected.\n\tExpected range of matching incoming requests: 1 <= x\n\tNumber of matched incoming requests: 0\n\nReceived requests:\n- Request #1\n\tGET http://localhost/\n\n"
    );
}

#[test]
fn failure_without_recording_says_how_to_enable_it() {
    let mut s = MockServerState::new(false, BodyPrintLimit::Unlimited);
    s.register(Mock::given(any()).respond_with(ResponseTemplate::new(200)).expect(Times::from(1)));
    let message = s.verification_failure().unwrap();
    assert_eq!(
        message,
        "Verifications failed:\n- Mock #0.\n\tExpected range of matching incoming requests: == 1\n\tNumber of matched incoming requests: 0\n\nEnable request recording on the mock server to get the list of incoming requests as part of the panic message."
    );
    assert!(s.received_requests().is_none());
}

#[test]
fn failure_with_no_requests_says_so() {
    let mut s = state();
    s.register(Mock::given(any()).respond_with(ResponseTemplate::new(200)).expect(Times::from(1)));
    let message = s.verification_failure().unwrap();
    assert!(message.ends_with("\nThe server did not receive any request."));
}

#[test]
fn received_requests_are_listed_in_arrival_order() {
    let mut s = state();
    s.register(Mock::given(method("PUT")).respond_with(ResponseTemplate::new(200)).expect(Times::from(1)));
    s.handle_request(get("/first"));
    s.handle_request(post("/second"));
    let message = s.verification_failure().unwrap();
    let first = message.find("- Request #1\n\tGET http://localhost/first\n").unwrap();
    let second = message.find("- Request #2\n\tPOST http://localhost/second\n").unwrap();
    assert!(first < second);
}

#[test]
fn scoped_mock_is_deactivated_when_satisfied() {
    let mut s = state();
    let id = s.register(Mock::given(method("GET")).respond_with(ResponseTemplate::new(200)).expect(Times::from(1)));
    assert_eq!(status(&s.handle_request(get("/"))), 200);
    assert!(s.verify_scoped(id).is_none());
    assert_eq!(status(&s.handle_request(get("/"))), 404);
}

#[test]
fn unsatisfied_scoped_mock_gives_a_diagnostic_and_stays() {
    let mut s = state();
    let id = s.register(Mock::given(method("GET")).respond_with(ResponseTemplate::new(200)).expect(Times::from(2)));
    s.handle_request(get("/"));
    let message = s.verify_scoped(id).unwrap();
    assert_eq!(
        message,
        "Verification failed for a scoped mock:\n- Mock #0.\n\tExpected range of matching incoming requests: == 2\n\tNumber of matched incoming requests: 1\n\nReceived requests:\n- Request #1\n\tGET http://localhost/\n\n"
    );
    assert_eq!(status(&s.handle_request(get("/"))), 200);
}

#[test]
fn satisfaction_flag_rises_with_the_match() {
    let mut s = state();
    let id = s.register(Mock::given(method("GET")).respond_with(ResponseTemplate::new(200)).expect(Times::from(1)));
    assert!(!s.is_satisfied(id));
    s.handle_request(get("/"));
    assert!(s.is_satisfied(id));
    s.handle_request(get("/"));
    assert!(s.is_satisfied(id));
}

#[test]
fn delay_is_handed_back_not_applied() {
    let mut s = state();
    s.register(
        Mock::given(path("/slow"))
            .respond_with(ResponseTemplate::new(200).set_delay(Duration::from_secs(1))),
    );
    s.register(Mock::given(path("/fast")).respond_with(ResponseTemplate::new(200)));
    match s.handle_request(get("/slow")) {
        Reply::Response(r, delay) => {
            assert_eq!(r.status, 200);
            assert_eq!(delay, Some(Duration::from_secs(1)));
        }
        Reply::Error(_) => panic!("expected a response"),
    }
    match s.handle_request(get("/fast")) {
        Reply::Response(r, delay) => {
            assert_eq!(r.status, 200);
            assert_eq!(delay, None);
        }
        Reply::Error(_) => panic!("expected a response"),
    }
}

#[test]
fn error_responder_gives_an_error() {
    let mut s = state();
    s.register(Mock::given(any()).respond_with_err("connection reset".to_string()));
    match s.handle_request(get("/")) {
        Reply::Error(m) => assert_eq!(m, "connection reset"),
        Reply::Response(_, _) => panic!("expected an error"),
    }
}

#[test]
fn reset_clears_mocks_and_recording() {
    let mut s = state();
    let id = s.register(Mock::given(any()).respond_with(ResponseTemplate::new(200)).expect(Times::from(3)));
    s.handle_request(get("/"));
    assert!(s.verification_failure().is_some());
    s.reset();
    assert!(s.verification_failure().is_none());
    assert_eq!(s.received_requests().unwrap().len(), 0);
    assert!(!s.is_valid_id(id));
    assert_eq!(status(&s.handle_request(get("/"))), 404);
}

#[test]
fn two_states_do_not_share_anything() {
    let mut a = state();
    let mut b = state();
    let id_a = a.register(Mock::given(any()).respond_with(ResponseTemplate::new(200)));
    let id_b = b.register(Mock::given(any()).respond_with(ResponseTemplate::new(200)));
    a.handle_request(get("/"));
    assert_eq!(a.mock_received_requests(id_a).len(), 1);
    assert_eq!(b.mock_received_requests(id_b).len(), 0);
    assert_eq!(b.received_requests().unwrap().len(), 0);
}

#[test]
fn mock_records_the_requests_it_matched() {
    let mut s = state();
    let id = s.register(Mock::given(method("POST")).respond_with(ResponseTemplate::new(200)));
    s.handle_request(post("/first"));
    s.handle_request(get("/other"));
    s.handle_request(post("/second"));
    let seen = s.mock_received_requests(id);
    assert_eq!(seen.len(), 2);
    assert_eq!(seen[0].path(), "/first");
    assert_eq!(seen[1].path(), "/second");
}
