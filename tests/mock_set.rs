use wiremock::matchers::path;
use wiremock::mock::Mock;
use wiremock::mock_set::{MountedMockSet, MountedMockState};
use wiremock::request::BodyPrintLimit;
use wiremock::response_template::ResponseTemplate;

fn test_mock_set() -> MountedMockSet {
    MountedMockSet::new(BodyPrintLimit::Unlimited)
}

#[test]
fn generation_is_incremented_for_every_reset() {
    let mut set = test_mock_set();
    assert_eq!(set.generation(), 0);

    for i in 1..10 {
        set.reset();
        assert_eq!(set.generation(), i);
    }
}

#[test]
fn deactivating_a_mock_does_not_invalidate_other_ids() {
    let mut set = test_mock_set();
    let first_mock = Mock::given(path("/")).respond_with(ResponseTemplate::new(200));
    let second_mock = Mock::given(path("/hello")).respond_with(ResponseTemplate::new(500));
    let first_mock_id = set.register(first_mock);
    let second_mock_id = set.register(second_mock);

    set.deactivate(first_mock_id);

    assert_eq!(set.state(first_mock_id), MountedMockState::OutOfScope);
    assert_eq!(set.state(second_mock_id), MountedMockState::InScope);
}

#[test]
fn ids_from_an_earlier_generation_are_rejected() {
    let mut set = test_mock_set();
    let id = set.register(Mock::given(path("/")).respond_with(ResponseTemplate::new(200)));
    assert!(set.is_valid_id(id));
    set.reset();
    assert!(!set.is_valid_id(id));
    assert_eq!(set.len(), 0);
}
