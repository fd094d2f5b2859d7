use wings_rs::remote::{
    authorization, backoff_secs, next_page, PageWalk, remote_api_url, should_retry, user_agent, RetryDecision, RetryState,
};

#[test]
fn headers() {
    assert_eq!(user_agent("1.0.0", "abc"), "cyrogopus/v1.0.0 (id:abc)");
    assert_eq!(authorization("abc", "SECRET-REDACTED"), "Bearer abc.SECRET-REDACTED");
}

#[test]
fn remote_url_drops_trailing_slashes() {
    assert_eq!(remote_api_url("https://panel.example.com//"), "https://panel.example.com/api/remote");
    assert_eq!(remote_api_url("https://panel.example.com"), "https://panel.example.com/api/remote");
}

#[test]
fn client_errors_are_not_retried() {
    assert!(!should_retry(Some(404)));
    assert!(!should_retry(Some(400)));
    assert!(!should_retry(Some(499)));
    assert!(should_retry(Some(500)));
    assert!(should_retry(Some(399)));
    assert!(should_retry(None));
}

#[test]
fn retries_back_off_exponentially_until_the_limit() {
    let mut r = RetryState::new(5);
    assert_eq!(r.on_failure(true), RetryDecision::Wait { backoff_secs: 1 });
    assert_eq!(r.on_failure(true), RetryDecision::Wait { backoff_secs: 2 });
    assert_eq!(r.on_failure(true), RetryDecision::Wait { backoff_secs: 4 });
    assert_eq!(r.on_failure(true), RetryDecision::Wait { backoff_secs: 8 });
    assert_eq!(r.on_failure(true), RetryDecision::GiveUp);
}

#[test]
fn backoff_doubles_and_then_holds() {
    assert_eq!(backoff_secs(1), 1);
    assert_eq!(backoff_secs(10), 512);
    assert_eq!(backoff_secs(64), 1 << 63);
    assert_eq!(backoff_secs(65), u64::MAX);
    assert_eq!(backoff_secs(u64::MAX), u64::MAX);
    for f in 1..64u64 {
        assert_eq!(backoff_secs(f + 1), 2 * backoff_secs(f));
    }
}

#[test]
fn failure_not_worth_retrying_gives_up_at_once() {
    let mut r = RetryState::new(10);
    assert_eq!(r.on_failure(false), RetryDecision::GiveUp);
}

#[test]
fn single_attempt_gives_up_after_first_failure() {
    let mut r = RetryState::new(1);
    assert_eq!(r.on_failure(true), RetryDecision::GiveUp);
}

#[test]
fn pages() {
    assert_eq!(next_page(1, 1, 3), Some(2));
    assert_eq!(next_page(3, 3, 3), None);
    assert_eq!(next_page(1, 1, 0), None);
}

#[test]
fn page_walk_joins_pages_in_order() {
    let mut walk = PageWalk::new();
    assert_eq!(walk.next_page(), Some(1));
    walk.accept(vec!["a", "b"], 1, 3);
    assert_eq!(walk.next_page(), Some(2));
    walk.accept(vec![], 2, 3);
    assert_eq!(walk.next_page(), Some(3));
    walk.accept(vec!["c"], 3, 3);
    assert_eq!(walk.next_page(), None);
    assert_eq!(walk.finish(), vec!["a", "b", "c"]);
}

#[test]
fn page_walk_of_one_page() {
    let mut walk = PageWalk::new();
    walk.accept(vec![1, 2], 1, 1);
    assert_eq!(walk.next_page(), None);
    assert_eq!(walk.finish(), vec![1, 2]);
}
