use axum::http::{HeaderMap, HeaderValue};
use pixhub::files::FileRow;
use pixhub::rate::RateLimiter;
use pixhub::sessions::{SessionStore, HOUR_NANOS};

const SECOND: u128 = 1_000_000_000;

fn named(filename: &str) -> FileRow {
    let mut row = FileRow::of_dir(Some("1".to_string()));
    row.filename = Some(filename.to_string());
    row
}

#[test]
fn a_window_admits_as_many_as_it_may() {
    let mut limiter = RateLimiter::new(10, 2);
    assert!(limiter.check("a", 0).is_ok());
    assert!(limiter.check("a", 4 * SECOND).is_ok());
    let e = limiter.check("a", 10 * SECOND - 1).unwrap_err();
    assert_eq!(e.status_code, 429);
    assert_eq!(e.error_code, "RATE_LIMIT_EXCEEDED");
    assert_eq!(e.message, "请求过于频繁，请稍后再试");
    assert!(limiter.check("a", 10 * SECOND).is_ok());
    assert!(limiter.check("a", 10 * SECOND).is_err());
    assert!(limiter.check("a", 14 * SECOND).is_ok());
}

#[test]
fn refused_requests_do_not_count() {
    let mut limiter = RateLimiter::new(10, 1);
    assert!(limiter.check("a", SECOND).is_ok());
    for t in 2..11 {
        assert!(limiter.check("a", t * SECOND).is_err());
    }
    assert!(limiter.check("a", 11 * SECOND).is_ok());
}

#[test]
fn keys_are_limited_one_by_one() {
    let mut limiter = RateLimiter::new(10, 1);
    assert!(limiter.check("a", 0).is_ok());
    assert!(limiter.check("b", 0).is_ok());
    assert!(limiter.check("a", 1).is_err());
    assert!(limiter.check("b", 1).is_err());
}

#[test]
fn a_key_is_limited_as_if_it_were_alone() {
    let mut mixed = RateLimiter::new(10, 2);
    let mut alone = RateLimiter::new(10, 2);
    for t in 0..40u128 {
        let key = if t % 3 == 0 { "a" } else { "b" };
        let answer = mixed.check(key, t * SECOND).is_ok();
        if key == "a" {
            assert_eq!(answer, alone.check("a", t * SECOND).is_ok());
        }
    }
}

#[test]
fn a_limit_of_none_admits_none() {
    let mut limiter = RateLimiter::new(10, 0);
    assert!(limiter.check("a", 0).is_err());
    assert!(limiter.check("a", 100 * SECOND).is_err());
}

#[test]
fn new_sessions_have_random_ids() {
    let mut store = SessionStore::new(0);
    let first = store.get_or_create(None, 1).0;
    let second = store.get_or_create(Some("unknown"), 2).0;
    assert_ne!(first, second);
    for id in [&first, &second] {
        assert_eq!(id.len(), 36);
        assert_eq!(id.as_bytes()[14], b'4');
        assert!(matches!(id.as_bytes()[19], b'8' | b'9' | b'a' | b'b'));
        assert!(id.chars().all(|c| c == '-' || c.is_ascii_digit() || ('a'..='f').contains(&c)));
        assert_eq!(id.matches('-').count(), 4);
    }
}

#[test]
fn a_session_is_found_again() {
    let mut store = SessionStore::new(0);
    let (id, session) = store.get_or_create(None, 5);
    assert_eq!(session.last_accessed, 5);
    assert!(session.pixiv.is_none() && session.plus.is_none());
    session.pixiv = Some(named("a.jpg"));
    let (again, session) = store.get_or_create(Some(&id), 9);
    assert_eq!(again, id);
    assert_eq!(session.last_accessed, 9);
    assert_eq!(session.pixiv.as_ref().unwrap().filename.as_deref(), Some("a.jpg"));
}

#[test]
fn a_session_outlives_calls_about_others() {
    let mut store = SessionStore::new(0);
    let (id, session) = store.get_or_create(None, HOUR_NANOS / 2);
    session.pixiv = Some(named("a.jpg"));
    store.get_or_create_as(None, "other".to_string(), HOUR_NANOS / 2 + 1);
    store.set_pixiv("other", Some(named("b.jpg")));
    store.cleanup_if_needed(HOUR_NANOS + 1);
    store.get_or_create(Some("unknown"), HOUR_NANOS + 2);
    store.get_or_create(Some("other"), HOUR_NANOS + 3);
    let now = HOUR_NANOS / 2 + HOUR_NANOS - 1;
    let (again, session) = store.get_or_create(Some(&id), now);
    assert_eq!(again, id);
    assert_eq!(session.pixiv.as_ref().unwrap().filename.as_deref(), Some("a.jpg"));
    assert!(session.plus.is_none());
    let (again, session) = store.get_or_create(Some(&id), now + HOUR_NANOS - 1);
    assert_eq!(again, id);
    assert_eq!(session.pixiv.as_ref().unwrap().filename.as_deref(), Some("a.jpg"));
}

#[test]
fn an_idle_session_that_was_not_taken_out_remembers() {
    let mut store = SessionStore::new(0);
    let (id, session) = store.get_or_create(None, 1);
    session.pixiv = Some(named("a.jpg"));
    store.cleanup_if_needed(HOUR_NANOS);
    // Idle for more than an hour, but the next cleanup is not due yet.
    assert_eq!(store.get_or_create(Some(&id), 2 * HOUR_NANOS - 1).0, id);
    let (again, session) = store.get_or_create(Some(&id), 3 * HOUR_NANOS - 2);
    assert_eq!(again, id);
    assert_eq!(session.pixiv.as_ref().unwrap().filename.as_deref(), Some("a.jpg"));
}

#[test]
fn a_fresh_id_is_used_only_where_the_named_one_is_unknown() {
    let mut store = SessionStore::new(0);
    assert_eq!(store.get_or_create_as(None, "n1".to_string(), 1).0, "n1");
    assert_eq!(store.get_or_create_as(Some("n1"), "n2".to_string(), 2).0, "n1");
    assert_eq!(store.get_or_create_as(Some("n2"), "n3".to_string(), 3).0, "n3");
}

#[test]
fn sessions_go_after_an_hour_without_use() {
    let mut store = SessionStore::new(0);
    store.get_or_create_as(None, "old".to_string(), 1);
    store.get_or_create_as(None, "young".to_string(), 2);
    store.cleanup_if_needed(HOUR_NANOS - 1);
    assert_eq!(store.get_or_create_as(Some("young"), "x".to_string(), HOUR_NANOS - 1).0, "young");
    store.cleanup_if_needed(HOUR_NANOS + 1);
    assert_eq!(store.get_or_create_as(Some("old"), "y".to_string(), HOUR_NANOS + 1).0, "y");
    assert_eq!(store.get_or_create_as(Some("young"), "z".to_string(), HOUR_NANOS + 1).0, "young");
}

#[test]
fn sessions_stay_until_the_next_cleanup() {
    let mut store = SessionStore::new(0);
    store.get_or_create_as(None, "a".to_string(), 1);
    store.cleanup_if_needed(HOUR_NANOS);
    // The store was cleaned just before, so the session outlives its hour.
    assert_eq!(store.get_or_create_as(Some("a"), "b".to_string(), 2 * HOUR_NANOS - 1).0, "a");
}

#[test]
fn pictures_are_put_into_sessions_that_there_are() {
    let mut store = SessionStore::new(0);
    store.get_or_create_as(None, "a".to_string(), 1);
    store.set_pixiv("a", Some(named("p.jpg")));
    store.set_pixiv("b", Some(named("q.jpg")));
    let (_, session) = store.get_or_create_as(Some("a"), "x".to_string(), 2);
    assert_eq!(session.pixiv.as_ref().unwrap().filename.as_deref(), Some("p.jpg"));
    assert_eq!(store.get_or_create_as(Some("b"), "y".to_string(), 2).0, "y");
}

#[test]
fn requests_get_the_session_that_they_name() {
    let mut store = SessionStore::new(0);
    let id = store.get_or_create(None, 1).0;
    let mut headers: HeaderMap<HeaderValue> = HeaderMap::new();
    headers.insert("x-session-id", HeaderValue::from_str(&id).unwrap());
    assert_eq!(store.get_for_request(&headers, None, 2).0, id);
    assert_ne!(store.get_for_request(&headers, Some("other"), 3).0, id);
}
