use axum::http::{HeaderMap, HeaderValue};
use pixhub::config::Config;
use pixhub::range::{cut_part, is_inverted, label_part, plan_range, RangePlan};
use pixhub::request::{
    check_referer, content_type_for_ext, get_host, get_session_id, sanitize_search_term,
    validate_referer,
};

fn headers(pairs: &[(&'static str, &'static str)]) -> HeaderMap<HeaderValue> {
    let mut map = HeaderMap::new();
    for (name, value) in pairs {
        map.append(*name, HeaderValue::from_static(value));
    }
    map
}

fn config(allowed: &[&str], allow_empty: bool) -> Config {
    Config {
        host: "h".to_string(),
        port: 1,
        resources: "r".to_string(),
        storage_name: None,
        allow_empty_referer: allow_empty,
        allowed_referers: allowed.iter().map(|s| s.to_string()).collect(),
        cors_origin: String::new(),
        rate_limit_window_secs: 1,
        rate_limit_max: 1,
        log_level: "info".to_string(),
    }
}

#[test]
fn links_begin_with_what_the_visitor_asked() {
    assert_eq!(get_host(&headers(&[])), "http://localhost");
    assert_eq!(get_host(&headers(&[("host", "a:3000")])), "http://a:3000");
    assert_eq!(
        get_host(&headers(&[
            ("x-forwarded-proto", " https , http"),
            ("x-forwarded-host", "b"),
            ("host", "a"),
        ])),
        "https://b"
    );
    assert_eq!(get_host(&headers(&[("x-forwarded-proto", "")])), "://localhost");
}

#[test]
fn a_host_that_is_no_text_is_not_used() {
    let mut map = headers(&[("host", "a")]);
    map.insert("x-forwarded-host", HeaderValue::from_bytes(&[0xff, 0x41]).unwrap());
    assert_eq!(get_host(&map), "http://localhost");
}

#[test]
fn the_first_of_several_values_counts() {
    let map = headers(&[("host", "first"), ("host", "second")]);
    assert_eq!(get_host(&map), "http://first");
}

#[test]
fn pages_that_may_ask_are_told_by_their_beginning() {
    let c = config(&["https://a.example"], false);
    assert!(check_referer(&headers(&[("referer", "https://a.example/x")]), &c));
    assert!(!check_referer(&headers(&[("referer", "https://b.example")]), &c));
    assert!(!check_referer(&headers(&[("referer", "https://a")]), &c));
    assert!(!check_referer(&headers(&[]), &c));
    assert!(check_referer(&headers(&[]), &config(&["https://a.example"], true)));
    assert!(check_referer(&headers(&[("referer", "anything")]), &config(&[], false)));
}

#[test]
fn a_page_that_may_not_ask_is_told_so() {
    let c = config(&["https://a"], false);
    let e = validate_referer(&headers(&[("referer", "https://b")]), &c).unwrap_err();
    assert_eq!(e.status_code, 403);
    assert_eq!(e.error_code, "REFERER_FORBIDDEN");
    assert_eq!(e.message, "访问被拒绝，请检查referer设置");
    assert_eq!(e.details["referer"], "https://b");
    assert_eq!(e.details["allowedReferers"][0], "https://a");
    assert_eq!(e.details["allowedReferers"].as_array().unwrap().len(), 1);
    assert_eq!(e.details["allowEmpty"], false);
    let e = validate_referer(&headers(&[]), &c).unwrap_err();
    assert_eq!(e.details["referer"], "空");
    assert!(validate_referer(&headers(&[("referer", "https://a/")]), &c).is_ok());
}

#[test]
fn sessions_are_named_in_query_header_or_cookie() {
    let all = headers(&[("x-session-id", "h"), ("cookie", "sessionId=c")]);
    assert_eq!(get_session_id(&all, Some("q")), Some("q".to_string()));
    assert_eq!(get_session_id(&all, None), Some("h".to_string()));
    let cookie = headers(&[("cookie", "theme=dark;  sessionId=abc=1; sessionId=z")]);
    assert_eq!(get_session_id(&cookie, None), Some("abc=1".to_string()));
    assert_eq!(get_session_id(&headers(&[("cookie", "xsessionId=1")]), None), None);
    assert_eq!(get_session_id(&headers(&[("cookie", "sessionId=")]), None), Some(String::new()));
    assert_eq!(get_session_id(&headers(&[]), None), None);
}

#[test]
fn terms_lose_their_wildcards() {
    assert_eq!(sanitize_search_term("a_b%c%%夜_"), "abc夜");
    assert_eq!(sanitize_search_term("%_"), "");
    assert_eq!(sanitize_search_term("plain"), "plain");
}

#[test]
fn types_of_pictures_are_told_by_extension() {
    assert_eq!(content_type_for_ext(".jpg"), "image/jpeg");
    assert_eq!(content_type_for_ext(".jpeg"), "image/jpeg");
    assert_eq!(content_type_for_ext(".png"), "image/png");
    assert_eq!(content_type_for_ext(".gif"), "image/gif");
    assert_eq!(content_type_for_ext(".webp"), "image/webp");
    assert_eq!(content_type_for_ext(".bmp"), "image/jpeg");
    assert_eq!(content_type_for_ext(""), "image/jpeg");
}

fn part(range: &str, size: u64) -> Option<(u64, u64, u64)> {
    match plan_range(Some(range), size) {
        RangePlan::Part { start, end, last } => Some((start, end, last)),
        _ => None,
    }
}

#[test]
fn parts_are_planned() {
    assert_eq!(part("bytes=0-3", 10), Some((0, 3, 3)));
    assert_eq!(part("bytes=4-", 10), Some((4, 9, 9)));
    assert_eq!(part("bytes=-4", 10), Some((0, 4, 4)));
    assert_eq!(part("bytes=2-99", 10), Some((2, 99, 9)));
    assert_eq!(part("bytes=5", 10), Some((5, 9, 9)));
    assert_eq!(part("bytes=x-y", 10), Some((0, 9, 9)));
    assert_eq!(part("bytes=1-2-3", 10), Some((1, 2, 2)));
    assert_eq!(part("bytes=1-2,4-5", 10), Some((1, 9, 9)));
    assert!(matches!(plan_range(None, 10), RangePlan::Whole));
    assert!(matches!(plan_range(Some("lines=0-3"), 10), RangePlan::Whole));
}

#[test]
fn parts_behind_the_end_are_not_to_be_had() {
    assert!(matches!(plan_range(Some("bytes=10-"), 10), RangePlan::Unsatisfiable));
    assert!(matches!(plan_range(Some("bytes=0-0"), 0), RangePlan::Unsatisfiable));
    assert!(matches!(plan_range(Some("bytes=11-3"), 10), RangePlan::Unsatisfiable));
}

#[test]
fn inverted_parts_are_told() {
    assert!(is_inverted(Some("bytes=5-4"), 10));
    assert!(!is_inverted(Some("bytes=5-5"), 10));
    assert!(!is_inverted(Some("bytes=11-3"), 10));
    assert!(!is_inverted(None, 10));
    assert!(!is_inverted(Some("bytes=0-"), 0));
}

#[test]
fn parts_are_cut_and_labelled() {
    assert_eq!(cut_part(&vec![1, 2, 3, 4, 5], 1, 3), vec![2, 3, 4]);
    assert_eq!(cut_part(&vec![1, 2], 1, 1), vec![2]);
    assert_eq!(label_part(2, 99, 10), "bytes 2-99/10");
}
