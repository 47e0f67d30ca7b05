use pixhub::config::{Config, CorsOrigins, EnvVars};

fn nothing_set() -> EnvVars {
    EnvVars {
        host: None,
        port: None,
        resources: None,
        storage_name: None,
        allow_empty_referer: None,
        referers: None,
        cors_origin: None,
        rate_limit_window: None,
        rate_limit_max: None,
        log_level: None,
    }
}

#[test]
fn defaults_hold_where_nothing_is_set() {
    let vars = nothing_set();
    assert!(vars.window_fits());
    let config = Config::from_env(&vars);
    assert_eq!(config.host, "0.0.0.0");
    assert_eq!(config.port, 3000);
    assert_eq!(config.resources, "./resources");
    assert_eq!(config.storage_name, None);
    assert!(!config.allow_empty_referer);
    assert_eq!(config.allowed_referers, Vec::<String>::new());
    assert_eq!(config.cors_origin, "http://localhost:3000");
    assert_eq!(config.rate_limit_window_secs, 900);
    assert_eq!(config.rate_limit_max, 100);
    assert_eq!(config.log_level, "info");
    assert_eq!(config.pixiv_root(), "./resources/pixiv");
    assert_eq!(config.plus_root(), "./resources/plus");
    assert_eq!(config.db_path(), "./data/cache.db");
    assert_eq!(config.log_dir(), "./data/logs");
    assert_eq!(config.listen_address(), "0.0.0.0:3000");
}

#[test]
fn variables_are_taken() {
    let mut vars = nothing_set();
    vars.host = Some("127.0.0.1".to_string());
    vars.port = Some("8080".to_string());
    vars.resources = Some("/srv/media/".to_string());
    vars.storage_name = Some("east".to_string());
    vars.allow_empty_referer = Some("true".to_string());
    vars.referers = Some("https://a.example , ,https://b.example".to_string());
    vars.rate_limit_window = Some("2".to_string());
    vars.rate_limit_max = Some("7".to_string());
    vars.log_level = Some("debug".to_string());
    let config = Config::from_env(&vars);
    assert_eq!(config.port, 8080);
    assert_eq!(config.storage_name.as_deref(), Some("east"));
    assert!(config.allow_empty_referer);
    assert_eq!(config.allowed_referers, vec!["https://a.example", "https://b.example"]);
    assert_eq!(config.rate_limit_window_secs, 120);
    assert_eq!(config.rate_limit_max, 7);
    assert_eq!(config.log_level, "debug");
    assert_eq!(config.pixiv_root(), "/srv/media/pixiv");
    assert_eq!(config.listen_address(), "127.0.0.1:8080");
}

#[test]
fn numbers_out_of_range_fall_back() {
    let mut vars = nothing_set();
    vars.port = Some("65536".to_string());
    vars.rate_limit_max = Some("4294967296".to_string());
    vars.rate_limit_window = Some("soon".to_string());
    vars.allow_empty_referer = Some("TRUE".to_string());
    let config = Config::from_env(&vars);
    assert_eq!(config.port, 3000);
    assert_eq!(config.rate_limit_max, 100);
    assert_eq!(config.rate_limit_window_secs, 900);
    assert!(!config.allow_empty_referer);
}

#[test]
fn a_window_that_is_too_long_does_not_fit() {
    let mut vars = nothing_set();
    vars.rate_limit_window = Some("307445734561825860".to_string());
    assert!(vars.window_fits());
    vars.rate_limit_window = Some("307445734561825861".to_string());
    assert!(!vars.window_fits());
}

#[test]
fn one_origin_is_exact_and_more_are_a_list() {
    let mut vars = nothing_set();
    vars.cors_origin = Some(" http://a ,".to_string());
    match Config::from_env(&vars).cors_origins() {
        CorsOrigins::Exact(origin) => assert_eq!(origin, "http://a"),
        CorsOrigins::List(_) => panic!("a list"),
    }
    vars.cors_origin = Some("http://a, http://b".to_string());
    match Config::from_env(&vars).cors_origins() {
        CorsOrigins::Exact(_) => panic!("one"),
        CorsOrigins::List(origins) => assert_eq!(origins, vec!["http://a", "http://b"]),
    }
    vars.cors_origin = Some(String::new());
    match Config::from_env(&vars).cors_origins() {
        CorsOrigins::Exact(_) => panic!("one"),
        CorsOrigins::List(origins) => assert!(origins.is_empty()),
    }
}
