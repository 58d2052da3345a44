use proxy_cache::config::Config;

fn sample() -> Config {
    Config::new(
        "http://127.0.0.1:9000/".to_string(),
        "/var/lib/proxy/db".to_string(),
        120,
        "0.0.0.0:8080".to_string(),
    )
}

#[test]
fn config_returns_what_it_was_given() {
    let config = sample();
    assert_eq!(config.upstream(), "http://127.0.0.1:9000/");
    assert_eq!(config.cache_directory(), "/var/lib/proxy/db");
    assert_eq!(config.expire_time(), 120);
    assert_eq!(config.bind(), "0.0.0.0:8080");
}

#[test]
fn config_keeps_fields_apart() {
    let config = Config::new("a".to_string(), "b".to_string(), 0, "c".to_string());
    assert_eq!(config.upstream(), "a");
    assert_eq!(config.cache_directory(), "b");
    assert_eq!(config.expire_time(), 0);
    assert_eq!(config.bind(), "c");
}

#[test]
fn config_clone_is_equal() {
    let config = sample();
    assert_eq!(config.clone(), config);
    assert_eq!(config.clone().expire_time(), u64::from(120u8));
}

#[test]
fn config_takes_the_largest_lifetime() {
    let config = Config::new(String::new(), String::new(), u64::MAX, String::new());
    assert_eq!(config.expire_time(), u64::MAX);
    assert_eq!(config.upstream(), "");
}
