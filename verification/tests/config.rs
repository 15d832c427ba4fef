use url_shortener::config::Config;

#[test]
fn base_url_defaults_to_localhost() {
    let config = Config::new("postgres://localhost/urls".to_string(), None);
    assert_eq!(config.database_url, "postgres://localhost/urls");
    assert_eq!(config.base_url, "http://127.0.0.1:3000");
}

#[test]
fn configured_base_url_is_used() {
    let config = Config::new("postgres://localhost/urls".to_string(), Some("https://sho.rt".to_string()));
    assert_eq!(config.base_url, "https://sho.rt");
}
