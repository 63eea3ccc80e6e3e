use affine_cli::config::ConfigFile;
use affine_cli::cookies::CookieJar;

fn cf_jar(pairs: &[(&str, &str)]) -> CookieJar {
    let mut jar = CookieJar::new();
    for (k, v) in pairs {
        jar.insert((*k).to_owned(), (*v).to_owned());
    }
    jar
}

#[test]
fn default_config_is_empty() {
    let config = ConfigFile::default();
    assert_eq!(config.server, None);
    assert!(config.cookies.is_empty());
    assert_eq!(config, ConfigFile::new());
}

#[test]
fn clear_session_keeps_the_server() {
    let mut config = ConfigFile::new();
    config.record_sign_in("https://x.io".to_owned(), cf_jar(&[("affine_session", "s")]));
    config.clear_session();
    assert_eq!(config.server, Some("https://x.io".to_owned()));
    assert!(config.cookies.is_empty());
}

#[test]
fn sign_in_without_cookies_keeps_saved_ones() {
    let mut config = ConfigFile::new();
    config.record_sign_in("https://a".to_owned(), cf_jar(&[("affine_session", "s")]));
    config.record_sign_in("https://b".to_owned(), CookieJar::new());
    assert_eq!(config.server, Some("https://b".to_owned()));
    assert_eq!(config.cookies, cf_jar(&[("affine_session", "s")]));
    config.record_sign_out(cf_jar(&[("affine_csrf_token", "c")]));
    assert_eq!(config.server, Some("https://b".to_owned()));
    assert_eq!(config.cookies, cf_jar(&[("affine_csrf_token", "c")]));
}
