use uploader::config::config_file_name;
use uploader::config::normalize_domain;
use uploader::config::resolve_input;
use uploader::config::Config;

#[test]
fn default_config_values() {
    let c = Config::default();
    assert_eq!(c.build_command.as_deref(), Some("npm run build"));
    assert_eq!(c.directory.as_deref(), Some("build"));
    assert!(c.domain.is_none());
    assert!(c.auth.is_none());
}

#[test]
fn default_config_is_not_deploy_ready() {
    let c = Config::default();
    assert!(!c.ready_for_deploy());
}

#[test]
fn fully_set_config_is_deploy_ready() {
    let c = Config {
        build_command: None,
        directory: Some(String::from("dist")),
        domain: Some(String::from("https://example.com")),
        auth: Some(String::from("token")),
    };
    assert!(c.ready_for_deploy());
}

#[test]
fn config_display_shows_fields() {
    let c = Config {
        build_command: Some(String::from("make site")),
        directory: Some(String::from("out")),
        domain: Some(String::from("https://example.com")),
        auth: Some(String::from("secret")),
    };
    assert_eq!(
        c.to_string(),
        "\tDomain: https://example.com,\n\tOutput Directory: out,\n\tBuild Command: make site\n\n"
    );
}

#[test]
fn config_display_marks_missing_fields() {
    let c = Config {
        build_command: None,
        directory: None,
        domain: None,
        auth: None,
    };
    assert_eq!(
        c.to_string(),
        "\tDomain: not set,\n\tOutput Directory: not set,\n\tBuild Command: not set\n\n"
    );
}

#[test]
fn bare_domain_gets_https_scheme() {
    assert_eq!(normalize_domain("example.com"), "https://example.com");
}

#[test]
fn http_domain_is_kept() {
    assert_eq!(normalize_domain("http://example.com"), "http://example.com");
}

#[test]
fn https_domain_is_kept() {
    assert_eq!(normalize_domain("https://example.com"), "https://example.com");
}

#[test]
fn config_file_is_dot_uploader() {
    assert_eq!(config_file_name(), ".uploader");
}

#[test]
fn answer_overrides_default() {
    let default = Some(String::from("build"));
    assert_eq!(resolve_input("  dist \n", &default), Some(String::from("dist")));
}

#[test]
fn empty_answer_takes_default() {
    let default = Some(String::from("build"));
    assert_eq!(resolve_input("\n", &default), Some(String::from("build")));
}

#[test]
fn empty_answer_without_default_resolves_to_nothing() {
    assert_eq!(resolve_input("   \n", &None), None);
}

#[test]
fn unicode_whitespace_is_trimmed() {
    let default = Some(String::from("build"));
    assert_eq!(
        resolve_input("\u{a0}dist\u{a0}\n", &default),
        Some(String::from("dist"))
    );
    assert_eq!(resolve_input("\u{a0}\u{2003}\n", &default), Some(String::from("build")));
}
