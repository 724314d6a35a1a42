use skills_man::error::decimal_string;
use skills_man::prompt::{is_affirmative, reply_is_yes};
use skills_man::transport::{proxy_variables, token_variables, TransportConfig};
use skills_man::{confirm_action, confirm_action_or_yes, SkillsError};

#[test]
fn replies_meaning_yes() {
    assert!(is_affirmative("y"));
    assert!(is_affirmative("yes"));
    assert!(!is_affirmative("Y"));
    assert!(!is_affirmative("yes please"));
    assert!(reply_is_yes("  YES \n"));
    assert!(reply_is_yes("y\n"));
    assert!(!reply_is_yes("\n"));
    assert!(!reply_is_yes("no"));
}

#[test]
fn confirmation_without_terminal_is_no() {
    assert!(!confirm_action(false, "yes"));
    assert!(confirm_action(true, "Yes\n"));
    assert!(!confirm_action(true, ""));
}

#[test]
fn confirmation_with_yes_flag() {
    assert!(confirm_action_or_yes(true, false, ""));
    assert!(!confirm_action_or_yes(false, false, "y"));
    assert!(confirm_action_or_yes(false, true, " y "));
}

#[test]
fn transport_settings_take_first_non_blank_value() {
    assert_eq!(proxy_variables()[0], "HTTPS_PROXY");
    assert_eq!(proxy_variables().len(), 6);
    assert_eq!(token_variables(), vec!["GITHUB_TOKEN", "GH_TOKEN"]);
    let proxies = vec![None, Some("   ".to_string()), Some(" http://proxy:8080 ".to_string()), Some("http://other".to_string())];
    let tokens = vec![None, None];
    let t = TransportConfig::from_values(&proxies, &tokens);
    assert_eq!(t.proxy.as_deref(), Some("http://proxy:8080"));
    assert_eq!(t.token, None);
}

#[test]
fn error_messages() {
    assert_eq!(
        SkillsError::HttpError { status: 500, message: "https://x".to_string() }.message(),
        "HTTP error 500: https://x"
    );
    assert!(SkillsError::InvalidUrl("u".to_string()).message().ends_with("\nGot: u"));
    assert!(SkillsError::PathNotFound("skills/foo".to_string()).message().starts_with("Path 'skills/foo' not found"));
    let m = SkillsError::BatchInstallationFailed { successful: 3, failed: vec!["a".to_string(), "b".to_string()] }.message();
    assert!(m.ends_with("Installed: 3\nFailed:\n  - a\n  - b"));
    assert!(SkillsError::Forbidden.message().contains("HTTP 403"));
}

#[test]
fn decimal_rendering() {
    assert_eq!(decimal_string(0), "0");
    assert_eq!(decimal_string(7), "7");
    assert_eq!(decimal_string(429), "429");
    assert_eq!(decimal_string(18446744073709551615), "18446744073709551615");
}
