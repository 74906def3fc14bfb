use belarc_inventory::setup::{config_value, is_loopback_url};

#[test]
fn reads_server_url_with_utf8_bom() {
    let text = "\u{feff}server_url = \"http://127.0.0.1\"\nagent_token = \"abc\"\n";
    assert_eq!(
        config_value(text, "server_url").as_deref(),
        Some("http://127.0.0.1")
    );
    assert_eq!(config_value(text, "agent_token").as_deref(), Some("abc"));
}

#[test]
fn identifies_supported_loopback_urls() {
    assert!(is_loopback_url("http://127.0.0.1"));
    assert!(is_loopback_url("http://localhost:8080/"));
    assert!(is_loopback_url("http://[::1]:8080"));
    assert!(!is_loopback_url("http://192.0.2.10"));
}
