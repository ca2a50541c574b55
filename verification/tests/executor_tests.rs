use ping_monitor::ping_executor::{sanitize_hostname, PingExecutor};

#[test]
fn sanitize_strips_port_suffix() {
    assert_eq!(
        sanitize_hostname("example.com:8080"),
        Some("example.com".to_string())
    );
}

#[test]
fn sanitize_keeps_alphanumerics_dots_and_hyphens() {
    assert_eq!(
        sanitize_hostname("my-host.example.com"),
        Some("my-host.example.com".to_string())
    );
    assert_eq!(sanitize_hostname("a!b@c"), Some("abc".to_string()));
    assert_eq!(sanitize_hostname("8.8.8.8"), Some("8.8.8.8".to_string()));
}

#[test]
fn sanitize_handles_unicode_letters() {
    assert_eq!(sanitize_hostname("héllo"), Some("héllo".to_string()));
    assert_eq!(sanitize_hostname("héllo wörld"), Some("héllowörld".to_string()));
}

#[test]
fn sanitize_rejects_empty_results() {
    assert_eq!(sanitize_hostname(""), None);
    assert_eq!(sanitize_hostname("!!!"), None);
    assert_eq!(sanitize_hostname(":80"), None);
    assert_eq!(sanitize_hostname("   "), None);
}

#[test]
fn lookup_query_appends_service_port() {
    assert_eq!(
        PingExecutor::lookup_query("example.com"),
        "example.com:80".to_string()
    );
}

#[test]
fn prepare_resolution_sanitizes_then_builds_query() {
    assert_eq!(
        PingExecutor::prepare_resolution("example.com:443"),
        Some("example.com:80".to_string())
    );
    assert_eq!(PingExecutor::prepare_resolution("@@@"), None);
}
