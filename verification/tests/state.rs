use better_im::state::{is_openable_url, is_permission_error, map_sync_err};

#[test]
fn permission_errors_are_recognized_anywhere_in_the_chain() {
    assert!(is_permission_error(&vec!["sync failed".to_string(), "Operation not permitted (os error 1)".to_string()]));
    assert!(is_permission_error(&vec!["unable to open database file".to_string()]));
    assert!(is_permission_error(&vec!["Authorization Denied".to_string()]));
    assert!(!is_permission_error(&vec!["syntax error near \"from\"".to_string()]));
    assert!(!is_permission_error(&vec![]));
}

#[test]
fn sync_errors_are_prefixed_only_for_permissions() {
    let chain = vec!["reading chat.db".to_string(), "permission denied".to_string()];
    assert_eq!(map_sync_err(&chain, "reading chat.db: permission denied"), "FDA_DENIED: reading chat.db: permission denied");
    assert_eq!(map_sync_err(&vec!["boom".to_string()], "boom"), "boom");
}

#[test]
fn only_web_and_mail_urls_open() {
    assert!(is_openable_url("https://example.com"));
    assert!(is_openable_url("http://example.com"));
    assert!(is_openable_url("mailto:a@b.c"));
    assert!(!is_openable_url("file:///etc/passwd"));
    assert!(!is_openable_url("-a Calculator"));
    assert!(!is_openable_url("/Applications/Calculator.app"));
    assert!(!is_openable_url("HTTPS://example.com"));
}

#[test]
fn refused_urls_are_quoted() {
    assert_eq!(better_im::state::open_url_refusal("-a Calculator"), "refusing to open non-web URL: \"-a Calculator\"");
    assert_eq!(better_im::state::fda_denied("no access"), "FDA_DENIED: no access");
}
