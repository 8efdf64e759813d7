use ricochet_cli::auth_pages::create_error_page;
use ricochet_cli::auth_pages::create_session_page;
use ricochet_cli::auth_pages::create_success_page;
use ricochet_cli::utils::truncate_string;
use ricochet_cli::utils::u64_to_string;

#[test]
fn test_create_success_page_contents() {
    let page = create_success_page();
    assert!(page.starts_with("<!DOCTYPE html>"));
    assert!(page.contains("Authentication Successful"));
    assert!(page.contains("API Key Received"));
    assert!(page.contains("--background"));
    assert!(page.contains("You can close this window"));
}

#[test]
fn test_create_session_page_contents() {
    let page = create_session_page();
    assert!(page.starts_with("<!DOCTYPE html>"));
    assert!(page.contains("Authentication Successful"));
    assert!(page.contains("Session Established"));
}

#[test]
fn test_create_error_page_contents() {
    let page = create_error_page("access_denied");
    assert!(page.starts_with("<!DOCTYPE html>"));
    assert!(page.contains("Authentication Failed"));
    assert!(page.contains("access_denied"));
}

#[test]
fn test_create_error_page_escapes_markup() {
    let page = create_error_page("<script>alert('x')</script> & more");
    // The hostile text is escaped, not echoed as markup
    assert!(!page.contains("<script>alert"));
    assert!(page.contains("&lt;script&gt;alert('x')&lt;/script&gt; &amp; more"));
}

#[test]
fn test_truncate_string_short_and_long() {
    assert_eq!(truncate_string("short", 10), "short");
    assert_eq!(truncate_string("exactly-ten", 11), "exactly-ten");
    assert_eq!(truncate_string("a-rather-long-name", 10), "a-rathe...");
    assert_eq!(truncate_string("abc", 3), "abc");
    assert_eq!(truncate_string("abcd", 3), "...");
}

#[test]
fn test_u64_to_string_renders_decimal() {
    assert_eq!(u64_to_string(0), "0");
    assert_eq!(u64_to_string(42), "42");
    assert_eq!(u64_to_string(18446744073709551615), "18446744073709551615");
}
