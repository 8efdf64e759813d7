use ricochet_cli::update::Platform;
use ricochet_cli::update::UpdateCache;
use ricochet_cli::update::binary_name_in_tarball;
use ricochet_cli::update::download_url;
use ricochet_cli::update::is_newer;
use ricochet_cli::update::next_failure_count;
use ricochet_cli::update::parse_version;
use ricochet_cli::update::release_notes_url;
use ricochet_cli::update::should_check_again;
use ricochet_cli::update::should_disable_checks;
use ricochet_cli::update::should_suppress_checks;
use ricochet_cli::update::version_from_tag;

#[test]
fn test_is_newer_basic() {
    assert!(is_newer("0.3.0", "0.4.0"));
    assert!(is_newer("0.3.0", "0.3.1"));
    assert!(is_newer("0.3.0", "1.0.0"));
    assert!(!is_newer("0.3.0", "0.3.0"));
    assert!(!is_newer("0.4.0", "0.3.0"));
}

#[test]
fn test_is_newer_double_digit() {
    assert!(is_newer("0.9.0", "0.10.0"));
    assert!(!is_newer("0.10.0", "0.9.0"));
}

#[test]
fn test_is_newer_with_prerelease() {
    assert!(is_newer("0.3.0-abc1234", "0.4.0"));
    assert!(!is_newer("0.4.0", "0.3.0-abc1234"));
}

#[test]
fn test_is_newer_unparseable_returns_false() {
    assert!(!is_newer("0.3.0", "garbage"));
    assert!(!is_newer("garbage", "0.4.0"));
    assert!(!is_newer("garbage", "also-garbage"));
}

#[test]
fn test_release_notes_url() {
    assert_eq!(
        release_notes_url("0.4.0"),
        "https://github.com/ricochet-rs/cli/releases/tag/v0.4.0"
    );
}

#[test]
fn test_parse_version_segments() {
    assert_eq!(parse_version("0.3.0"), Some((0, 3, 0)));
    assert_eq!(parse_version("10.20.30"), Some((10, 20, 30)));
    // Everything after the first dash is cut
    assert_eq!(parse_version("1.2.3-rc.4"), Some((1, 2, 3)));
    // Unparseable segments are skipped, the rest still counts
    assert_eq!(parse_version("1.x.2.3"), Some((1, 2, 3)));
    // Fewer than three numeric segments is no version
    assert_eq!(parse_version("1.2"), None);
    assert_eq!(parse_version(""), None);
    // Leading zeros are plain decimal
    assert_eq!(parse_version("007.08.009"), Some((7, 8, 9)));
    // A segment beyond u64 range is dropped like any other bad segment
    assert_eq!(parse_version("99999999999999999999999.1.2.3"), Some((1, 2, 3)));
}

#[test]
fn test_version_from_tag_strips_leading_v() {
    assert_eq!(version_from_tag("v0.4.0"), "0.4.0");
    assert_eq!(version_from_tag("0.4.0"), "0.4.0");
    assert_eq!(version_from_tag("vv1.0.0"), "1.0.0");
    assert_eq!(version_from_tag(""), "");
}

#[test]
fn test_update_cache_for_version() {
    let cache = UpdateCache::for_version("0.4.0".to_string(), 1_700_000_000);
    assert_eq!(cache.latest_version, "0.4.0");
    assert_eq!(cache.last_checked_unix, 1_700_000_000);
    assert_eq!(cache.consecutive_failures, 0);

    assert!(cache.is_update_available("0.3.0"));
    assert!(!cache.is_update_available("0.4.0"));
    assert!(!cache.is_update_available("0.5.0"));
}

#[test]
fn test_should_check_again() {
    // No cache at all: a check is due
    assert!(should_check_again(None, 1_700_000_000));

    let cache = UpdateCache::for_version("0.4.0".to_string(), 1_700_000_000);
    // Fresh cache: not due
    assert!(!should_check_again(Some(&cache), 1_700_000_100));
    // A day later: due
    assert!(should_check_again(Some(&cache), 1_700_000_000 + 86_400));
    // Clock moved backwards a day: also due
    assert!(should_check_again(Some(&cache), 1_700_000_000 - 86_400));
}

#[test]
fn test_failure_counting_and_disable() {
    assert_eq!(next_failure_count(0), 1);
    assert_eq!(next_failure_count(2), 3);
    assert_eq!(next_failure_count(u32::MAX), u32::MAX);

    assert!(!should_disable_checks(0));
    assert!(!should_disable_checks(2));
    assert!(should_disable_checks(3));
    assert!(should_disable_checks(7));
}

#[test]
fn test_should_suppress_checks() {
    assert!(!should_suppress_checks(None, None, false, false));
    assert!(should_suppress_checks(Some(true), None, false, false));
    assert!(!should_suppress_checks(Some(false), None, false, false));
    // The opt-out variable counts only when it holds anything
    assert!(should_suppress_checks(None, Some("1"), false, false));
    assert!(!should_suppress_checks(None, Some(""), false, false));
    // A CI variable counts by mere presence
    assert!(should_suppress_checks(None, None, true, false));
    assert!(should_suppress_checks(None, None, false, true));
}

#[test]
fn test_download_url_per_platform() {
    assert_eq!(
        download_url("0.4.0", Platform::LinuxX64).unwrap(),
        "https://github.com/ricochet-rs/cli/releases/download/v0.4.0/ricochet-0.4.0-linux-x86_64.tar.gz"
    );
    assert_eq!(
        download_url("0.4.0", Platform::LinuxArm64).unwrap(),
        "https://github.com/ricochet-rs/cli/releases/download/v0.4.0/ricochet-0.4.0-linux-aarch64.tar.gz"
    );
    assert_eq!(
        download_url("0.4.0", Platform::WindowsX64).unwrap(),
        "https://github.com/ricochet-rs/cli/releases/download/v0.4.0/ricochet-0.4.0-windows-x86_64.exe.tar.gz"
    );
    assert_eq!(
        download_url("0.4.0", Platform::MacosArm64).unwrap(),
        "https://hel1.your-objectstorage.com/ricochet-cli/v0.4.0/ricochet-0.4.0-darwin-arm64.tar.gz"
    );
    assert_eq!(
        download_url("0.4.0", Platform::MacosX64).unwrap(),
        "https://hel1.your-objectstorage.com/ricochet-cli/v0.4.0/ricochet-0.4.0-darwin-x86_64.tar.gz"
    );
    assert!(download_url("0.4.0", Platform::Other).is_none());
}

#[test]
fn test_binary_name_in_tarball_per_platform() {
    assert_eq!(
        binary_name_in_tarball("0.4.0", Platform::LinuxX64).unwrap(),
        "ricochet-0.4.0-linux-x86_64"
    );
    assert_eq!(
        binary_name_in_tarball("0.4.0", Platform::WindowsX64).unwrap(),
        "ricochet-0.4.0-windows-x86_64.exe"
    );
    // macOS bottles nest the binary
    assert_eq!(
        binary_name_in_tarball("0.4.0", Platform::MacosArm64).unwrap(),
        "ricochet/0.4.0/bin/ricochet"
    );
    assert!(binary_name_in_tarball("0.4.0", Platform::Other).is_none());
}
