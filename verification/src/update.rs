//! Version comparison and the bookkeeping of background update checks.
//!
//! The embedding binary fetches release metadata and reads or writes the
//! on-disk cache; this module decides everything else: whether one version
//! string is newer than another (the exact segment-wise parse, including how
//! unparseable input is treated), whether a check is due or suppressed, how
//! the failure counter evolves, and which archive URL and archived binary
//! name belong to each build target.

use vstd::prelude::*;
use vstd::string::StrSliceExecFns;
use vstd::string::StringExecFns;
use crate::auth::env_var_set;
use crate::config::opt_str_view;

verus! {

/// How long a cached check result is trusted, in seconds.
pub const CHECK_INTERVAL_SECS: u64 = 60 * 60 * 24;

/// Consecutive fetch failures after which checks are switched off.
pub const MAX_CONSECUTIVE_FAILURES: u32 = 3;

/// Page with the notes of one release.
pub const RELEASE_NOTES_BASE: &'static str = "https://github.com/ricochet-rs/cli/releases/tag";

pub open spec fn is_digit(c: char) -> bool {
    '0' <= c && c <= '9'
}

pub open spec fn all_digits(s: Seq<char>) -> bool {
    forall|i: int| 0 <= i < s.len() ==> is_digit(s[i])
}

/// Numeric value of a digit string (meaningful only when `all_digits`).
pub open spec fn digits_value(s: Seq<char>) -> int
    decreases s.len(),
{
    if s.len() == 0 {
        0
    } else {
        digits_value(s.drop_last()) * 10 + ((s.last() as u32) - 48)
    }
}

/// A version segment parses exactly when it is a non-empty digit string
/// whose value fits in a `u64`; everything else is dropped.
pub open spec fn seg_parse(s: Seq<char>) -> Option<u64> {
    if s.len() > 0 && all_digits(s) && digits_value(s) <= u64::MAX {
        Some(digits_value(s) as u64)
    } else {
        None
    }
}

/// First index at or after `i` holding `c`, or the length.
pub open spec fn char_end(s: Seq<char>, c: char, i: int) -> int
    decreases s.len() - i,
{
    if i < 0 || i >= s.len() {
        s.len() as int
    } else if s[i] == c {
        i
    } else {
        char_end(s, c, i + 1)
    }
}

proof fn lemma_char_end_bounds(s: Seq<char>, c: char, i: int)
    requires
        0 <= i <= s.len(),
    ensures
        i <= char_end(s, c, i) <= s.len(),
    decreases s.len() - i,
{
    if i < s.len() && s[i] != c {
        lemma_char_end_bounds(s, c, i + 1);
    }
}

/// The values of the parseable `.`-separated segments of `s[i..]`, in order;
/// unparseable segments are skipped, as `filter_map` over `parse` would.
pub open spec fn parsed_parts(s: Seq<char>, i: int) -> Seq<u64>
    decreases s.len() - i,
    via parsed_parts_decreases
{
    if i < 0 || i > s.len() {
        Seq::<u64>::empty()
    } else {
        let e = char_end(s, '.', i);
        let head = match seg_parse(s.subrange(i, e)) {
            Some(v) => seq![v],
            None => Seq::<u64>::empty(),
        };
        if e >= s.len() {
            head
        } else {
            head + parsed_parts(s, e + 1)
        }
    }
}

#[via_fn]
proof fn parsed_parts_decreases(s: Seq<char>, i: int) {
    if 0 <= i <= s.len() {
        lemma_char_end_bounds(s, '.', i);
    }
}

/// A version triple: everything after the first `-` is cut, the rest is
/// split on `.`, unparseable segments are dropped, and at least three
/// parseable segments must remain.
pub open spec fn parse_version_spec(s: Seq<char>) -> Option<(u64, u64, u64)> {
    let pre = s.subrange(0, char_end(s, '-', 0));
    let parts = parsed_parts(pre, 0);
    if parts.len() >= 3 {
        Some((parts[0], parts[1], parts[2]))
    } else {
        None
    }
}

/// `candidate` is strictly newer than `current`; anything unparseable is
/// never newer and never superseded.
pub open spec fn is_newer_spec(current: Seq<char>, candidate: Seq<char>) -> bool {
    match (parse_version_spec(current), parse_version_spec(candidate)) {
        (Some(c), Some(n)) => n.0 > c.0 || (n.0 == c.0 && (n.1 > c.1 || (n.1 == c.1 && n.2
            > c.2))),
        _ => false,
    }
}

proof fn lemma_digits_value_step(s: Seq<char>, i: int, j: int)
    requires
        0 <= i <= j < s.len(),
    ensures
        digits_value(s.subrange(i, j + 1)) == digits_value(s.subrange(i, j)) * 10 + ((s[j] as u32)
            - 48),
{
    assert(s.subrange(i, j + 1).drop_last() =~= s.subrange(i, j));
    assert(s.subrange(i, j + 1).last() == s[j]);
}

/// Parse one segment `s[i..e)` exactly as `seg_parse` does.
fn parse_segment(s: &str, i: usize, e: usize) -> (r: Option<u64>)
    requires
        i <= e <= s@.len(),
    ensures
        r == seg_parse(s@.subrange(i as int, e as int)),
{
    if i == e {
        return None;
    }
    let mut val: u64 = 0;
    let mut digits_ok = true;
    let mut overflow = false;
    let mut j = i;
    while j < e
        invariant
            i <= j <= e <= s@.len(),
            digits_ok ==> forall|k: int| i <= k < j ==> is_digit(s@[k]),
            !digits_ok ==> exists|k: int| i <= k < j && !is_digit(#[trigger] s@[k]),
            digits_ok && !overflow ==> val == digits_value(s@.subrange(i as int, j as int)),
            digits_ok && overflow ==> digits_value(s@.subrange(i as int, j as int)) > u64::MAX,
        decreases e - j,
    {
        let c = s.get_char(j);
        if c < '0' || c > '9' {
            digits_ok = false;
            proof {
                assert(!is_digit(s@[j as int]));
            }
        } else if digits_ok && !overflow {
            let d = (c as u32 - 48) as u64;
            proof {
                lemma_digits_value_step(s@, i as int, j as int);
            }
            if val > (u64::MAX - d) / 10 {
                overflow = true;
                proof {
                    let dv = digits_value(s@.subrange(i as int, j as int));
                    assert(dv * 10 + d > u64::MAX) by (nonlinear_arith)
                        requires
                            dv == val as int,
                            0 <= d <= 9,
                            val > (u64::MAX - d) / 10,
                    ;
                }
            } else {
                proof {
                    let dv = digits_value(s@.subrange(i as int, j as int));
                    assert(dv * 10 + d <= u64::MAX) by (nonlinear_arith)
                        requires
                            dv == val as int,
                            0 <= d <= 9,
                            val <= (u64::MAX - d) / 10,
                    ;
                }
                val = val * 10 + d;
            }
        } else if digits_ok {
            proof {
                lemma_digits_value_step(s@, i as int, j as int);
                let dv = digits_value(s@.subrange(i as int, j as int));
                assert(dv * 10 + ((s@[j as int] as u32) - 48) > u64::MAX) by (nonlinear_arith)
                    requires
                        dv > u64::MAX,
                        (s@[j as int] as u32) - 48 >= 0,
                ;
            }
        }
        j = j + 1;
    }
    let seg = Ghost(s@.subrange(i as int, e as int));
    if digits_ok && !overflow {
        proof {
            assert(all_digits(seg@)) by {
                assert(forall|k: int|
                    0 <= k < seg@.len() ==> seg@[k] == s@[i + k] && is_digit(s@[i + k]));
            }
        }
        Some(val)
    } else {
        proof {
            if !digits_ok {
                let k = choose|k: int| i <= k < e && !is_digit(s@[k]);
                assert(seg@[k - i] == s@[k]);
                assert(!all_digits(seg@));
            }
        }
        None
    }
}

/// First index at or after `from` holding `target`, or the length.
fn scan_char(s: &str, target: char, from: usize) -> (r: usize)
    requires
        from <= s@.len(),
    ensures
        r == char_end(s@, target, from as int),
        from <= r <= s@.len(),
{
    let n = s.unicode_len();
    let mut i = from;
    while i < n
        invariant
            from <= i <= n,
            n == s@.len(),
            char_end(s@, target, from as int) == char_end(s@, target, i as int),
        decreases n - i,
    {
        if s.get_char(i) == target {
            return i;
        }
        i = i + 1;
    }
    i
}

/// Parse a version string into its leading numeric triple, or `None`.
pub fn parse_version(v: &str) -> (r: Option<(u64, u64, u64)>)
    ensures
        r == parse_version_spec(v@),
{
    let n = v.unicode_len();
    let pre_end = scan_char(v, '-', 0);
    let pre = v.substring_char(0, pre_end);
    let ghost pres = v@.subrange(0, char_end(v@, '-', 0));
    let m = pre.unicode_len();
    let mut parts: Vec<u64> = Vec::new();
    let mut i: usize = 0;
    let mut done = false;
    while !done
        invariant
            pre@ == pres,
            m == pres.len(),
            0 <= i <= m + 1,
            !done ==> i <= m,
            !done ==> parsed_parts(pres, 0) == parts@ + parsed_parts(pres, i as int),
            done ==> parsed_parts(pres, 0) == parts@,
        decreases m + 1 - i, (if done { 0int } else { 1int }),
    {
        let e = scan_char(pre, '.', i);
        let head = parse_segment(pre, i, e);
        match head {
            Some(x) => {
                parts.push(x);
            },
            None => {},
        }
        proof {
            assert(parsed_parts(pres, i as int) == (match seg_parse(
                pres.subrange(i as int, e as int),
            ) {
                Some(x) => seq![x],
                None => Seq::<u64>::empty(),
            }) + (if e >= m {
                Seq::<u64>::empty()
            } else {
                parsed_parts(pres, e + 1)
            })) by {
                if e >= m {
                    assert(parsed_parts(pres, i as int) + Seq::<u64>::empty() =~= parsed_parts(
                        pres,
                        i as int,
                    ));
                }
            }
        }
        if e >= m {
            done = true;
            proof {
                assert(parsed_parts(pres, 0) =~= parts@);
            }
        } else {
            i = e + 1;
            proof {
                assert(parsed_parts(pres, 0) =~= parts@ + parsed_parts(pres, i as int));
            }
        }
    }
    if parts.len() >= 3 {
        Some((parts[0], parts[1], parts[2]))
    } else {
        None
    }
}

/// Whether `candidate` is a strictly newer version than `current`.
pub fn is_newer(current: &str, candidate: &str) -> (r: bool)
    ensures
        r == is_newer_spec(current@, candidate@),
{
    match (parse_version(current), parse_version(candidate)) {
        (Some(c), Some(n)) => {
            if n.0 != c.0 {
                n.0 > c.0
            } else if n.1 != c.1 {
                n.1 > c.1
            } else {
                n.2 > c.2
            }
        },
        _ => false,
    }
}

/// The release-notes page for a version.
pub fn release_notes_url(version: &str) -> (r: String)
    ensures
        r@ == RELEASE_NOTES_BASE@ + "/v"@ + version@,
{
    let mut r = String::from_str(RELEASE_NOTES_BASE);
    r.append("/v");
    r.append(version);
    r
}

/// First index at or after `i` whose character is not `v`.
pub open spec fn skip_char(s: Seq<char>, c: char, i: int) -> int
    decreases s.len() - i,
{
    if i < 0 || i >= s.len() {
        s.len() as int
    } else if s[i] == c {
        skip_char(s, c, i + 1)
    } else {
        i
    }
}

/// A release tag with every leading `v` removed, as `trim_start_matches`
/// leaves it.
pub fn version_from_tag(tag: &str) -> (r: String)
    ensures
        r@ == tag@.subrange(skip_char(tag@, 'v', 0), tag@.len() as int),
{
    let n = tag.unicode_len();
    let mut i: usize = 0;
    while i < n && tag.get_char(i) == 'v'
        invariant
            0 <= i <= n,
            n == tag@.len(),
            skip_char(tag@, 'v', 0) == skip_char(tag@, 'v', i as int),
        decreases n - i,
    {
        i = i + 1;
    }
    String::from_str(tag.substring_char(i, n))
}

/// On-disk record of the last update check; the embedding binary reads and
/// writes the file, this type holds the values.
#[derive(Debug, Clone, PartialEq)]
pub struct UpdateCache {
    /// When the last check ran, as seconds since the Unix epoch.
    pub last_checked_unix: i64,
    /// The newest version the check saw.
    pub latest_version: String,
    /// Fetch failures since the last success.
    pub consecutive_failures: u32,
}

impl UpdateCache {
    /// A fresh cache entry after a successful fetch: the failure counter is
    /// reset.
    pub fn for_version(version: String, now_unix: i64) -> (r: UpdateCache)
        ensures
            r.last_checked_unix == now_unix,
            r.latest_version == version,
            r.consecutive_failures == 0,
    {
        UpdateCache { last_checked_unix: now_unix, latest_version: version, consecutive_failures: 0 }
    }

    /// Whether the cached latest version supersedes the running one.
    pub fn is_update_available(&self, current: &str) -> (r: bool)
        ensures
            r == is_newer_spec(current@, self.latest_version@),
    {
        is_newer(current, self.latest_version.as_str())
    }
}

/// Whether a new background check is due: no cache yet, or the last one is
/// at least the check interval old (in either direction of clock drift).
pub fn should_check_again(cache: Option<&UpdateCache>, now_unix: i64) -> (r: bool)
    ensures
        match cache {
            None => r,
            Some(c) => r == (abs_diff(now_unix as int, c.last_checked_unix as int)
                >= CHECK_INTERVAL_SECS),
        },
{
    match cache {
        None => true,
        Some(c) => {
            let diff: i128 = now_unix as i128 - c.last_checked_unix as i128;
            let age: i128 = if diff < 0 {
                -diff
            } else {
                diff
            };
            age >= CHECK_INTERVAL_SECS as i128
        },
    }
}

/// Absolute difference of two instants.
pub open spec fn abs_diff(a: int, b: int) -> int {
    if a >= b {
        a - b
    } else {
        b - a
    }
}

/// The failure counter after one more failed fetch.
pub fn next_failure_count(previous: u32) -> (r: u32)
    ensures
        previous < u32::MAX ==> r == previous + 1,
        previous == u32::MAX ==> r == previous,
{
    if previous < u32::MAX {
        previous + 1
    } else {
        previous
    }
}

/// Whether repeated failures have earned switching checks off.
pub fn should_disable_checks(failures: u32) -> (r: bool)
    ensures
        r == (failures >= MAX_CONSECUTIVE_FAILURES),
{
    failures >= MAX_CONSECUTIVE_FAILURES
}

/// Whether update checking is suppressed: opted out in the config file, the
/// opt-out variable holds anything, a CI variable is present, or the binary
/// runs from a package manager's prefix.
pub fn should_suppress_checks(
    skip_flag: Option<bool>,
    no_update_var: Option<&str>,
    ci_var_present: bool,
    exe_in_homebrew: bool,
) -> (r: bool)
    ensures
        r == ((skip_flag matches Some(t) && t) || env_var_set(opt_str_view(no_update_var))
            || ci_var_present || exe_in_homebrew),
{
    let skip = match skip_flag {
        Some(t) => t,
        None => false,
    };
    let no_update = match no_update_var {
        Some(s) => s.unicode_len() > 0,
        None => false,
    };
    skip || no_update || ci_var_present || exe_in_homebrew
}

/// Build targets the self-updater knows how to fetch.
#[derive(Clone, Copy, Debug, PartialEq, Eq, Structural)]
pub enum Platform {
    LinuxX64,
    LinuxArm64,
    WindowsX64,
    MacosArm64,
    MacosX64,
    Other,
}

/// The release-archive URL for one platform and version; platforms without
/// packaged releases get none.
pub open spec fn download_url_spec(v: Seq<char>, p: Platform) -> Option<Seq<char>> {
    let github = "https://github.com/ricochet-rs/cli/releases/download/v"@ + v;
    let bottles = "https://hel1.your-objectstorage.com/ricochet-cli/v"@ + v;
    match p {
        Platform::LinuxX64 => Some(github + "/ricochet-"@ + v + "-linux-x86_64.tar.gz"@),
        Platform::LinuxArm64 => Some(github + "/ricochet-"@ + v + "-linux-aarch64.tar.gz"@),
        Platform::WindowsX64 => Some(github + "/ricochet-"@ + v + "-windows-x86_64.exe.tar.gz"@),
        Platform::MacosArm64 => Some(bottles + "/ricochet-"@ + v + "-darwin-arm64.tar.gz"@),
        Platform::MacosX64 => Some(bottles + "/ricochet-"@ + v + "-darwin-x86_64.tar.gz"@),
        Platform::Other => None,
    }
}

/// Where to download the archive of `version` for `platform`.
pub fn download_url(version: &str, platform: Platform) -> (r: Option<String>)
    ensures
        match r {
            Some(u) => download_url_spec(version@, platform) == Some(u@),
            None => download_url_spec(version@, platform) is None,
        },
{
    match platform {
        Platform::LinuxX64 => {
            let mut r = String::from_str("https://github.com/ricochet-rs/cli/releases/download/v");
            r.append(version);
            r.append("/ricochet-");
            r.append(version);
            r.append("-linux-x86_64.tar.gz");
            Some(r)
        },
        Platform::LinuxArm64 => {
            let mut r = String::from_str("https://github.com/ricochet-rs/cli/releases/download/v");
            r.append(version);
            r.append("/ricochet-");
            r.append(version);
            r.append("-linux-aarch64.tar.gz");
            Some(r)
        },
        Platform::WindowsX64 => {
            let mut r = String::from_str("https://github.com/ricochet-rs/cli/releases/download/v");
            r.append(version);
            r.append("/ricochet-");
            r.append(version);
            r.append("-windows-x86_64.exe.tar.gz");
            Some(r)
        },
        Platform::MacosArm64 => {
            let mut r = String::from_str("https://hel1.your-objectstorage.com/ricochet-cli/v");
            r.append(version);
            r.append("/ricochet-");
            r.append(version);
            r.append("-darwin-arm64.tar.gz");
            Some(r)
        },
        Platform::MacosX64 => {
            let mut r = String::from_str("https://hel1.your-objectstorage.com/ricochet-cli/v");
            r.append(version);
            r.append("/ricochet-");
            r.append(version);
            r.append("-darwin-x86_64.tar.gz");
            Some(r)
        },
        Platform::Other => None,
    }
}

/// The path of the binary inside the release archive; macOS bottles nest it
/// under `ricochet/{version}/bin/`.
pub open spec fn binary_name_spec(v: Seq<char>, p: Platform) -> Option<Seq<char>> {
    match p {
        Platform::LinuxX64 => Some("ricochet-"@ + v + "-linux-x86_64"@),
        Platform::LinuxArm64 => Some("ricochet-"@ + v + "-linux-aarch64"@),
        Platform::WindowsX64 => Some("ricochet-"@ + v + "-windows-x86_64.exe"@),
        Platform::MacosArm64 => Some("ricochet/"@ + v + "/bin/ricochet"@),
        Platform::MacosX64 => Some("ricochet/"@ + v + "/bin/ricochet"@),
        Platform::Other => None,
    }
}

/// The name to look for when extracting the new binary from the archive.
pub fn binary_name_in_tarball(version: &str, platform: Platform) -> (r: Option<String>)
    ensures
        match r {
            Some(u) => binary_name_spec(version@, platform) == Some(u@),
            None => binary_name_spec(version@, platform) is None,
        },
{
    match platform {
        Platform::LinuxX64 => {
            let mut r = String::from_str("ricochet-");
            r.append(version);
            r.append("-linux-x86_64");
            Some(r)
        },
        Platform::LinuxArm64 => {
            let mut r = String::from_str("ricochet-");
            r.append(version);
            r.append("-linux-aarch64");
            Some(r)
        },
        Platform::WindowsX64 => {
            let mut r = String::from_str("ricochet-");
            r.append(version);
            r.append("-windows-x86_64.exe");
            Some(r)
        },
        Platform::MacosArm64 => {
            let mut r = String::from_str("ricochet/");
            r.append(version);
            r.append("/bin/ricochet");
            Some(r)
        },
        Platform::MacosX64 => {
            let mut r = String::from_str("ricochet/");
            r.append(version);
            r.append("/bin/ricochet");
            Some(r)
        },
        Platform::Other => None,
    }
}

} // verus!
