//! Server URL validation and normalization.
//!
//! A server reference is accepted as a URL when it is plain ASCII and starts
//! with an explicit `http://` or `https://` scheme (any casing). Normalization
//! lowercases the scheme and the authority and guarantees a path: a URL with
//! nothing after the authority, or with a query or fragment directly after it,
//! gains a single `/`. Two references to the same logical server therefore
//! normalize to the same string, which is how the resolution engine matches a
//! raw URL against stored entries.

use vstd::prelude::*;
use vstd::string::StrSliceExecFns;
use vstd::string::StringExecFns;
use vstd::utf8::is_ascii_chars;
use crate::utils::ascii_to_string;

verus! {

pub open spec fn is_upper(c: char) -> bool {
    'A' <= c && c <= 'Z'
}

/// ASCII lowercasing of one character; everything but `A`..`Z` is unchanged.
pub open spec fn lower_char(c: char) -> char {
    if is_upper(c) {
        (((c as u8) + 32) as u8) as char
    } else {
        c
    }
}

pub open spec fn lower_seq(s: Seq<char>) -> Seq<char> {
    Seq::new(s.len(), |i: int| lower_char(s[i]))
}

/// Characters that end the authority part of a URL.
pub open spec fn is_path_delim(c: char) -> bool {
    c == '/' || c == '?' || c == '#'
}

pub open spec fn https_scheme(s: Seq<char>) -> bool {
    s.len() >= 8 && lower_char(s[0]) == 'h' && lower_char(s[1]) == 't' && lower_char(s[2]) == 't'
        && lower_char(s[3]) == 'p' && lower_char(s[4]) == 's' && s[5] == ':' && s[6] == '/'
        && s[7] == '/'
}

pub open spec fn http_scheme(s: Seq<char>) -> bool {
    s.len() >= 7 && lower_char(s[0]) == 'h' && lower_char(s[1]) == 't' && lower_char(s[2]) == 't'
        && lower_char(s[3]) == 'p' && s[4] == ':' && s[5] == '/' && s[6] == '/'
}

/// Length of the scheme prefix, or 0 when the string carries no http(s) scheme.
pub open spec fn scheme_len(s: Seq<char>) -> int {
    if https_scheme(s) {
        8
    } else if http_scheme(s) {
        7
    } else {
        0
    }
}

/// First position at or after `i` holding a path delimiter, or the length.
pub open spec fn authority_end(s: Seq<char>, i: int) -> int
    decreases s.len() - i,
{
    if i < 0 || i >= s.len() {
        s.len() as int
    } else if is_path_delim(s[i]) {
        i
    } else {
        authority_end(s, i + 1)
    }
}

/// A usable server URL: ASCII, an explicit http(s) scheme, and a non-empty
/// authority.
pub open spec fn valid_server_url(s: Seq<char>) -> bool {
    is_ascii_chars(s) && scheme_len(s) > 0 && authority_end(s, scheme_len(s)) > scheme_len(s)
}

pub open spec fn scheme_seq(https: bool) -> Seq<char> {
    if https {
        seq!['h', 't', 't', 'p', 's', ':', '/', '/']
    } else {
        seq!['h', 't', 't', 'p', ':', '/', '/']
    }
}

/// The normalized form of a valid server URL: lowercased scheme and authority,
/// with a `/` inserted when no path follows the authority.
pub open spec fn normalize_url_spec(s: Seq<char>) -> Seq<char> {
    let p = scheme_len(s);
    let ae = authority_end(s, p);
    let auth = lower_seq(s.subrange(p, ae));
    let rest = s.subrange(ae, s.len() as int);
    let rest2 = if rest.len() == 0 || rest[0] != '/' {
        seq!['/'] + rest
    } else {
        rest
    };
    scheme_seq(https_scheme(s)) + auth + rest2
}

/// First position at or after `i` holding `:` or a path delimiter, or the
/// length; bounds the host inside the authority.
pub open spec fn host_end(s: Seq<char>, i: int) -> int
    decreases s.len() - i,
{
    if i < 0 || i >= s.len() {
        s.len() as int
    } else if is_path_delim(s[i]) || s[i] == ':' {
        i
    } else {
        host_end(s, i + 1)
    }
}

/// The lowercased host of a valid server URL (the authority up to any port).
pub open spec fn url_host_spec(s: Seq<char>) -> Seq<char> {
    lower_seq(s.subrange(scheme_len(s), host_end(s, scheme_len(s))))
}

fn lower_ascii_byte(b: u8) -> (r: u8)
    requires
        b < 128,
    ensures
        r < 128,
        r as char == lower_char(b as char),
{
    if 65 <= b && b <= 90 {
        b + 32
    } else {
        b
    }
}

proof fn lemma_ascii_char_byte_roundtrip(c: char)
    requires
        '\0' <= c <= '\u{7f}',
    ensures
        (c as u8) < 128,
        ((c as u8) as char) == c,
{
}

/// Scheme detection on an ASCII string: `r == 8` for https, `r == 7` for
/// http, `r == 0` otherwise.
fn detect_scheme(s: &str) -> (r: usize)
    requires
        s.is_ascii(),
    ensures
        r == scheme_len(s@),
{
    proof {
        broadcast use vstd::string::group_string_axioms;
    }
    let n = s.unicode_len();
    let https = n >= 8 && lower_ascii_byte(s.get_ascii(0)) == 104 && lower_ascii_byte(
        s.get_ascii(1),
    ) == 116 && lower_ascii_byte(s.get_ascii(2)) == 116 && lower_ascii_byte(s.get_ascii(3)) == 112
        && lower_ascii_byte(s.get_ascii(4)) == 115 && s.get_ascii(5) == 58 && s.get_ascii(6) == 47
        && s.get_ascii(7) == 47;
    if https {
        proof {
            assert(https_scheme(s@));
        }
        8
    } else {
        let http = n >= 7 && lower_ascii_byte(s.get_ascii(0)) == 104 && lower_ascii_byte(
            s.get_ascii(1),
        ) == 116 && lower_ascii_byte(s.get_ascii(2)) == 116 && lower_ascii_byte(s.get_ascii(3))
            == 112 && s.get_ascii(4) == 58 && s.get_ascii(5) == 47 && s.get_ascii(6) == 47;
        if http {
            proof {
                assert(!https_scheme(s@));
                assert(http_scheme(s@));
            }
            7
        } else {
            proof {
                assert(!https_scheme(s@));
                assert(!http_scheme(s@));
            }
            0
        }
    }
}

/// First index at or after `from` holding a path delimiter (and `:` when
/// `stop_at_colon` is set), or the length of `s`.
fn scan_delim(s: &str, from: usize, stop_at_colon: bool) -> (r: usize)
    requires
        s.is_ascii(),
        from <= s@.len(),
    ensures
        !stop_at_colon ==> r == authority_end(s@, from as int),
        stop_at_colon ==> r == host_end(s@, from as int),
{
    let n = s.unicode_len();
    let mut i = from;
    while i < n
        invariant
            s.is_ascii(),
            from <= i <= n,
            n == s@.len(),
            !stop_at_colon ==> authority_end(s@, from as int) == authority_end(s@, i as int),
            stop_at_colon ==> host_end(s@, from as int) == host_end(s@, i as int),
        decreases n - i,
    {
        let b = s.get_ascii(i);
        if b == 47 || b == 63 || b == 35 || (stop_at_colon && b == 58) {
            proof {
                lemma_ascii_char_byte_roundtrip(s@[i as int]);
            }
            return i;
        }
        proof {
            lemma_ascii_char_byte_roundtrip(s@[i as int]);
        }
        i = i + 1;
    }
    i
}

/// Lowercased copy of the ASCII characters of `s` in `[from, to)`.
fn lowered_range(s: &str, from: usize, to: usize) -> (r: String)
    requires
        s.is_ascii(),
        from <= to <= s@.len(),
    ensures
        r@ == lower_seq(s@.subrange(from as int, to as int)),
{
    let mut v: Vec<u8> = Vec::new();
    let mut i = from;
    while i < to
        invariant
            s.is_ascii(),
            from <= i <= to <= s@.len(),
            v@.len() == i - from,
            forall|k: int|
                0 <= k < v@.len() ==> (#[trigger] v@[k]) < 128 && v@[k] as char == lower_char(
                    s@[from + k],
                ),
        decreases to - i,
    {
        let b = s.get_ascii(i);
        proof {
            lemma_ascii_char_byte_roundtrip(s@[i as int]);
        }
        v.push(lower_ascii_byte(b));
        i = i + 1;
    }
    let r = ascii_to_string(v);
    proof {
        assert(r@ =~= lower_seq(s@.subrange(from as int, to as int)));
    }
    r
}

/// Validate and normalize a server URL; `None` when `s` is not a usable
/// http(s) URL.
pub fn normalize_server_url(s: &str) -> (r: Option<String>)
    ensures
        r is Some <==> valid_server_url(s@),
        r matches Some(u) ==> u@ == normalize_url_spec(s@),
{
    proof {
        broadcast use vstd::string::group_string_axioms;
    }
    if !s.is_ascii() {
        return None;
    }
    let plen = detect_scheme(s);
    if plen == 0 {
        return None;
    }
    let n = s.unicode_len();
    let ae = scan_delim(s, plen, false);
    proof {
        lemma_authority_end_bounds(s@, plen as int);
    }
    if ae == plen {
        return None;
    }
    let mut r = if plen == 8 {
        String::from_str("https://")
    } else {
        String::from_str("http://")
    };
    proof {
        reveal_strlit("https://");
        reveal_strlit("http://");
        assert(r@ =~= scheme_seq(https_scheme(s@)));
    }
    let auth = lowered_range(s, plen, ae);
    r.append(auth.as_str());
    let needs_slash = if ae == n {
        true
    } else {
        let b = s.get_ascii(ae);
        proof {
            lemma_ascii_char_byte_roundtrip(s@[ae as int]);
        }
        b != 47
    };
    if needs_slash {
        r.append("/");
        proof {
            reveal_strlit("/");
        }
    }
    if ae < n {
        r.append(s.substring_ascii(ae, n));
    }
    proof {
        assert(r@ =~= normalize_url_spec(s@));
    }
    Some(r)
}

/// The lowercased host of a server URL; `None` when `s` is not a usable
/// http(s) URL.
pub fn url_host(s: &str) -> (r: Option<String>)
    ensures
        r is Some <==> valid_server_url(s@),
        r matches Some(h) ==> h@ == url_host_spec(s@),
{
    if !s.is_ascii() {
        return None;
    }
    let plen = detect_scheme(s);
    if plen == 0 {
        return None;
    }
    let ae = scan_delim(s, plen, false);
    if ae == plen {
        return None;
    }
    let he = scan_delim(s, plen, true);
    proof {
        lemma_host_end_le_authority_end(s@, plen as int);
    }
    Some(lowered_range(s, plen, he))
}

proof fn lemma_host_end_le_authority_end(s: Seq<char>, i: int)
    requires
        0 <= i <= s.len(),
    ensures
        i <= host_end(s, i) <= authority_end(s, i) <= s.len(),
    decreases s.len() - i,
{
    if i < s.len() && !(is_path_delim(s[i]) || s[i] == ':') {
        lemma_host_end_le_authority_end(s, i + 1);
    } else if i < s.len() && is_path_delim(s[i]) {
    } else if i < s.len() {
        lemma_authority_end_bounds(s, i);
    }
}

proof fn lemma_authority_end_bounds(s: Seq<char>, i: int)
    requires
        0 <= i <= s.len(),
    ensures
        i <= authority_end(s, i) <= s.len(),
    decreases s.len() - i,
{
    if i < s.len() && !is_path_delim(s[i]) {
        lemma_authority_end_bounds(s, i + 1);
    }
}

} // verus!
