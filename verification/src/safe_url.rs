//! Which download links may be fetched: only `http`/`https` links whose host
//! is not local, loopback, private or link-local.

use vstd::prelude::*;
use crate::text::{chars_of, has_at, is_str, owned, parse_u32_range, parse_uint, seq_has_at, split_on, split_ranges};

verus! {

/// The scheme and host (`None` when it has none) that the `url` crate reads
/// from an absolute URL, or `None` when the text is not one.
pub uninterp spec fn url_parts(s: Seq<char>) -> Option<(Seq<char>, Option<Seq<char>>)>;

/// `url::Url::parse(s)`, then `scheme()` and `host_str()` of the result.
/// The host that the crate gives never holds a `/`.
#[verifier::external_body]
pub(crate) fn parse_url_parts(s: &str) -> (r: Option<(String, Option<String>)>)
    ensures
        match r {
            Some((scheme, host)) => url_parts(s@) == Some(
                (
                    scheme@,
                    match host {
                        Some(h) => Some(h@),
                        None => None,
                    },
                ),
            ) && (host matches Some(h) ==> forall|i: int| 0 <= i < h@.len() ==> h@[i] != '/'),
            None => url_parts(s@) is None,
        },
{
    match url::Url::parse(s) {
        Ok(u) => Some((u.scheme().to_string(), u.host_str().map(|h| h.to_string()))),
        Err(_) => None,
    }
}

/// `Path::new(name).extension()` for a name without `/`: the text after the
/// last `.`, unless there is no `.`, or the only `.` is the first character.
pub open spec fn extension(name: Seq<char>) -> Option<Seq<char>> {
    match last_dot(name, name.len() as int) {
        Some(i) => if i == 0 || name == ".."@ {
            None
        } else {
            Some(name.subrange(i + 1, name.len() as int))
        },
        None => None,
    }
}

/// The last `.` in `name[..end]`.
pub open spec fn last_dot(name: Seq<char>, end: int) -> Option<int>
    decreases end,
{
    if end <= 0 || end > name.len() {
        None
    } else if name[end - 1] == '.' {
        Some(end - 1)
    } else {
        last_dot(name, end - 1)
    }
}

/// ASCII case-insensitive equality.
pub open spec fn eq_ignore_ascii_case(a: Seq<char>, b: Seq<char>) -> bool {
    a.len() == b.len() && forall|i: int| 0 <= i < a.len() ==> ascii_lower(#[trigger] a[i]) == ascii_lower(b[i])
}

/// The ASCII lowercase of a character (others unchanged).
pub open spec fn ascii_lower(c: char) -> char {
    if 'A' <= c && c <= 'Z' {
        ((c as u32) + 32) as char
    } else {
        c
    }
}

/// Whether a host is one that downloads must not go to: its name, without
/// the trailing `.`s of a fully qualified name, is blocked.
pub open spec fn blocked_host(h: Seq<char>) -> bool {
    blocked_name(crate::path::strip_dots(h))
}

/// Whether a host name (no trailing `.`) is local, loopback, private,
/// link-local or reserved.
pub open spec fn blocked_name(h: Seq<char>) -> bool {
    ||| h == "localhost"@ || h == "127.0.0.1"@ || h == "0.0.0.0"@ || h == "[::1]"@
    ||| seq_has_at(h, 0, "127."@) || seq_has_at(h, 0, "0."@)
    ||| seq_has_at(h, 0, "192.168."@) || seq_has_at(h, 0, "10."@)
    ||| seq_has_at(h, 0, "172."@) && split_on(h, '.').len() >= 2 && match parse_uint(
        split_on(h, '.')[1],
        u32::MAX as int,
    ) {
        Some(n) => 16 <= n <= 31,
        None => false,
    }
    ||| seq_has_at(h, 0, "169.254."@)
    ||| match extension(h) {
        Some(e) => eq_ignore_ascii_case(e, "local"@) || eq_ignore_ascii_case(e, "internal"@),
        None => false,
    }
}

/// Whether a download link is safe: it parses as an absolute URL with the
/// scheme `http` or `https` and a host that is not blocked.
pub open spec fn safe_url(s: Seq<char>) -> bool {
    match url_parts(s) {
        Some((scheme, host)) => (scheme == "https"@ || scheme == "http"@) && match host {
            Some(h) => !blocked_host(h),
            None => false,
        },
        None => false,
    }
}

fn lower(c: char) -> (r: char)
    ensures
        r == ascii_lower(c),
{
    if 'A' <= c && c <= 'Z' {
        ((c as u8) + 32) as char
    } else {
        c
    }
}

pub(crate) fn eq_ignore_case_range(v: &Vec<char>, lo: usize, hi: usize, lit: &str) -> (r: bool)
    requires
        lo <= hi <= v@.len(),
    ensures
        r == eq_ignore_ascii_case(v@.subrange(lo as int, hi as int), lit@),
{
    let l = chars_of(lit);
    if hi - lo != l.len() {
        return false;
    }
    let mut i: usize = 0;
    while i < l.len()
        invariant
            i <= l@.len(),
            l@ == lit@,
            hi - lo == l@.len(),
            lo <= hi <= v@.len(),
            forall|j: int| 0 <= j < i ==> ascii_lower(#[trigger] v@[lo + j]) == ascii_lower(l@[j]),
        decreases l.len() - i,
    {
        if lower(v[lo + i]) != lower(l[i]) {
            assert(v@.subrange(lo as int, hi as int)[i as int] == v@[lo + i]);
            return false;
        }
        i = i + 1;
    }
    assert forall|j: int| 0 <= j < hi - lo implies ascii_lower(
        #[trigger] v@.subrange(lo as int, hi as int)[j],
    ) == ascii_lower(lit@[j]) by {
        assert(v@.subrange(lo as int, hi as int)[j] == v@[lo + j]);
    }
    true
}

fn extension_bounds(v: &Vec<char>) -> (r: Option<usize>)
    ensures
        r matches Some(i) ==> i < v@.len() && extension(v@) == Some(v@.subrange(i + 1, v@.len() as int)),
        r is None ==> extension(v@) is None,
{
    let n = v.len();
    let mut end = n;
    while end > 0 && v[end - 1] != '.'
        invariant
            end <= n,
            n == v@.len(),
            last_dot(v@, n as int) == last_dot(v@, end as int),
        decreases end,
    {
        end = end - 1;
    }
    if end == 0 {
        return None;
    }
    let i = end - 1;
    proof {
        reveal_strlit("..");
    }
    if i == 0 || (n == 2 && v[0] == '.' && v[1] == '.') {
        assert(n == 2 && v@[0] == '.' && v@[1] == '.' ==> v@ =~= ".."@);
        None
    } else {
        assert(v@ == ".."@ ==> n == 2 && v@[0] == '.' && v@[1] == '.');
        Some(i)
    }
}

fn blocked_host_exec(host: &String) -> (r: bool)
    ensures
        r == blocked_host(host@),
{
    let all = chars_of(host.as_str());
    let mut e = all.len();
    assert(all@.subrange(0, e as int) == all@);
    while e > 0 && all[e - 1] == '.'
        invariant
            e <= all@.len(),
            all@ == host@,
            crate::path::strip_dots(host@) == crate::path::strip_dots(all@.subrange(0, e as int)),
        decreases e,
    {
        assert(all@.subrange(0, e as int).drop_last() == all@.subrange(0, e - 1));
        e = e - 1;
    }
    let h = crate::text::string_of_range(&all, 0, e);
    assert(crate::path::strip_dots(h@) == h@);
    let v = chars_of(h.as_str());
    if is_str(&h, "localhost") || is_str(&h, "127.0.0.1") || is_str(&h, "0.0.0.0") || is_str(&h, "[::1]")
        || has_at(&v, 0, "127.") || has_at(&v, 0, "0.") {
        return true;
    }
    if has_at(&v, 0, "192.168.") || has_at(&v, 0, "10.") {
        return true;
    }
    if has_at(&v, 0, "172.") {
        let ranges = split_ranges(&v, '.');
        if ranges.len() >= 2 {
            let (a, b) = ranges[1];
            match parse_u32_range(&v, a, b) {
                Some(n) => {
                    if 16 <= n && n <= 31 {
                        return true;
                    }
                },
                None => {},
            }
        }
    }
    if has_at(&v, 0, "169.254.") {
        return true;
    }
    match extension_bounds(&v) {
        Some(i) => {
            eq_ignore_case_range(&v, i + 1, v.len(), "local") || eq_ignore_case_range(
                &v,
                i + 1,
                v.len(),
                "internal",
            )
        },
        None => false,
    }
}

/// Whether a download link may be fetched: an `http`/`https` URL whose host
/// is not `localhost`, a loopback, private (`10.`, `172.16-31.`,
/// `192.168.`), link-local (`169.254.`) or `0.` address, `[::1]`, nor a
/// `.local` / `.internal` name; trailing `.`s of a fully qualified host name
/// are ignored.
pub fn is_safe_download_url(url: &str) -> (r: bool)
    ensures
        r == safe_url(url@),
{
    match parse_url_parts(url) {
        None => false,
        Some((scheme, host)) => {
            if !(is_str(&scheme, "https") || is_str(&scheme, "http")) {
                return false;
            }
            match host {
                None => false,
                Some(h) => !blocked_host_exec(&h),
            }
        },
    }
}

} // verus!
