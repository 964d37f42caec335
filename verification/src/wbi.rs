//! The WBI signature of API queries.
//!
//! The keys come from the names of two image files that the `nav` API
//! reports; their characters are shuffled by a fixed table into the mixin
//! key. A query is signed by sorting its parameters by name, dropping those
//! with empty values, percent-encoding and concatenating names and values,
//! appending the mixin key, and taking the MD5 digest in hexadecimal.

use vstd::prelude::*;
use vstd::utf8::encode_utf8;
use crate::codec::{encode_component, hex_upper, md5_digest, hex_enc, md5_hex, url_enc};
use crate::text::{
    chars_of, concat, dec, owned, push_char, push_dec, push_range, push_str, split_on,
    split_ranges, string_of_range,
};

verus! {

/// `std::time::Instant`: a point in time, opaque here.
#[verifier::external_type_specification]
#[verifier::external_body]
pub struct ExInstant(std::time::Instant);

/// `Instant::clone`: `Instant` is `Copy`, so the clone is the same instant.
pub assume_specification[ <std::time::Instant as Clone>::clone ](t: &std::time::Instant) -> (r:
    std::time::Instant)
    ensures
        r == *t,
;

/// `Instant::now()`: the current time.
#[verifier::external_body]
fn instant_now() -> std::time::Instant {
    std::time::Instant::now()
}

/// `Instant::elapsed()`, in nanoseconds. Depends on the clock: nothing is
/// stated of the result.
#[verifier::external_body]
fn elapsed_nanos(t: &std::time::Instant) -> u128 {
    t.elapsed().as_nanos()
}

/// A WBI key pair and the mixin key computed from it.
#[derive(Debug, Clone)]
pub struct WbiKey {
    /// The image key (the name of the image file).
    pub img_key: String,
    /// The sub key.
    pub sub_key: String,
    /// The mixin key: 32 characters of `img_key + sub_key`, shuffled.
    pub mixin_key: String,
    /// When the key was made.
    pub cached_at: std::time::Instant,
}

/// The shuffle table of the mixin key (its first 32 entries).
pub open spec fn mixin_index(k: int) -> int {
    if k == 0 {
        46
    } else if k == 1 {
        47
    } else if k == 2 {
        18
    } else if k == 3 {
        2
    } else if k == 4 {
        53
    } else if k == 5 {
        8
    } else if k == 6 {
        23
    } else if k == 7 {
        32
    } else if k == 8 {
        15
    } else if k == 9 {
        50
    } else if k == 10 {
        10
    } else if k == 11 {
        31
    } else if k == 12 {
        58
    } else if k == 13 {
        3
    } else if k == 14 {
        45
    } else if k == 15 {
        35
    } else if k == 16 {
        27
    } else if k == 17 {
        43
    } else if k == 18 {
        5
    } else if k == 19 {
        49
    } else if k == 20 {
        33
    } else if k == 21 {
        9
    } else if k == 22 {
        42
    } else if k == 23 {
        19
    } else if k == 24 {
        29
    } else if k == 25 {
        28
    } else if k == 26 {
        14
    } else if k == 27 {
        39
    } else if k == 28 {
        12
    } else if k == 29 {
        38
    } else if k == 30 {
        41
    } else if k == 31 {
        13
    } else {
        0
    }
}

fn mixin_index_exec(k: usize) -> (r: usize)
    requires
        k < 32,
    ensures
        r == mixin_index(k as int),
        r < 64,
{
    if k == 0 {
        46
    } else if k == 1 {
        47
    } else if k == 2 {
        18
    } else if k == 3 {
        2
    } else if k == 4 {
        53
    } else if k == 5 {
        8
    } else if k == 6 {
        23
    } else if k == 7 {
        32
    } else if k == 8 {
        15
    } else if k == 9 {
        50
    } else if k == 10 {
        10
    } else if k == 11 {
        31
    } else if k == 12 {
        58
    } else if k == 13 {
        3
    } else if k == 14 {
        45
    } else if k == 15 {
        35
    } else if k == 16 {
        27
    } else if k == 17 {
        43
    } else if k == 18 {
        5
    } else if k == 19 {
        49
    } else if k == 20 {
        33
    } else if k == 21 {
        9
    } else if k == 22 {
        42
    } else if k == 23 {
        19
    } else if k == 24 {
        29
    } else if k == 25 {
        28
    } else if k == 26 {
        14
    } else if k == 27 {
        39
    } else if k == 28 {
        12
    } else if k == 29 {
        38
    } else if k == 30 {
        41
    } else if k == 31 {
        13
    } else {
        0
    }
}

/// The first `k` characters of the mixin key of `raw`: for each of the first
/// `k` table entries, the character of `raw` at that position, skipped when
/// `raw` is shorter.
pub open spec fn mixin_prefix(raw: Seq<char>, k: int) -> Seq<char>
    decreases k,
{
    if k <= 0 {
        seq![]
    } else {
        mixin_prefix(raw, k - 1) + if mixin_index(k - 1) < raw.len() {
            seq![raw[mixin_index(k - 1)]]
        } else {
            seq![]
        }
    }
}

/// The mixin key of two keys.
pub open spec fn mixin_key(img: Seq<char>, sub: Seq<char>) -> Seq<char> {
    mixin_prefix(img + sub, 32)
}

/// The key in an image link: the file name (after the last `/` of the part
/// before `?`), up to its first `.`.
pub open spec fn key_of_url(url: Seq<char>) -> Seq<char> {
    let path = split_on(url, '?')[0];
    let parts = split_on(path, '/');
    let file = parts[parts.len() - 1];
    split_on(file, '.')[0]
}

/// The key in an image link (see [`key_of_url`]).
pub fn extract_key_from_url(url: &str) -> (r: String)
    ensures
        r@ == key_of_url(url@),
{
    let v = chars_of(url);
    let q = split_ranges(&v, '?');
    let (a, b) = q[0];
    let path = string_of_range(&v, a, b);
    let pv = chars_of(path.as_str());
    let slashes = split_ranges(&pv, '/');
    let (c, d) = slashes[slashes.len() - 1];
    let file = string_of_range(&pv, c, d);
    let fv = chars_of(file.as_str());
    let dots = split_ranges(&fv, '.');
    let (e, f) = dots[0];
    string_of_range(&fv, e, f)
}

/// The mixin key of two keys (see [`mixin_key`]).
pub fn compute_mixin_key(img_key: &str, sub_key: &str) -> (r: String)
    ensures
        r@ == mixin_key(img_key@, sub_key@),
{
    let raw = chars_of(concat(img_key, sub_key).as_str());
    let mut out = String::new();
    let mut k: usize = 0;
    while k < 32
        invariant
            k <= 32,
            raw@ == img_key@ + sub_key@,
            out@ == mixin_prefix(raw@, k as int),
        decreases 32 - k,
    {
        let i = mixin_index_exec(k);
        if i < raw.len() {
            push_char(&mut out, raw[i]);
        } else {
            assert(out@ + Seq::<char>::empty() == out@);
        }
        k = k + 1;
    }
    out
}

impl WbiKey {
    /// The keys of two image links, with the mixin key; made now.
    pub fn from_nav(img_url: &str, sub_url: &str) -> (r: WbiKey)
        ensures
            r.img_key@ == key_of_url(img_url@),
            r.sub_key@ == key_of_url(sub_url@),
            r.mixin_key@ == mixin_key(key_of_url(img_url@), key_of_url(sub_url@)),
    {
        let img_key = extract_key_from_url(img_url);
        let sub_key = extract_key_from_url(sub_url);
        let mixin_key = compute_mixin_key(img_key.as_str(), sub_key.as_str());
        WbiKey { img_key, sub_key, mixin_key, cached_at: instant_now() }
    }

    /// The same as [`WbiKey::from_nav`].
    pub fn from_urls(img_url: &str, sub_url: &str) -> (r: WbiKey)
        ensures
            r.img_key@ == key_of_url(img_url@),
            r.sub_key@ == key_of_url(sub_url@),
            r.mixin_key@ == mixin_key(key_of_url(img_url@), key_of_url(sub_url@)),
    {
        WbiKey::from_nav(img_url, sub_url)
    }

    /// Whether the key was made more than an hour ago: [`expired_after`] of
    /// the time that has passed since, as the clock reads it now.
    pub fn is_expired(&self) -> bool {
        expired_after(elapsed_nanos(&self.cached_at))
    }
}

/// How long a WBI key is kept, in nanoseconds: one hour.
pub const WBI_KEY_LIFETIME_NANOS: u128 = 3_600_000_000_000;

/// Whether a key that has been kept `elapsed_nanos` nanoseconds has expired:
/// it has, once more than an hour has passed.
pub fn expired_after(elapsed_nanos: u128) -> (r: bool)
    ensures
        r == (elapsed_nanos > WBI_KEY_LIFETIME_NANOS),
{
    elapsed_nanos > WBI_KEY_LIFETIME_NANOS
}

// ---------------------------------------------------------------------------
// Signing
// ---------------------------------------------------------------------------

/// Strict lexicographic order of strings by code point (the order of their
/// UTF-8 bytes).
pub open spec fn text_lt(a: Seq<char>, b: Seq<char>) -> bool
    decreases a.len(),
{
    if a.len() == 0 {
        b.len() > 0
    } else if b.len() == 0 {
        false
    } else if a[0] != b[0] {
        (a[0] as u32) < (b[0] as u32)
    } else {
        text_lt(a.drop_first(), b.drop_first())
    }
}

pub fn text_less(a: &Vec<char>, b: &Vec<char>) -> (r: bool)
    ensures
        r == text_lt(a@, b@),
{
    let mut i: usize = 0;
    assert(a@.skip(0) == a@);
    assert(b@.skip(0) == b@);
    while i < a.len() && i < b.len() && a[i] == b[i]
        invariant
            i <= a@.len(),
            i <= b@.len(),
            text_lt(a@, b@) == text_lt(a@.skip(i as int), b@.skip(i as int)),
        decreases a.len() - i,
    {
        assert(a@.skip(i as int).drop_first() == a@.skip(i + 1));
        assert(b@.skip(i as int).drop_first() == b@.skip(i + 1));
        i = i + 1;
    }
    if i == a.len() {
        i < b.len()
    } else if i == b.len() {
        false
    } else {
        (a[i] as u32) < (b[i] as u32)
    }
}

/// Where a stable sort by name puts `x` among the sorted pairs: before the
/// first pair with a greater name.
pub open spec fn insert_pos(sorted: Seq<(Seq<char>, Seq<char>)>, x: (Seq<char>, Seq<char>)) -> int
    decreases sorted.len(),
{
    if sorted.len() == 0 {
        0
    } else if text_lt(x.0, sorted[0].0) {
        0
    } else {
        1 + insert_pos(sorted.drop_first(), x)
    }
}

/// The pairs sorted by name; pairs of equal names keep their order.
pub open spec fn sort_by_name(s: Seq<(Seq<char>, Seq<char>)>) -> Seq<(Seq<char>, Seq<char>)>
    decreases s.len(),
{
    if s.len() == 0 {
        seq![]
    } else {
        let rest = sort_by_name(s.drop_last());
        rest.insert(insert_pos(rest, s.last()), s.last())
    }
}

proof fn lemma_insert_pos_bound(sorted: Seq<(Seq<char>, Seq<char>)>, x: (Seq<char>, Seq<char>))
    ensures
        0 <= insert_pos(sorted, x) <= sorted.len(),
    decreases sorted.len(),
{
    if sorted.len() > 0 {
        lemma_insert_pos_bound(sorted.drop_first(), x);
    }
}

proof fn lemma_sort_len(s: Seq<(Seq<char>, Seq<char>)>)
    ensures
        sort_by_name(s).len() == s.len(),
    decreases s.len(),
{
    if s.len() > 0 {
        lemma_sort_len(s.drop_last());
        lemma_insert_pos_bound(sort_by_name(s.drop_last()), s.last());
    }
}

/// The text that is signed: for each parameter in name order whose value
/// is not empty, the percent-encoded name and value (`.` encoded too).
pub open spec fn sign_text(sorted: Seq<(Seq<char>, Seq<char>)>) -> Seq<char>
    decreases sorted.len(),
{
    if sorted.len() == 0 {
        seq![]
    } else {
        sign_text(sorted.drop_last()) + if sorted.last().1.len() == 0 {
            seq![]
        } else {
            url_enc(sorted.last().0, false) + url_enc(sorted.last().1, false)
        }
    }
}

/// The `w_rid` signature of parameters with a mixin key.
pub open spec fn signature(params: Seq<(Seq<char>, Seq<char>)>, mixin: Seq<char>) -> Seq<char> {
    hex_enc(md5_digest(encode_utf8(sign_text(sort_by_name(params)) + mixin)))
}

struct Param {
    name: Vec<char>,
    value: Vec<char>,
}

spec fn param_view(p: Param) -> (Seq<char>, Seq<char>) {
    (p.name@, p.value@)
}

/// The `w_rid` signature of the query parameters (see [`signature`]).
pub fn sign_query(params: &[(&str, &str)], wbi: &WbiKey) -> (r: String)
    ensures
        r@ == signature(params@.map_values(|p: (&str, &str)| (p.0@, p.1@)), wbi.mixin_key@),
{
    let ghost input = params@.map_values(|p: (&str, &str)| (p.0@, p.1@));
    let mut sorted: Vec<Param> = Vec::new();
    let mut i: usize = 0;
    while i < params.len()
        invariant
            i <= params@.len(),
            input == params@.map_values(|p: (&str, &str)| (p.0@, p.1@)),
            sorted@.map_values(|p: Param| param_view(p)) == sort_by_name(input.take(i as int)),
        decreases params.len() - i,
    {
        let (k, v) = params[i];
        let x = Param { name: chars_of(k), value: chars_of(v) };
        let ghost xv = param_view(x);
        let ghost before = sorted@.map_values(|p: Param| param_view(p));
        let mut pos: usize = 0;
        proof {
            lemma_sort_len(input.take(i as int));
            assert(before.skip(0) == before);
        }
        while pos < sorted.len() && !text_less(&x.name, &sorted[pos].name)
            invariant
                pos <= sorted@.len(),
                before == sorted@.map_values(|p: Param| param_view(p)),
                xv == param_view(x),
                insert_pos(before, xv) == pos + insert_pos(before.skip(pos as int), xv),
            decreases sorted.len() - pos,
        {
            assert(before.skip(pos as int).drop_first() == before.skip(pos + 1));
            pos = pos + 1;
        }
        proof {
            assert(insert_pos(before.skip(pos as int), xv) == 0);
            let t = input.take(i + 1);
            assert(t.drop_last() == input.take(i as int));
            assert(t.last() == xv);
        }
        sorted.insert(pos, x);
        proof {
            assert(sorted@.map_values(|p: Param| param_view(p)) =~= before.insert(pos as int, xv));
        }
        i = i + 1;
    }
    assert(input.take(params@.len() as int) == input);
    let ghost sv = sorted@.map_values(|p: Param| param_view(p));
    let mut s = String::new();
    let mut j: usize = 0;
    while j < sorted.len()
        invariant
            j <= sorted@.len(),
            sv == sorted@.map_values(|p: Param| param_view(p)),
            s@ == sign_text(sv.take(j as int)),
        decreases sorted.len() - j,
    {
        let p = &sorted[j];
        proof {
            let t = sv.take(j + 1);
            assert(t.drop_last() == sv.take(j as int));
            assert(t.last() == param_view(*p));
        }
        if p.value.len() > 0 {
            let name = string_of_range(&p.name, 0, p.name.len());
            let value = string_of_range(&p.value, 0, p.value.len());
            assert(p.name@.subrange(0, p.name@.len() as int) == p.name@);
            assert(p.value@.subrange(0, p.value@.len() as int) == p.value@);
            let en = encode_component(name.as_str(), false);
            let ev = encode_component(value.as_str(), false);
            push_str(&mut s, en.as_str());
            push_str(&mut s, ev.as_str());
        } else {
            assert(s@ + Seq::<char>::empty() == s@);
        }
        j = j + 1;
    }
    assert(sv.take(sv.len() as int) == sv);
    push_str(&mut s, wbi.mixin_key.as_str());
    let bytes = s.as_str().as_bytes();
    md5_hex(bytes)
}

/// `urlencoding::encode`'s result for bytes: ASCII letters, digits and
/// `- . _ ~` stay; every other byte becomes `%XX` (uppercase).
pub open spec fn query_enc(b: Seq<u8>) -> Seq<char>
    decreases b.len(),
{
    if b.len() == 0 {
        seq![]
    } else {
        query_enc(b.drop_last()) + {
            let x = b.last();
            if (48 <= x <= 57) || (65 <= x <= 90) || (97 <= x <= 122) || x == 45 || x == 46 || x
                == 95 || x == 126 {
                seq![x as char]
            } else {
                seq!['%', hex_upper((x / 16) as int), hex_upper((x % 16) as int)]
            }
        }
    }
}

/// `urlencoding::encode(s)`: percent-encodes every byte of `s` except ASCII
/// letters, digits and `- . _ ~`.
#[verifier::external_body]
fn query_encode(s: &str) -> (r: String)
    ensures
        r@ == query_enc(encode_utf8(s@)),
{
    urlencoding::encode(s).into_owned()
}

/// The decimal text of a signed number (`i64::to_string`).
pub open spec fn dec_i64(n: i64) -> Seq<char> {
    if n < 0 {
        "-"@ + dec((-(n as int)) as nat)
    } else {
        dec(n as nat)
    }
}

fn push_dec_i64(out: &mut String, n: i64)
    ensures
        final(out)@ == old(out)@ + dec_i64(n),
{
    if n < 0 {
        push_str(out, "-");
        let m: u64 = if n == i64::MIN {
            9223372036854775808u64
        } else {
            (-n) as u64
        };
        push_dec(out, m);
    } else {
        push_dec(out, n as u64);
    }
}

/// `name=value` pairs, the value encoded by [`query_enc`], joined by `&`.
pub open spec fn query_pairs(q: Seq<(Seq<char>, Seq<char>)>) -> Seq<char>
    decreases q.len(),
{
    if q.len() == 0 {
        seq![]
    } else if q.len() == 1 {
        q[0].0 + "="@ + query_enc(encode_utf8(q[0].1))
    } else {
        query_pairs(q.drop_last()) + "&"@ + q.last().0 + "="@ + query_enc(encode_utf8(q.last().1))
    }
}

/// The signed link: `base?<params and wts, encoded>&w_rid=<signature>`.
pub open spec fn signed_url(
    base: Seq<char>,
    params: Seq<(Seq<char>, Seq<char>)>,
    mixin: Seq<char>,
    wts: i64,
) -> Seq<char> {
    let q = params.push(("wts"@, dec_i64(wts)));
    base + "?"@ + query_pairs(q) + "&w_rid="@ + signature(q, mixin)
}

/// The signed link of an API query at time `wts` (seconds since the epoch):
/// the parameters and `wts`, in that order, percent-encoded, then `w_rid`.
pub fn build_wbi_signed_url_at(
    base: &str,
    params: &Vec<(&str, String)>,
    wbi: &WbiKey,
    wts: i64,
) -> (r: String)
    ensures
        r@ == signed_url(
            base@,
            params@.map_values(|p: (&str, String)| (p.0@, p.1@)),
            wbi.mixin_key@,
            wts,
        ),
{
    let ghost pv = params@.map_values(|p: (&str, String)| (p.0@, p.1@));
    let mut wts_text = String::new();
    push_dec_i64(&mut wts_text, wts);
    let mut for_sign: Vec<(&str, &str)> = Vec::new();
    let mut i: usize = 0;
    while i < params.len()
        invariant
            i <= params@.len(),
            pv == params@.map_values(|p: (&str, String)| (p.0@, p.1@)),
            for_sign@.map_values(|p: (&str, &str)| (p.0@, p.1@)) == pv.take(i as int),
        decreases params.len() - i,
    {
        let pr = &params[i];
        let k: &str = pr.0;
        let v: &str = pr.1.as_str();
        let ghost before = for_sign@;
        for_sign.push((k, v));
        proof {
            assert(for_sign@ == before.push((k, v)));
            assert(pv[i as int] == (k@, v@));
            let f = |p: (&str, &str)| (p.0@, p.1@);
            assert(for_sign@.map_values(f) =~= before.map_values(f).push((k@, v@)));
            assert(pv.take(i + 1) =~= pv.take(i as int).push(pv[i as int]));
            assert(for_sign@.map_values(f) =~= pv.take(i + 1));
        }
        i = i + 1;
    }
    for_sign.push(("wts", wts_text.as_str()));
    let ghost q = pv.push(("wts"@, dec_i64(wts)));
    assert(pv.take(pv.len() as int) == pv);
    assert(for_sign@.map_values(|p: (&str, &str)| (p.0@, p.1@)) =~= q);
    let w_rid = sign_query(for_sign.as_slice(), wbi);
    let mut out = owned(base);
    push_str(&mut out, "?");
    let ghost head = out@;
    let mut j: usize = 0;
    while j < for_sign.len()
        invariant
            j <= for_sign@.len(),
            q == for_sign@.map_values(|p: (&str, &str)| (p.0@, p.1@)),
            out@ == head + query_pairs(q.take(j as int)),
        decreases for_sign.len() - j,
    {
        let (k, v) = for_sign[j];
        if j > 0 {
            push_str(&mut out, "&");
        }
        push_str(&mut out, k);
        push_str(&mut out, "=");
        let ev = query_encode(v);
        push_str(&mut out, ev.as_str());
        proof {
            let t = q.take(j + 1);
            assert(t.drop_last() == q.take(j as int));
            if j == 0 {
                assert(head + query_pairs(t) == head + Seq::<char>::empty() + k@ + "="@ + ev@);
            }
        }
        j = j + 1;
    }
    assert(q.take(q.len() as int) == q);
    push_str(&mut out, "&w_rid=");
    push_str(&mut out, w_rid.as_str());
    out
}

/// `std::time::SystemTime`: a reading of the system clock, opaque here.
#[verifier::external_type_specification]
#[verifier::external_body]
pub struct ExSystemTime(std::time::SystemTime);

/// `SystemTime::now()`: the system clock's reading. Nothing is stated of it.
#[verifier::external_body]
fn system_now() -> std::time::SystemTime {
    std::time::SystemTime::now()
}

/// `t.duration_since(UNIX_EPOCH)` in whole seconds, `None` when `t` lies
/// before 1970. What the reading holds is the clock's: nothing is stated of
/// the result.
#[verifier::external_body]
fn unix_seconds(t: &std::time::SystemTime) -> Option<u64> {
    match t.duration_since(std::time::UNIX_EPOCH) {
        Ok(d) => Some(d.as_secs()),
        Err(_) => None,
    }
}

/// The signed link of an API query at the current time: `wts` is the
/// system clock's reading in seconds since 1970, on which the result is
/// [`build_wbi_signed_url_at`]'s; `None` when the clock reads before 1970
/// (or beyond what an `i64` holds).
pub fn build_wbi_signed_url(base: &str, params: &Vec<(&str, String)>, wbi: &WbiKey) -> (r: Option<(
    String,
    i64,
)>)
    ensures
        r matches Some(p) ==> p.1 >= 0 && p.0@ == signed_url(
            base@,
            params@.map_values(|q: (&str, String)| (q.0@, q.1@)),
            wbi.mixin_key@,
            p.1,
        ),
{
    let now = system_now();
    match unix_seconds(&now) {
        Some(secs) => {
            if secs > 9223372036854775807u64 {
                return None;
            }
            let wts = secs as i64;
            Some((build_wbi_signed_url_at(base, params, wbi, wts), wts))
        },
        None => None,
    }
}

/// The Bilibili mixin table, position by position.
pub open spec fn bilibili_mixin_table() -> Seq<int> {
    seq![
        46int, 47, 18, 2, 53, 8, 23, 32, 15, 50, 10, 31, 58, 3, 45, 35, 27, 43, 5, 49, 33, 9, 42,
        19, 29, 28, 14, 39, 12, 38, 41, 13,
    ]
}

proof fn lemma_mixin_prefix_full(raw: Seq<char>, k: int)
    requires
        0 <= k <= 32,
        raw.len() >= 59,
        forall|j: int| 0 <= j < 32 ==> 0 <= #[trigger] mixin_index(j) < 59,
    ensures
        mixin_prefix(raw, k).len() == k,
        forall|j: int| 0 <= j < k ==> #[trigger] mixin_prefix(raw, k)[j] == raw[mixin_index(j)],
    decreases k,
{
    if k > 0 {
        lemma_mixin_prefix_full(raw, k - 1);
        assert(0 <= mixin_index(k - 1) < 59);
        let p = mixin_prefix(raw, k - 1);
        assert(mixin_prefix(raw, k) == p + seq![raw[mixin_index(k - 1)]]);
        assert forall|j: int| 0 <= j < k implies #[trigger] mixin_prefix(raw, k)[j] == raw[mixin_index(j)] by {
            if j < k - 1 {
                assert(mixin_prefix(raw, k)[j] == p[j]);
            }
        }
    }
}

/// The mixin key of two keys that hold at least 59 characters together (two
/// 32-character keys, as the API gives them) is 32 characters long, and its
/// `k`-th character is the character of `img + sub` at entry `k` of the
/// Bilibili table `46, 47, 18, 2, 53, 8, 23, 32, 15, 50, 10, 31, 58, 3, 45,
/// 35, 27, 43, 5, 49, 33, 9, 42, 19, 29, 28, 14, 39, 12, 38, 41, 13`.
pub proof fn law_mixin_key_follows_table(img: Seq<char>, sub: Seq<char>)
    requires
        (img + sub).len() >= 59,
    ensures
        mixin_key(img, sub).len() == 32,
        forall|k: int|
            0 <= k < 32 ==> #[trigger] mixin_key(img, sub)[k] == (img + sub)[bilibili_mixin_table()[k]],
{
    let t = bilibili_mixin_table();
    assert forall|j: int| 0 <= j < 32 implies #[trigger] mixin_index(j) == t[j] && 0 <= mixin_index(j) < 59 by {
        if j == 0 {} else if j == 1 {} else if j == 2 {} else if j == 3 {} else if j == 4 {}
        else if j == 5 {} else if j == 6 {} else if j == 7 {} else if j == 8 {} else if j == 9 {}
        else if j == 10 {} else if j == 11 {} else if j == 12 {} else if j == 13 {} else if j == 14 {}
        else if j == 15 {} else if j == 16 {} else if j == 17 {} else if j == 18 {} else if j == 19 {}
        else if j == 20 {} else if j == 21 {} else if j == 22 {} else if j == 23 {} else if j == 24 {}
        else if j == 25 {} else if j == 26 {} else if j == 27 {} else if j == 28 {} else if j == 29 {}
        else if j == 30 {} else {}
    }
    lemma_mixin_prefix_full(img + sub, 32);
}

} // verus!
