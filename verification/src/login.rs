//! QR-code login: the replies of the login API and the decisions taken on
//! them while polling; the network requests and the waiting are the
//! caller's.

use vstd::prelude::*;
use crate::cookie::{CookieMap, piece_pair, pair_of_piece};
use crate::safe_url::eq_ignore_ascii_case;
use crate::text::{chars_of, has_at, is_str, owned, seq_has_at, split_on, split_ranges};

verus! {

/// A login QR code: the link to show and the key to poll with.
#[derive(Debug, Clone)]
pub struct QrGenerateResponse {
    /// The link encoded in the QR code.
    pub url: String,
    /// The key (or TV auth code) to poll with.
    pub qrcode_key: String,
}

/// The state of a QR login.
#[derive(Debug, Clone, Copy, PartialEq, Eq, Structural)]
pub enum QrStatus {
    /// Not scanned yet.
    NotScanned,
    /// Scanned, not confirmed yet.
    Scanned,
    /// Confirmed.
    Confirmed,
    /// The code expired.
    Expired,
    /// Any other state.
    Unknown,
}

/// The outcome of a poll.
#[derive(Debug)]
pub struct QrPollResponse {
    /// The state.
    pub status: QrStatus,
    /// The message of the server.
    pub message: String,
    /// The cookies received.
    pub cookies: CookieMap,
}

/// Why a login failed.
#[derive(Debug, Clone, PartialEq, Eq)]
pub enum LoginError {
    /// No key came with the QR code; holds the server's message.
    NoKey(String),
    /// Three minutes passed without a confirmation.
    TimedOut,
    /// The QR code expired.
    Expired,
    /// The login was confirmed without a link to follow.
    MissingRedirect,
    /// The login was confirmed without any cookie.
    NoCookies,
    /// The server refused the confirmation; holds its message.
    Refused(String),
    /// A redirect's `Location` could not be joined to the login link.
    BadLocation,
    /// The redirects of the login gave no cookie.
    NothingCollected,
}

/// Reads the reply to a QR code request: the link and the key, which must
/// not be empty (`message` is the server's message, for the error).
pub fn qr_from_generate(url: Option<String>, key: Option<String>, message: Option<String>) -> (r: Result<
    QrGenerateResponse,
    LoginError,
>)
    ensures
        match key {
            Some(k) => k@.len() > 0,
            None => false,
        } ==> (r matches Ok(q) && q.qrcode_key@ == key->0@ && q.url@ == match url {
            Some(u) => u@,
            None => Seq::<char>::empty(),
        }),
        !(match key {
            Some(k) => k@.len() > 0,
            None => false,
        }) ==> (r matches Err(LoginError::NoKey(m)) && m@ == match message {
            Some(x) => x@,
            None => "未知错误"@,
        }),
{
    let k = match key {
        Some(k) => k,
        None => String::new(),
    };
    if k.as_str().is_empty() {
        let m = match message {
            Some(x) => x,
            None => owned("未知错误"),
        };
        return Err(LoginError::NoKey(m));
    }
    let u = match url {
        Some(u) => u,
        None => String::new(),
    };
    Ok(QrGenerateResponse { url: u, qrcode_key: k })
}

/// What one poll of the web login gave.
#[derive(Debug, Clone)]
pub enum PollReply {
    /// The request or its JSON failed.
    Unreachable,
    /// The `data.code` and `data.url` of the reply (`None` when absent or not
    /// of the right type).
    Data { code: Option<i64>, url: Option<String> },
}

/// What to do after a poll of the web login.
#[derive(Debug, Clone, PartialEq, Eq)]
pub enum WebPollAction {
    /// Wait and poll again; the state is for display.
    Wait(QrStatus),
    /// Confirmed: follow this link to collect the cookies.
    FollowRedirect(String),
    /// Stop with an error.
    Fail(LoginError),
}

/// The status code of a reply: `data.code` when it fits in 32 bits, else -1.
pub open spec fn web_code(code: Option<i64>) -> i32 {
    match code {
        Some(c) => if i32::MIN <= c <= i32::MAX {
            c as i32
        } else {
            -1i32
        },
        None => -1i32,
    }
}

/// The decision after a poll of the web login: past the time limit, stop;
/// an unreachable server, wait; code 0 follows the link (an error without
/// one); 86038 means expired; 86090 scanned, 86101 not scanned, anything
/// else unknown: wait.
pub open spec fn web_decision(timed_out: bool, reply: PollReply) -> WebPollAction {
    if timed_out {
        WebPollAction::Fail(LoginError::TimedOut)
    } else {
        match reply {
            PollReply::Unreachable => WebPollAction::Wait(QrStatus::Unknown),
            PollReply::Data { code, url } => {
                let c = web_code(code);
                if c == 0 {
                    match url {
                        Some(u) => WebPollAction::FollowRedirect(u),
                        None => WebPollAction::Fail(LoginError::MissingRedirect),
                    }
                } else if c == 86038 {
                    WebPollAction::Fail(LoginError::Expired)
                } else if c == 86090 {
                    WebPollAction::Wait(QrStatus::Scanned)
                } else if c == 86101 {
                    WebPollAction::Wait(QrStatus::NotScanned)
                } else {
                    WebPollAction::Wait(QrStatus::Unknown)
                }
            },
        }
    }
}

/// The decision after a poll of the web login (see [`web_decision`]).
pub fn web_poll_step(timed_out: bool, reply: PollReply) -> (r: WebPollAction)
    ensures
        r == web_decision(timed_out, reply),
{
    if timed_out {
        return WebPollAction::Fail(LoginError::TimedOut);
    }
    match reply {
        PollReply::Unreachable => WebPollAction::Wait(QrStatus::Unknown),
        PollReply::Data { code, url } => {
            let c: i32 = match code {
                Some(c) => if i32::MIN as i64 <= c && c <= i32::MAX as i64 {
                    c as i32
                } else {
                    -1
                },
                None => -1,
            };
            if c == 0 {
                match url {
                    Some(u) => WebPollAction::FollowRedirect(u),
                    None => WebPollAction::Fail(LoginError::MissingRedirect),
                }
            } else if c == 86038 {
                WebPollAction::Fail(LoginError::Expired)
            } else if c == 86090 {
                WebPollAction::Wait(QrStatus::Scanned)
            } else if c == 86101 {
                WebPollAction::Wait(QrStatus::NotScanned)
            } else {
                WebPollAction::Wait(QrStatus::Unknown)
            }
        },
    }
}

/// The cookie fields of a TV login reply.
#[derive(Debug, Clone)]
pub struct TvCookieFields {
    /// `data.sessdata`.
    pub sessdata: Option<String>,
    /// `data.bili_jct`.
    pub bili_jct: Option<String>,
    /// `data.dedeuserid`.
    pub dedeuserid: Option<String>,
    /// `data.ac_time_value`.
    pub ac_time_value: Option<String>,
}

/// The cookies of a TV login reply: each field that is present, under its
/// own name.
pub open spec fn tv_cookie_map(f: TvCookieFields) -> Map<Seq<char>, Seq<char>> {
    let m0 = Map::<Seq<char>, Seq<char>>::empty();
    let m1 = match f.sessdata {
        Some(v) => m0.insert("sessdata"@, v@),
        None => m0,
    };
    let m2 = match f.bili_jct {
        Some(v) => m1.insert("bili_jct"@, v@),
        None => m1,
    };
    let m3 = match f.dedeuserid {
        Some(v) => m2.insert("dedeuserid"@, v@),
        None => m2,
    };
    match f.ac_time_value {
        Some(v) => m3.insert("ac_time_value"@, v@),
        None => m3,
    }
}

/// The cookies of a TV login reply (see [`tv_cookie_map`]).
pub fn tv_cookies(f: TvCookieFields) -> (r: CookieMap)
    ensures
        r.map() == tv_cookie_map(f),
{
    let ghost fv = f;
    let mut m = CookieMap::new();
    match f.sessdata {
        Some(v) => m.insert(owned("sessdata"), v),
        None => {},
    }
    match f.bili_jct {
        Some(v) => m.insert(owned("bili_jct"), v),
        None => {},
    }
    match f.dedeuserid {
        Some(v) => m.insert(owned("dedeuserid"), v),
        None => {},
    }
    match f.ac_time_value {
        Some(v) => m.insert(owned("ac_time_value"), v),
        None => {},
    }
    m
}

/// What to do after a poll of the TV login.
#[derive(Debug)]
pub enum TvPollAction {
    /// Wait and poll again; the state is for display.
    Wait(QrStatus),
    /// Logged in with these cookies.
    Done(CookieMap),
    /// Stop with an error.
    Fail(LoginError),
}

/// The decision after a poll of the TV login: past the time limit, stop; an
/// unreachable server, wait; code 0 (`data.code` cut to 32 bits, -1 when
/// absent) gives the cookies, an error when there are none; 86038 means
/// expired; 86039 confirmed, anything else unknown: wait.
pub fn tv_poll_step(timed_out: bool, reachable: bool, code: Option<i64>, fields: TvCookieFields) -> (r:
    TvPollAction)
    ensures
        timed_out ==> r matches TvPollAction::Fail(LoginError::TimedOut),
        !timed_out && !reachable ==> r matches TvPollAction::Wait(QrStatus::Unknown),
        !timed_out && reachable ==> {
            let c = (match code {
                Some(c) => c,
                None => -1i64,
            }) as i32;
            &&& c == 0 && tv_cookie_map(fields).len() > 0 ==> (r matches TvPollAction::Done(m)
                && m.map() == tv_cookie_map(fields))
            &&& c == 0 && tv_cookie_map(fields).len() == 0 ==> (r matches TvPollAction::Fail(
                LoginError::NoCookies,
            ))
            &&& c == 86038 ==> (r matches TvPollAction::Fail(LoginError::Expired))
            &&& c == 86039 ==> (r matches TvPollAction::Wait(QrStatus::Confirmed))
            &&& c != 0 && c != 86038 && c != 86039 ==> (r matches TvPollAction::Wait(
                QrStatus::Unknown,
            ))
        },
{
    if timed_out {
        return TvPollAction::Fail(LoginError::TimedOut);
    }
    if !reachable {
        return TvPollAction::Wait(QrStatus::Unknown);
    }
    let raw: i64 = match code {
        Some(c) => c,
        None => -1,
    };
    let c = raw as i32;
    if c == 0 {
        let m = tv_cookies(fields);
        if m.len() == 0 {
            TvPollAction::Fail(LoginError::NoCookies)
        } else {
            TvPollAction::Done(m)
        }
    } else if c == 86038 {
        TvPollAction::Fail(LoginError::Expired)
    } else if c == 86039 {
        TvPollAction::Wait(QrStatus::Confirmed)
    } else {
        TvPollAction::Wait(QrStatus::Unknown)
    }
}

/// Reads the reply to a TV login confirmation: code 0 gives the cookies,
/// any other code (or none) is refused with the server's message.
pub fn tv_confirm_result(code: Option<i64>, message: Option<String>, fields: TvCookieFields) -> (r: Result<
    CookieMap,
    LoginError,
>)
    ensures
        ((match code {
            Some(c) => c,
            None => -1i64,
        }) as i32 == 0) ==> (r matches Ok(m) && m.map() == tv_cookie_map(fields)),
        ((match code {
            Some(c) => c,
            None => -1i64,
        }) as i32 != 0) ==> (r matches Err(LoginError::Refused(msg)) && msg@ == match message {
            Some(x) => x@,
            None => "未知错误"@,
        }),
{
    let raw: i64 = match code {
        Some(c) => c,
        None => -1,
    };
    if raw as i32 != 0 {
        let m = match message {
            Some(x) => x,
            None => owned("未知错误"),
        };
        return Err(LoginError::Refused(m));
    }
    Ok(tv_cookies(fields))
}

/// The cookie names that the web login keeps from `Set-Cookie` headers
/// (compared without regard to ASCII case).
pub open spec fn login_cookie_name(k: Seq<char>) -> bool {
    eq_ignore_ascii_case("SESSDATA"@, k) || eq_ignore_ascii_case("bili_jct"@, k)
        || eq_ignore_ascii_case("DedeUserID"@, k) || eq_ignore_ascii_case("buvid3"@, k)
        || eq_ignore_ascii_case("buvid4"@, k) || eq_ignore_ascii_case("dedeuserid"@, k)
        || eq_ignore_ascii_case("sessdata"@, k) || eq_ignore_ascii_case("ac_time_value"@, k)
}

fn eq_ignore_case(a: &str, b: &String) -> (r: bool)
    ensures
        r == eq_ignore_ascii_case(a@, b@),
{
    let bv = chars_of(b.as_str());
    let r = crate::safe_url::eq_ignore_case_range(&bv, 0, bv.len(), a);
    assert(bv@.subrange(0, bv@.len() as int) == bv@);
    proof {
        if r {
            assert forall|i: int| 0 <= i < a@.len() implies crate::safe_url::ascii_lower(
                #[trigger] a@[i],
            ) == crate::safe_url::ascii_lower(b@[i]) by {
                assert(crate::safe_url::ascii_lower(bv@[i]) == crate::safe_url::ascii_lower(a@[i]));
            }
        }
        if eq_ignore_ascii_case(a@, b@) {
            assert forall|i: int| 0 <= i < bv@.len() implies crate::safe_url::ascii_lower(
                #[trigger] bv@[i],
            ) == crate::safe_url::ascii_lower(a@[i]) by {
                assert(crate::safe_url::ascii_lower(a@[i]) == crate::safe_url::ascii_lower(b@[i]));
            }
        }
    }
    r
}

fn login_cookie_name_exec(k: &String) -> (r: bool)
    ensures
        r == login_cookie_name(k@),
{
    eq_ignore_case("SESSDATA", k) || eq_ignore_case("bili_jct", k) || eq_ignore_case("DedeUserID", k)
        || eq_ignore_case("buvid3", k) || eq_ignore_case("buvid4", k) || eq_ignore_case(
        "dedeuserid",
        k,
    ) || eq_ignore_case("sessdata", k) || eq_ignore_case("ac_time_value", k)
}

/// The `(name, value)` pairs kept from one `Set-Cookie` header: every
/// `;`-piece with a kept name.
pub open spec fn header_cookies(pieces: Seq<Seq<char>>, m: Map<Seq<char>, Seq<char>>) -> Map<Seq<char>, Seq<char>>
    decreases pieces.len(),
{
    if pieces.len() == 0 {
        m
    } else {
        let before = header_cookies(pieces.drop_last(), m);
        match piece_pair(pieces.last()) {
            Some((k, v)) => if login_cookie_name(k) {
                before.insert(k, v)
            } else {
                before
            },
            None => before,
        }
    }
}

/// The cookies kept from a list of `Set-Cookie` headers, later ones winning.
pub open spec fn headers_cookies(headers: Seq<Seq<char>>) -> Map<Seq<char>, Seq<char>>
    decreases headers.len(),
{
    if headers.len() == 0 {
        Map::empty()
    } else {
        header_cookies(split_on(headers.last(), ';'), headers_cookies(headers.drop_last()))
    }
}


/// The cookies kept from the `Set-Cookie` headers of a login reply: every
/// `name=value` piece of every header whose name is one of the login
/// cookies (any ASCII case); later ones win.
pub fn extract_cookies_from_headers(headers: &[String]) -> (r: CookieMap)
    ensures
        r.map() == headers_cookies(headers@.map_values(|h: String| h@)),
{
    let ghost hs = headers@.map_values(|h: String| h@);
    let mut m = CookieMap::new();
    let mut i: usize = 0;
    while i < headers.len()
        invariant
            i <= headers@.len(),
            hs == headers@.map_values(|h: String| h@),
            m.map() == headers_cookies(hs.take(i as int)),
        decreases headers.len() - i,
    {
        let v = chars_of(headers[i].as_str());
        let ranges = split_ranges(&v, ';');
        let ghost pieces = split_on(v@, ';');
        let ghost start = m.map();
        let mut j: usize = 0;
        while j < ranges.len()
            invariant
                j <= ranges@.len(),
                pieces == split_on(v@, ';'),
                ranges@.len() == pieces.len(),
                forall|t: int|
                    0 <= t < ranges@.len() ==> #[trigger] ranges@[t].0 <= ranges@[t].1 <= v@.len()
                        && v@.subrange(ranges@[t].0 as int, ranges@[t].1 as int) == pieces[t],
                m.map() == header_cookies(pieces.take(j as int), start),
            decreases ranges.len() - j,
        {
            let (lo, hi) = ranges[j];
            let p = pair_of_piece(&v, lo, hi);
            proof {
                let t = pieces.take(j + 1);
                assert(t.drop_last() == pieces.take(j as int));
                assert(t.last() == pieces[j as int]);
            }
            match p {
                Some((k, val)) => {
                    if login_cookie_name_exec(&k) {
                        m.insert(k, val);
                    }
                },
                None => {},
            }
            j = j + 1;
        }
        proof {
            assert(pieces.take(pieces.len() as int) == pieces);
            let t = hs.take(i + 1);
            assert(t.drop_last() == hs.take(i as int));
            assert(t.last() == v@);
        }
        i = i + 1;
    }
    assert(hs.take(hs.len() as int) == hs);
    m
}

/// The query pairs (percent-decoded) that the `url` crate reads from an
/// absolute URL, or `None` when the text is not one.
pub uninterp spec fn url_query_pairs(s: Seq<char>) -> Option<Seq<(Seq<char>, Seq<char>)>>;

/// `url::Url::parse(s)` then `query_pairs()`, as owned strings.
#[verifier::external_body]
fn query_pairs(s: &str) -> (r: Option<Vec<(String, String)>>)
    ensures
        match url_query_pairs(s@) {
            Some(q) => r matches Some(v) && v@.map_values(|p: (String, String)| (p.0@, p.1@)) == q,
            None => r is None,
        },
{
    match url::Url::parse(s) {
        Ok(u) => Some(u.query_pairs().map(|(k, v)| (k.into_owned(), v.into_owned())).collect()),
        Err(_) => None,
    }
}

/// The names taken from the query of the login link (any ASCII case).
pub open spec fn auth_param_name(k: Seq<char>) -> bool {
    eq_ignore_ascii_case("SESSDATA"@, k) || eq_ignore_ascii_case("bili_jct"@, k)
        || eq_ignore_ascii_case("DedeUserID"@, k) || eq_ignore_ascii_case("buvid3"@, k)
}

/// The login cookies carried in the query of a link, later ones winning.
pub open spec fn auth_params(q: Seq<(Seq<char>, Seq<char>)>) -> Map<Seq<char>, Seq<char>>
    decreases q.len(),
{
    if q.len() == 0 {
        Map::empty()
    } else if auth_param_name(q.last().0) {
        auth_params(q.drop_last()).insert(q.last().0, q.last().1)
    } else {
        auth_params(q.drop_last())
    }
}

/// The login cookies (`SESSDATA`, `bili_jct`, `DedeUserID`, `buvid3`)
/// carried in the query of the login link; none when it is not a URL.
pub fn parse_auth_query_params(redirect_url: &str) -> (r: CookieMap)
    ensures
        match url_query_pairs(redirect_url@) {
            Some(q) => r.map() == auth_params(q),
            None => r.map() == Map::<Seq<char>, Seq<char>>::empty(),
        },
{
    let mut m = CookieMap::new();
    match query_pairs(redirect_url) {
        None => m,
        Some(pairs) => {
            let ghost q = pairs@.map_values(|p: (String, String)| (p.0@, p.1@));
            let mut i: usize = 0;
            while i < pairs.len()
                invariant
                    i <= pairs@.len(),
                    q == pairs@.map_values(|p: (String, String)| (p.0@, p.1@)),
                    m.map() == auth_params(q.take(i as int)),
                decreases pairs.len() - i,
            {
                let (k, v) = &pairs[i];
                let keep = eq_ignore_case("SESSDATA", k) || eq_ignore_case("bili_jct", k)
                    || eq_ignore_case("DedeUserID", k) || eq_ignore_case("buvid3", k);
                proof {
                    let t = q.take(i + 1);
                    assert(t.drop_last() == q.take(i as int));
                    assert(t.last() == (k@, v@));
                }
                if keep {
                    m.insert(k.clone(), v.clone());
                }
                i = i + 1;
            }
            assert(q.take(q.len() as int) == q);
            m
        },
    }
}

/// The link that `base` joined with `reference` gives (`Url::join`), or
/// `None` when it cannot be made.
pub uninterp spec fn url_joined(base: Seq<char>, reference: Seq<char>) -> Option<Seq<char>>;

/// `url::Url::parse(base)` then `join(reference)`, as text (`None` when
/// either fails).
#[verifier::external_body]
fn url_join(base: &str, reference: &str) -> (r: Option<String>)
    ensures
        match url_joined(base@, reference@) {
            Some(u) => r matches Some(s) && s@ == u,
            None => r is None,
        },
{
    match url::Url::parse(base) {
        Ok(b) => b.join(reference).ok().map(|u| u.to_string()),
        Err(_) => None,
    }
}

/// The next link of a login redirect: a `Location` that starts with `http`
/// as it is; otherwise joined with the first link of the chain (or with
/// `https://www.bilibili.com` when that is not a URL).
pub open spec fn next_hop(first: Seq<char>, location: Seq<char>) -> Option<Seq<char>> {
    if seq_has_at(location, 0, "http"@) {
        Some(location)
    } else if crate::safe_url::url_parts(first) is Some {
        url_joined(first, location)
    } else {
        url_joined("https://www.bilibili.com"@, location)
    }
}

/// The next link of a login redirect (see [`next_hop`]).
pub fn resolve_location(first: &str, location: &str) -> (r: Option<String>)
    ensures
        match next_hop(first@, location@) {
            Some(u) => r matches Some(s) && s@ == u,
            None => r is None,
        },
{
    let lv = chars_of(location);
    if has_at(&lv, 0, "http") {
        return Some(owned(location));
    }
    match crate::safe_url::parse_url_parts(first) {
        Some(_) => url_join(first, location),
        None => url_join("https://www.bilibili.com", location),
    }
}

/// Where the login's redirect chain goes after a reply: nowhere (`None`)
/// unless the reply is a redirect with a `Location`; then to that location
/// (see [`next_hop`]), an error where it cannot be joined.
pub fn next_login_hop(first: &str, is_redirect: bool, location: Option<&str>) -> (r: Result<
    Option<String>,
    LoginError,
>)
    ensures
        !is_redirect || location is None ==> r == Ok::<Option<String>, LoginError>(None),
        is_redirect && location is Some ==> match next_hop(first@, location->0@) {
            Some(u) => r matches Ok(Some(s)) && s@ == u,
            None => r == Err::<Option<String>, LoginError>(LoginError::BadLocation),
        },
{
    if !is_redirect {
        return Ok(None);
    }
    match location {
        None => Ok(None),
        Some(loc) => match resolve_location(first, loc) {
            Some(u) => Ok(Some(u)),
            None => Err(LoginError::BadLocation),
        },
    }
}

/// The cookies a login collected: refused when there are none.
pub fn finish_login_cookies(cookies: CookieMap) -> (r: Result<CookieMap, LoginError>)
    ensures
        cookies.map() == Map::<Seq<char>, Seq<char>>::empty() ==> r == Err::<CookieMap, LoginError>(
            LoginError::NothingCollected,
        ),
        cookies.map() != Map::<Seq<char>, Seq<char>>::empty() ==> (r matches Ok(c) && c.map()
            == cookies.map()),
{
    if cookies.is_empty() {
        Err(LoginError::NothingCollected)
    } else {
        Ok(cookies)
    }
}

} // verus!

verus! {

/// The text picture of the QR code of `data` that `qrcode` draws with
/// half-block characters (two rows of modules per line), or `None` when the
/// data does not fit in a QR code.
pub uninterp spec fn qr_dense_text(data: Seq<char>) -> Option<Seq<char>>;

/// `qrcode::QrCode::new(data)` (medium error correction, smallest version),
/// drawn by `render::<unicode::Dense1x2>()` with the dark and light colours
/// of that style. Claimed: the result is [`qr_dense_text`] of the data, a
/// function of the data alone; `None` where the crate refuses the data.
#[verifier::external_body]
fn qr_text(data: &str) -> (r: Option<String>)
    ensures
        match qr_dense_text(data@) {
            Some(t) => r matches Some(s) && s@ == t,
            None => r is None,
        },
{
    match qrcode::QrCode::new(data) {
        Ok(code) => Some(
            code.render::<qrcode::render::unicode::Dense1x2>()
                .dark_color(qrcode::render::unicode::Dense1x2::Dark)
                .light_color(qrcode::render::unicode::Dense1x2::Light)
                .build(),
        ),
        Err(_) => None,
    }
}

/// The QR picture that a login link is shown as on the terminal (see
/// [`qr_dense_text`]); `None` when the link does not fit in a QR code.
pub fn qr_login_image(url: &str) -> (r: Option<String>)
    ensures
        match qr_dense_text(url@) {
            Some(t) => r matches Some(s) && s@ == t,
            None => r is None,
        },
{
    qr_text(url)
}

} // verus!
