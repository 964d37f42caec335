//! The Bilibili web API: the links of its endpoints, the parameters of the
//! signed ones, and what is read from the few replies that are not handed
//! to an extractor. The requests themselves are the caller's.

use vstd::prelude::*;
use rand::Rng;
use crate::text::{dec, owned, push_char, push_dec, push_str};

verus! {

/// The `fnval` of play-link requests: every DASH format.
pub const FNVAL_DASH_ALL: &'static str = "4048";

/// A link made of a fixed prefix and a number.
pub open spec fn numbered(prefix: Seq<char>, n: nat) -> Seq<char> {
    prefix + dec(n)
}

fn numbered_link(prefix: &str, n: u64) -> (r: String)
    ensures
        r@ == numbered(prefix@, n as nat),
{
    let mut r = owned(prefix);
    push_dec(&mut r, n);
    r
}

/// The link of a video's information.
pub fn view_url(bvid: &str) -> (r: String)
    ensures
        r@ == "https://api.bilibili.com/x/web-interface/view?bvid="@ + bvid@,
{
    crate::text::concat("https://api.bilibili.com/x/web-interface/view?bvid=", bvid)
}

/// The link of a video's list of parts.
pub fn pagelist_url(bvid: &str) -> (r: String)
    ensures
        r@ == "https://api.bilibili.com/x/player/pagelist?bvid="@ + bvid@ + "&jsonp=jsonp"@,
{
    let mut r = crate::text::concat("https://api.bilibili.com/x/player/pagelist?bvid=", bvid);
    push_str(&mut r, "&jsonp=jsonp");
    r
}

/// The link of the play links of a part, at quality `qn`.
pub fn playurl_url(bvid: &str, cid: u64, qn: u32) -> (r: String)
    ensures
        r@ == "https://api.bilibili.com/x/player/playurl?bvid="@ + bvid@ + "&cid="@ + dec(
            cid as nat,
        ) + "&qn="@ + dec(qn as nat) + "&fnval="@ + FNVAL_DASH_ALL@
            + "&fnver=0&fourk=1&platform=html5&high_quality=1"@,
{
    let mut r = crate::text::concat("https://api.bilibili.com/x/player/playurl?bvid=", bvid);
    push_str(&mut r, "&cid=");
    push_dec(&mut r, cid);
    push_str(&mut r, "&qn=");
    push_dec(&mut r, qn as u64);
    push_str(&mut r, "&fnval=");
    push_str(&mut r, FNVAL_DASH_ALL);
    push_str(&mut r, "&fnver=0&fourk=1&platform=html5&high_quality=1");
    r
}

/// The link of a bangumi season.
pub fn bangumi_season_url(season_id: u64) -> (r: String)
    ensures
        r@ == numbered("https://api.bilibili.com/pgc/view/web/season?season_id="@, season_id as nat),
{
    numbered_link("https://api.bilibili.com/pgc/view/web/season?season_id=", season_id)
}

/// The link of a bangumi episode.
pub fn bangumi_ep_url(ep_id: u64) -> (r: String)
    ensures
        r@ == numbered("https://api.bilibili.com/pgc/view/web/ep?ep_id="@, ep_id as nat),
{
    numbered_link("https://api.bilibili.com/pgc/view/web/ep?ep_id=", ep_id)
}

/// The link of a page (30 items) of a user's collection.
pub fn collection_url(mid: u64, sid: u64, page: u32) -> (r: String)
    ensures
        r@ == "https://api.bilibili.com/x/polymer/space/seasons_archives_list?mid="@ + dec(
            mid as nat,
        ) + "&season_id="@ + dec(sid as nat) + "&page_num="@ + dec(page as nat)
            + "&page_size=30"@,
{
    let mut r = numbered_link(
        "https://api.bilibili.com/x/polymer/space/seasons_archives_list?mid=",
        mid,
    );
    push_str(&mut r, "&season_id=");
    push_dec(&mut r, sid);
    push_str(&mut r, "&page_num=");
    push_dec(&mut r, page as u64);
    push_str(&mut r, "&page_size=30");
    r
}

/// The link of a series.
pub fn series_url(series_id: u64) -> (r: String)
    ensures
        r@ == numbered("https://api.bilibili.com/x/series/series?series_id="@, series_id as nat),
{
    numbered_link("https://api.bilibili.com/x/series/series?series_id=", series_id)
}

/// The link of a course season.
pub fn cheese_season_url(season_id: u64) -> (r: String)
    ensures
        r@ == numbered("https://api.bilibili.com/pugv/view/web/season?season_id="@, season_id as nat),
{
    numbered_link("https://api.bilibili.com/pugv/view/web/season?season_id=", season_id)
}

/// The link of a part's danmaku in XML.
pub fn danmaku_xml_url(oid: u64) -> (r: String)
    ensures
        r@ == numbered("https://api.bilibili.com/x/v1/dm/list.so?oid="@, oid as nat),
{
    numbered_link("https://api.bilibili.com/x/v1/dm/list.so?oid=", oid)
}

/// The link that gives the season of a bangumi media id.
pub fn media_season_url(media_id: u64) -> (r: String)
    ensures
        r@ == numbered("https://api.bilibili.com/pgc/review/user/media?media_id="@, media_id as nat),
{
    numbered_link("https://api.bilibili.com/pgc/review/user/media?media_id=", media_id)
}

/// A signed request: its base link and its parameters before signing.
pub struct SignedRequest {
    /// The base link.
    pub base: &'static str,
    /// The parameters, in order.
    pub params: Vec<(&'static str, String)>,
}

/// The parameters of a request, as plain values.
pub open spec fn params_view(p: Seq<(&'static str, String)>) -> Seq<(Seq<char>, Seq<char>)> {
    p.map_values(|x: (&'static str, String)| (x.0@, x.1@))
}

fn param(name: &'static str, value: String) -> (r: (&'static str, String))
    ensures
        r.0 == name && r.1 == value,
{
    (name, value)
}

/// The request of a part's subtitles.
pub fn subtitles_request(bvid: &str, cid: u64) -> (r: SignedRequest)
    ensures
        r.base@ == "https://api.bilibili.com/x/player/wbi/v2"@,
        params_view(r.params@) == seq![("bvid"@, bvid@), ("cid"@, dec(cid as nat))],
{
    let params = vec![param("bvid", owned(bvid)), param("cid", crate::text::dec_string(cid))];
    let r = SignedRequest { base: "https://api.bilibili.com/x/player/wbi/v2", params };
    assert(params_view(r.params@) =~= seq![("bvid"@, bvid@), ("cid"@, dec(cid as nat))]);
    r
}

/// An ASCII letter or digit.
pub open spec fn ascii_alnum(c: char) -> bool {
    ('a' <= c && c <= 'z') || ('A' <= c && c <= 'Z') || ('0' <= c && c <= '9')
}

/// One sample of `rand`'s `Alphanumeric` distribution from the thread's
/// generator. Claimed: an ASCII letter or digit; which one is left to
/// chance.
#[verifier::external_body]
fn random_alnum_byte() -> (b: u8)
    ensures
        ascii_alnum(b as char),
{
    rand::thread_rng().sample(rand::distributions::Alphanumeric)
}

/// `len` random ASCII letters and digits.
pub fn random_alphanumeric(len: usize) -> (r: String)
    ensures
        r@.len() == len,
        forall|i: int| 0 <= i < len ==> ascii_alnum(#[trigger] r@[i]),
{
    let mut r = String::new();
    let mut i: usize = 0;
    while i < len
        invariant
            i <= len,
            r@.len() == i,
            forall|k: int| 0 <= k < i ==> ascii_alnum(#[trigger] r@[k]),
        decreases len - i,
    {
        let b = random_alnum_byte();
        push_char(&mut r, b as char);
        i = i + 1;
    }
    r
}

/// The request of a page (30 items, newest first) of a user's uploads,
/// with the two random strings it carries.
pub fn space_archives_request(mid: u64, page: u32) -> (r: SignedRequest)
    ensures
        r.base@ == "https://api.bilibili.com/x/space/wbi/arc/search"@,
        r.params@.len() == 9,
        params_view(r.params@).take(8) == seq![
            ("mid"@, dec(mid as nat)),
            ("ps"@, "30"@),
            ("pn"@, dec(page as nat)),
            ("order"@, "pubdate"@),
            ("tid"@, "0"@),
            ("keyword"@, Seq::<char>::empty()),
            ("dm_img_list"@, "[]"@),
            ("dm_img_str"@, r.params@[7].1@),
        ],
        r.params@[7].1@.len() == 32,
        r.params@[8].0@ == "dm_cover_img_str"@,
        r.params@[8].1@.len() == 64,
{
    let params = vec![
        param("mid", crate::text::dec_string(mid)),
        param("ps", owned("30")),
        param("pn", crate::text::dec_string(page as u64)),
        param("order", owned("pubdate")),
        param("tid", owned("0")),
        param("keyword", String::new()),
        param("dm_img_list", owned("[]")),
        param("dm_img_str", random_alphanumeric(32)),
        param("dm_cover_img_str", random_alphanumeric(64)),
    ];
    let r = SignedRequest { base: "https://api.bilibili.com/x/space/wbi/arc/search", params };
    assert(params_view(r.params@).take(8) =~= seq![
        ("mid"@, dec(mid as nat)),
        ("ps"@, "30"@),
        ("pn"@, dec(page as nat)),
        ("order"@, "pubdate"@),
        ("tid"@, "0"@),
        ("keyword"@, Seq::<char>::empty()),
        ("dm_img_list"@, "[]"@),
        ("dm_img_str"@, r.params@[7].1@),
    ]);
    r
}

/// The request of a page (20 items) of a favourite folder.
pub fn fav_folder_request(media_id: u64, page: u32) -> (r: SignedRequest)
    ensures
        r.base@ == "https://api.bilibili.com/x/v3/fav/resource/list"@,
        params_view(r.params@) == seq![
            ("media_id"@, dec(media_id as nat)),
            ("ps"@, "20"@),
            ("pn"@, dec(page as nat)),
            ("platform"@, "web"@),
        ],
{
    let params = vec![
        param("media_id", crate::text::dec_string(media_id)),
        param("ps", owned("20")),
        param("pn", crate::text::dec_string(page as u64)),
        param("platform", owned("web")),
    ];
    let r = SignedRequest { base: "https://api.bilibili.com/x/v3/fav/resource/list", params };
    assert(params_view(r.params@) =~= seq![
        ("media_id"@, dec(media_id as nat)),
        ("ps"@, "20"@),
        ("pn"@, dec(page as nat)),
        ("platform"@, "web"@),
    ]);
    r
}

/// The request of a media list.
pub fn media_list_request(biz_id: u64) -> (r: SignedRequest)
    ensures
        r.base@ == "https://api.bilibili.com/x/v2/medialist/resource/list"@,
        params_view(r.params@) == seq![("type"@, "1"@), ("biz_id"@, dec(biz_id as nat))],
{
    let params = vec![param("type", owned("1")), param("biz_id", crate::text::dec_string(biz_id))];
    let r = SignedRequest { base: "https://api.bilibili.com/x/v2/medialist/resource/list", params };
    assert(params_view(r.params@) =~= seq![("type"@, "1"@), ("biz_id"@, dec(biz_id as nat))]);
    r
}

/// Why a reply of the API was refused.
#[derive(Debug, Clone, PartialEq, Eq)]
pub enum ApiError {
    /// A non-zero code; holds the message (`未知错误` where there is none).
    Failed(String),
    /// The reply lacks the season id.
    MissingSeasonId,
}

/// Reads the reply that gives the season of a media id: refused when its
/// code (-1 where missing) is not 0, and when it has no season id.
pub fn media_season_id(code: Option<i64>, message: Option<String>, season_id: Option<u64>) -> (r:
    Result<u64, ApiError>)
    ensures
        (match code {
            Some(c) => c,
            None => -1i64,
        }) != 0 ==> (r matches Err(ApiError::Failed(m)) && m@ == match message {
            Some(x) => x@,
            None => "未知错误"@,
        }),
        (match code {
            Some(c) => c,
            None => -1i64,
        }) == 0 ==> r == match season_id {
            Some(s) => Ok::<u64, ApiError>(s),
            None => Err(ApiError::MissingSeasonId),
        },
{
    let c: i64 = match code {
        Some(c) => c,
        None => -1,
    };
    if c != 0 {
        let m = match message {
            Some(x) => x,
            None => owned("未知错误"),
        };
        return Err(ApiError::Failed(m));
    }
    match season_id {
        Some(s) => Ok(s),
        None => Err(ApiError::MissingSeasonId),
    }
}

/// The cookie header that carries only a session: `SESSDATA=<sessdata>`.
pub fn sessdata_cookie(sessdata: &str) -> (r: String)
    ensures
        r@ == "SESSDATA="@ + sessdata@,
{
    crate::text::concat("SESSDATA=", sessdata)
}

/// The cookie header a client sends: the one given, unless it is empty.
pub fn cookie_to_send(cookie_header: Option<&str>) -> (r: Option<String>)
    ensures
        match cookie_header {
            Some(c) => if c@.len() > 0 {
                r matches Some(x) && x@ == c@
            } else {
                r is None
            },
            None => r is None,
        },
{
    match cookie_header {
        Some(c) => if crate::text::chars_of(c).len() > 0 {
            Some(owned(c))
        } else {
            None
        },
        None => None,
    }
}

} // verus!
