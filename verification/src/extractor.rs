//! Extractors: which one handles an identifier, and how the replies of the
//! API (already read from JSON into the payload types here) become a
//! [`VInfo`]. The requests themselves are the caller's.

use vstd::prelude::*;
use crate::id::{NormalizedId, IdView};
use crate::model::{Page, PageView, VInfo, parts_of};
use crate::text::{
    chars_of, concat, dec, has_at, owned, parse_u32_range, parse_u64_range, parse_uint, push_dec,
    push_str, seq_has_at, trim, trimmed_string,
};

verus! {

/// The extractor of plain videos.
#[derive(Debug, Clone, Copy, PartialEq, Eq, Structural)]
pub struct NormalExtractor;

/// The extractor of bangumi.
#[derive(Debug, Clone, Copy, PartialEq, Eq, Structural)]
pub struct BangumiExtractor;

/// The extractor of courses.
#[derive(Debug, Clone, Copy, PartialEq, Eq, Structural)]
pub struct CheeseExtractor;

/// The extractor of favourite folders.
#[derive(Debug, Clone, Copy, PartialEq, Eq, Structural)]
pub struct FavListExtractor;

/// The extractor of media lists.
#[derive(Debug, Clone, Copy, PartialEq, Eq, Structural)]
pub struct MediaListExtractor;

/// The extractor of series.
#[derive(Debug, Clone, Copy, PartialEq, Eq, Structural)]
pub struct SeriesExtractor;

/// The extractor of users' collections.
#[derive(Debug, Clone, Copy, PartialEq, Eq, Structural)]
pub struct CollectionExtractor;

/// The extractor of users' spaces.
#[derive(Debug, Clone, Copy, PartialEq, Eq, Structural)]
pub struct SpaceExtractor;

/// The extractor of international bangumi.
#[derive(Debug, Clone, Copy, PartialEq, Eq, Structural)]
pub struct IntlBangumiExtractor;

impl NormalExtractor {
    /// `"normal"`.
    pub fn name(&self) -> (r: &'static str)
        ensures
            r@ == "normal"@,
    {
        "normal"
    }

    /// Handles videos.
    pub fn matches(&self, id: &NormalizedId) -> (r: bool)
        ensures
            r == (id@ is UgcVideo),
    {
        match id {
            NormalizedId::UgcVideo { .. } => true,
            _ => false,
        }
    }
}

impl BangumiExtractor {
    /// `"bangumi"`.
    pub fn name(&self) -> (r: &'static str)
        ensures
            r@ == "bangumi"@,
    {
        "bangumi"
    }

    /// Handles bangumi.
    pub fn matches(&self, id: &NormalizedId) -> (r: bool)
        ensures
            r == (id@ is Bangumi),
    {
        match id {
            NormalizedId::Bangumi { .. } => true,
            _ => false,
        }
    }
}

impl CheeseExtractor {
    /// `"cheese"`.
    pub fn name(&self) -> (r: &'static str)
        ensures
            r@ == "cheese"@,
    {
        "cheese"
    }

    /// Handles courses.
    pub fn matches(&self, id: &NormalizedId) -> (r: bool)
        ensures
            r == (id@ is Cheese),
    {
        match id {
            NormalizedId::Cheese { .. } => true,
            _ => false,
        }
    }
}

impl FavListExtractor {
    /// `"fav_list"`.
    pub fn name(&self) -> (r: &'static str)
        ensures
            r@ == "fav_list"@,
    {
        "fav_list"
    }

    /// Handles favourite folders.
    pub fn matches(&self, id: &NormalizedId) -> (r: bool)
        ensures
            r == (id@ is Favourite),
    {
        match id {
            NormalizedId::Favourite { .. } => true,
            _ => false,
        }
    }
}

impl MediaListExtractor {
    /// `"media_list"`.
    pub fn name(&self) -> (r: &'static str)
        ensures
            r@ == "media_list"@,
    {
        "media_list"
    }

    /// Handles media lists.
    pub fn matches(&self, id: &NormalizedId) -> (r: bool)
        ensures
            r == (id@ is MediaList),
    {
        match id {
            NormalizedId::MediaList { .. } => true,
            _ => false,
        }
    }
}

impl SeriesExtractor {
    /// `"series"`.
    pub fn name(&self) -> (r: &'static str)
        ensures
            r@ == "series"@,
    {
        "series"
    }

    /// Handles series.
    pub fn matches(&self, id: &NormalizedId) -> (r: bool)
        ensures
            r == (id@ is Series),
    {
        match id {
            NormalizedId::Series { .. } => true,
            _ => false,
        }
    }
}

impl CollectionExtractor {
    /// `"collection"`.
    pub fn name(&self) -> (r: &'static str)
        ensures
            r@ == "collection"@,
    {
        "collection"
    }

    /// Handles collections.
    pub fn matches(&self, id: &NormalizedId) -> (r: bool)
        ensures
            r == (id@ is Collection),
    {
        match id {
            NormalizedId::Collection { .. } => true,
            _ => false,
        }
    }
}

impl SpaceExtractor {
    /// `"space"`.
    pub fn name(&self) -> (r: &'static str)
        ensures
            r@ == "space"@,
    {
        "space"
    }

    /// Handles users (by space or id).
    pub fn matches(&self, id: &NormalizedId) -> (r: bool)
        ensures
            r == (id@ is Space || id@ is Mid),
    {
        match id {
            NormalizedId::Space { .. } | NormalizedId::Mid { .. } => true,
            _ => false,
        }
    }
}

impl IntlBangumiExtractor {
    /// `"intl_bangumi"`.
    pub fn name(&self) -> (r: &'static str)
        ensures
            r@ == "intl_bangumi"@,
    {
        "intl_bangumi"
    }

    /// Handles international bangumi.
    pub fn matches(&self, id: &NormalizedId) -> (r: bool)
        ensures
            r == (id@ is IntlBangumi),
    {
        match id {
            NormalizedId::IntlBangumi { .. } => true,
            _ => false,
        }
    }
}

/// The extractors, in the order the default registry tries them.
#[derive(Debug, Clone, Copy, PartialEq, Eq, Structural)]
pub enum ExtractorKind {
    Normal,
    Bangumi,
    Cheese,
    FavList,
    MediaList,
    Series,
    Collection,
    Space,
    IntlBangumi,
}

/// The extractor of the default registry that handles an identifier: the
/// first of the list that matches; none for a short link.
pub open spec fn extractor_for(id: IdView) -> Option<ExtractorKind> {
    match id {
        IdView::UgcVideo { .. } => Some(ExtractorKind::Normal),
        IdView::Bangumi { .. } => Some(ExtractorKind::Bangumi),
        IdView::Cheese { .. } => Some(ExtractorKind::Cheese),
        IdView::Favourite { .. } => Some(ExtractorKind::FavList),
        IdView::MediaList { .. } => Some(ExtractorKind::MediaList),
        IdView::Series { .. } => Some(ExtractorKind::Series),
        IdView::Collection { .. } => Some(ExtractorKind::Collection),
        IdView::Space { .. } | IdView::Mid { .. } => Some(ExtractorKind::Space),
        IdView::IntlBangumi { .. } => Some(ExtractorKind::IntlBangumi),
        IdView::ShortLink { .. } => None,
    }
}

impl ExtractorKind {
    /// The extractor's name.
    pub fn name(&self) -> (r: &'static str)
        ensures
            r@ == match self {
                ExtractorKind::Normal => "normal"@,
                ExtractorKind::Bangumi => "bangumi"@,
                ExtractorKind::Cheese => "cheese"@,
                ExtractorKind::FavList => "fav_list"@,
                ExtractorKind::MediaList => "media_list"@,
                ExtractorKind::Series => "series"@,
                ExtractorKind::Collection => "collection"@,
                ExtractorKind::Space => "space"@,
                ExtractorKind::IntlBangumi => "intl_bangumi"@,
            },
    {
        match self {
            ExtractorKind::Normal => "normal",
            ExtractorKind::Bangumi => "bangumi",
            ExtractorKind::Cheese => "cheese",
            ExtractorKind::FavList => "fav_list",
            ExtractorKind::MediaList => "media_list",
            ExtractorKind::Series => "series",
            ExtractorKind::Collection => "collection",
            ExtractorKind::Space => "space",
            ExtractorKind::IntlBangumi => "intl_bangumi",
        }
    }
}


/// Whether an extractor handles an identifier.
pub open spec fn kind_matches(k: ExtractorKind, id: IdView) -> bool {
    match k {
        ExtractorKind::Normal => id is UgcVideo,
        ExtractorKind::Bangumi => id is Bangumi,
        ExtractorKind::Cheese => id is Cheese,
        ExtractorKind::FavList => id is Favourite,
        ExtractorKind::MediaList => id is MediaList,
        ExtractorKind::Series => id is Series,
        ExtractorKind::Collection => id is Collection,
        ExtractorKind::Space => id is Space || id is Mid,
        ExtractorKind::IntlBangumi => id is IntlBangumi,
    }
}

impl ExtractorKind {
    /// Whether this extractor handles `id`.
    pub fn matches(&self, id: &NormalizedId) -> (r: bool)
        ensures
            r == kind_matches(*self, id@),
    {
        match self {
            ExtractorKind::Normal => NormalExtractor.matches(id),
            ExtractorKind::Bangumi => BangumiExtractor.matches(id),
            ExtractorKind::Cheese => CheeseExtractor.matches(id),
            ExtractorKind::FavList => FavListExtractor.matches(id),
            ExtractorKind::MediaList => MediaListExtractor.matches(id),
            ExtractorKind::Series => SeriesExtractor.matches(id),
            ExtractorKind::Collection => CollectionExtractor.matches(id),
            ExtractorKind::Space => SpaceExtractor.matches(id),
            ExtractorKind::IntlBangumi => IntlBangumiExtractor.matches(id),
        }
    }
}

/// The first of `ks` that handles `id`.
pub open spec fn first_match(ks: Seq<ExtractorKind>, id: IdView) -> Option<ExtractorKind>
    decreases ks.len(),
{
    if ks.len() == 0 {
        None
    } else if kind_matches(ks[0], id) {
        Some(ks[0])
    } else {
        first_match(ks.drop_first(), id)
    }
}

/// The extractors of the default registry, in order.
pub open spec fn default_kinds() -> Seq<ExtractorKind> {
    seq![
        ExtractorKind::Normal,
        ExtractorKind::Bangumi,
        ExtractorKind::Cheese,
        ExtractorKind::FavList,
        ExtractorKind::MediaList,
        ExtractorKind::Series,
        ExtractorKind::Collection,
        ExtractorKind::Space,
        ExtractorKind::IntlBangumi,
    ]
}

/// The extractors to try, in the order they were registered.
#[derive(Debug, Clone)]
pub struct ExtractorRegistry {
    fetchers: Vec<ExtractorKind>,
}

impl ExtractorRegistry {
    /// The registered extractors, in order.
    pub closed spec fn kinds(&self) -> Seq<ExtractorKind> {
        self.fetchers@
    }

    /// A registry with no extractor.
    pub fn new() -> (r: ExtractorRegistry)
        ensures
            r.kinds() == Seq::<ExtractorKind>::empty(),
    {
        ExtractorRegistry { fetchers: Vec::new() }
    }

    /// The registry of the nine extractors: normal, bangumi, cheese,
    /// fav_list, media_list, series, collection, space, intl_bangumi.
    pub fn with_defaults() -> (r: ExtractorRegistry)
        ensures
            r.kinds() == default_kinds(),
    {
        let mut r = ExtractorRegistry::new();
        r.register(ExtractorKind::Normal);
        r.register(ExtractorKind::Bangumi);
        r.register(ExtractorKind::Cheese);
        r.register(ExtractorKind::FavList);
        r.register(ExtractorKind::MediaList);
        r.register(ExtractorKind::Series);
        r.register(ExtractorKind::Collection);
        r.register(ExtractorKind::Space);
        r.register(ExtractorKind::IntlBangumi);
        assert(r.kinds() =~= default_kinds());
        r
    }

    /// Adds an extractor after those registered.
    pub fn register(&mut self, e: ExtractorKind)
        ensures
            final(self).kinds() == old(self).kinds().push(e),
    {
        self.fetchers.push(e);
    }

    /// The first registered extractor that handles `id`.
    pub fn find(&self, id: &NormalizedId) -> (r: Option<ExtractorKind>)
        ensures
            r == first_match(self.kinds(), id@),
    {
        let mut i: usize = 0;
        assert(self.fetchers@.skip(0) == self.fetchers@);
        while i < self.fetchers.len()
            invariant
                i <= self.fetchers@.len(),
                first_match(self.fetchers@, id@) == first_match(self.fetchers@.skip(i as int), id@),
            decreases self.fetchers.len() - i,
        {
            assert(self.fetchers@.skip(i as int)[0] == self.fetchers@[i as int]);
            assert(self.fetchers@.skip(i as int).drop_first() == self.fetchers@.skip(i + 1));
            if self.fetchers[i].matches(id) {
                return Some(self.fetchers[i]);
            }
            i = i + 1;
        }
        None
    }
}

impl Default for ExtractorRegistry {
    fn default() -> (r: ExtractorRegistry)
        ensures
            r.kinds() == Seq::<ExtractorKind>::empty(),
    {
        ExtractorRegistry::new()
    }
}

/// The default registry picks, for every identifier, the extractor that
/// [`extractor_for`] names: the only one that handles it (none for a short
/// link).
pub proof fn law_default_registry_finds(id: IdView)
    ensures
        first_match(default_kinds(), id) == extractor_for(id),
{
    reveal_with_fuel(first_match, 10);
}

// ---------------------------------------------------------------------------
// Replies of the API
// ---------------------------------------------------------------------------

/// Why an extraction failed.
#[derive(Debug, Clone, PartialEq, Eq)]
pub enum ExtractError {
    /// The API answered with a non-zero code; holds its message.
    Api(String),
    /// The `av` number of a video is not a `u64`.
    InvalidNumber,
    /// The `av` number has no BV number.
    Bv(crate::bv::BvError),
    /// Bangumi by media id are not handled.
    MediaIdUnsupported,
    /// A bangumi identifier without any id.
    MissingBangumiId,
    /// No extractor handles the identifier.
    NoExtractor,
}

/// `WIDTHxHEIGHT`, or empty when either is 0.
pub open spec fn dimension_text(width: u32, height: u32) -> Seq<char> {
    if width == 0 || height == 0 {
        seq![]
    } else {
        dec(width as nat) + "x"@ + dec(height as nat)
    }
}

/// `WIDTHxHEIGHT`, or empty when either is 0.
pub fn format_dimension(width: u32, height: u32) -> (s: String)
    ensures
        s@ == dimension_text(width, height),
{
    if width == 0 || height == 0 {
        String::new()
    } else {
        let mut s = crate::text::dec_string(width as u64);
        push_str(&mut s, "x");
        push_dec(&mut s, height as u64);
        s
    }
}

/// A part as the view and page-list APIs give it.
#[derive(Debug, Clone, Default)]
pub struct PagePayload {
    /// `page`.
    pub page: u32,
    /// `cid`.
    pub cid: u64,
    /// `part`.
    pub part: String,
    /// `duration`.
    pub duration: u32,
    /// `dimension.width`.
    pub width: u32,
    /// `dimension.height`.
    pub height: u32,
}

/// The page of a part.
pub open spec fn page_of_payload(p: PagePayload) -> PageView {
    PageView {
        page_index: p.page,
        cid: p.cid,
        title: p.part@,
        duration: p.duration,
        dimension: dimension_text(p.width, p.height),
    }
}

fn page_from_payload(p: &PagePayload) -> (r: Page)
    ensures
        r@ == page_of_payload(*p),
{
    Page {
        page_index: p.page,
        cid: p.cid,
        title: p.part.clone(),
        duration: p.duration,
        dimension: format_dimension(p.width, p.height),
    }
}

fn pages_from_payloads(ps: &Vec<PagePayload>) -> (r: Vec<Page>)
    ensures
        r@.len() == ps@.len(),
        forall|i: int| 0 <= i < ps@.len() ==> #[trigger] r@[i]@ == page_of_payload(ps@[i]),
{
    let mut r: Vec<Page> = Vec::new();
    let mut i: usize = 0;
    while i < ps.len()
        invariant
            i <= ps@.len(),
            r@.len() == i,
            forall|j: int| 0 <= j < i ==> #[trigger] r@[j]@ == page_of_payload(ps@[j]),
        decreases ps.len() - i,
    {
        r.push(page_from_payload(&ps[i]));
        i = i + 1;
    }
    r
}

/// The `data` of the view API.
#[derive(Debug, Clone, Default)]
pub struct ViewPayload {
    /// `code`.
    pub code: i32,
    /// `message`.
    pub message: String,
    /// `data.title`.
    pub title: String,
    /// `data.desc`.
    pub desc: String,
    /// `data.pic`.
    pub pic: String,
    /// `data.pubdate`.
    pub pubdate: i64,
    /// `data.aid`.
    pub aid: u64,
    /// `data.bvid`.
    pub bvid: String,
    /// `data.owner.mid`.
    pub owner_mid: u64,
    /// `data.owner.name`.
    pub owner_name: String,
    /// `data.pages`.
    pub pages: Vec<PagePayload>,
    /// `data.rights.is_stein_gate`.
    pub is_stein_gate: u8,
}

/// Reads the reply of the view API: refused when `code` is not 0; otherwise
/// the video with its pages (part ids and names following the pages).
pub fn parse_view_response(v: &ViewPayload) -> (r: Result<VInfo, ExtractError>)
    ensures
        v.code != 0 ==> (r matches Err(ExtractError::Api(m)) && m@ == v.message@),
        v.code == 0 ==> (r matches Ok(info) && {
            &&& info.title@ == v.title@ && info.desc@ == v.desc@ && info.pic@ == v.pic@
            &&& info.pubdate == v.pubdate && info.aid == v.aid && info.bvid@ == v.bvid@
            &&& info.owner_mid == v.owner_mid && info.owner_name@ == v.owner_name@
            &&& info.pages@.len() == v.pages@.len()
            &&& forall|i: int| 0 <= i < v.pages@.len() ==> #[trigger] info.pages@[i]@ == page_of_payload(v.pages@[i])
            &&& crate::model::parts_match(info)
            &&& info.view_points@.len() == 0 && info.tags@.len() == 0
            &&& !info.is_bangumi && !info.is_cheese && info.is_stein_gate == (v.is_stein_gate != 0)
        }),
{
    if v.code != 0 {
        return Err(ExtractError::Api(v.message.clone()));
    }
    let pages = pages_from_payloads(&v.pages);
    let (cids, part_names) = parts_of(&pages);
    Ok(VInfo {
        title: v.title.clone(),
        desc: v.desc.clone(),
        pic: v.pic.clone(),
        pubdate: v.pubdate,
        owner_mid: v.owner_mid,
        owner_name: v.owner_name.clone(),
        aid: v.aid,
        bvid: v.bvid.clone(),
        cids,
        part_names,
        pages,
        view_points: Vec::new(),
        is_bangumi: false,
        is_cheese: false,
        is_stein_gate: v.is_stein_gate != 0,
        tags: Vec::new(),
    })
}

/// Reads the reply of the page-list API: refused when `code` is not 0;
/// otherwise its pages.
pub fn parse_pagelist_response(code: i32, message: &String, pages: &Vec<PagePayload>) -> (r: Result<
    Vec<Page>,
    ExtractError,
>)
    ensures
        code != 0 ==> (r matches Err(ExtractError::Api(m)) && m@ == message@),
        code == 0 ==> (r matches Ok(ps) && ps@.len() == pages@.len() && forall|i: int|
            0 <= i < pages@.len() ==> #[trigger] ps@[i]@ == page_of_payload(pages@[i])),
{
    if code != 0 {
        return Err(ExtractError::Api(message.clone()));
    }
    Ok(pages_from_payloads(pages))
}

/// The BV number to ask for a video: an `av` id (after every leading `av`)
/// turned into its BV number, any other id as it is.
pub fn bvid_for(id: &str) -> (r: Result<String, ExtractError>)
    ensures
        !seq_has_at(id@, 0, "av"@) ==> (r matches Ok(b) && b@ == id@),
        seq_has_at(id@, 0, "av"@) ==> match parse_uint(crate::id::strip_av(id@), u64::MAX as int) {
            Some(n) => if 1 <= n < crate::bv::MAX_AID {
                r matches Ok(b) && b@ == crate::bv::bv_of_av(n as u64)
            } else {
                r is Err
            },
            None => r == Err::<String, ExtractError>(ExtractError::InvalidNumber),
        },
{
    let v = chars_of(id);
    if !has_at(&v, 0, "av") {
        return Ok(owned(id));
    }
    match crate::id::AvId::parse(id) {
        None => Err(ExtractError::InvalidNumber),
        Some(av) => match crate::bv::av_to_bv(av.0) {
            Ok(b) => Ok(b),
            Err(e) => Err(ExtractError::Bv(e)),
        },
    }
}

/// A video with the pages of the page-list API, when there are any: its
/// pages, part ids and part names replaced; otherwise unchanged.
pub fn apply_pagelist(info: VInfo, pages: Vec<Page>) -> (r: VInfo)
    ensures
        pages@.len() == 0 ==> r == info,
        pages@.len() > 0 ==> r.pages == pages && crate::model::parts_match(r) && r.title == info.title
            && r.bvid == info.bvid && r.aid == info.aid,
{
    if pages.len() == 0 {
        return info;
    }
    let (cids, part_names) = parts_of(&pages);
    let mut info = info;
    info.cids = cids;
    info.part_names = part_names;
    info.pages = pages;
    info
}

/// Which bangumi request to make.
#[derive(Debug, Clone, Copy, PartialEq, Eq, Structural)]
pub enum BangumiRequest {
    /// By season.
    Season(u64),
    /// By episode.
    Episode(u64),
}

/// The bangumi request for an identifier: by season when known, else by
/// episode; a media id alone, or no id, is refused.
pub fn bangumi_request(season_id: Option<u64>, ep_id: Option<u64>, media_id: Option<u64>) -> (r: Result<
    BangumiRequest,
    ExtractError,
>)
    ensures
        r == (match (season_id, ep_id, media_id) {
            (Some(s), _, _) => Ok::<BangumiRequest, ExtractError>(BangumiRequest::Season(s)),
            (None, Some(e), _) => Ok(BangumiRequest::Episode(e)),
            (None, None, Some(_)) => Err(ExtractError::MediaIdUnsupported),
            (None, None, None) => Err(ExtractError::MissingBangumiId),
        }),
{
    match (season_id, ep_id, media_id) {
        (Some(s), _, _) => Ok(BangumiRequest::Season(s)),
        (None, Some(e), _) => Ok(BangumiRequest::Episode(e)),
        (None, None, Some(_)) => Err(ExtractError::MediaIdUnsupported),
        (None, None, None) => Err(ExtractError::MissingBangumiId),
    }
}

// ---------------------------------------------------------------------------
// Publication times
// ---------------------------------------------------------------------------

/// The seconds since the epoch (read as UTC) of the date and time that
/// `chrono` reads from `s` in the format `fmt`, or `None` where it reads none.
pub uninterp spec fn naive_utc_seconds(s: Seq<char>, fmt: Seq<char>) -> Option<i64>;

/// `chrono::NaiveDateTime::parse_from_str(s, fmt)`, taken as UTC and counted
/// in seconds since the epoch (`and_utc().timestamp()`); `None` where chrono
/// refuses the text. Claimed: the result is [`naive_utc_seconds`] of the two
/// texts, a function of them alone (no time zone or locale is read).
#[verifier::external_body]
fn parse_naive_utc(s: &str, fmt: &str) -> (r: Option<i64>)
    ensures
        r == naive_utc_seconds(s@, fmt@),
{
    match chrono::NaiveDateTime::parse_from_str(s, fmt) {
        Ok(dt) => Some(dt.and_utc().timestamp()),
        Err(_) => None,
    }
}

/// The format of publication times in the replies.
pub open spec fn publish_format() -> Seq<char> {
    "%Y-%m-%d %H:%M:%S"@
}

/// The publication time of a text `YYYY-MM-DD hh:mm:ss` (UTC), 0 where it
/// is not one.
pub open spec fn publish_time(s: Seq<char>) -> i64 {
    match naive_utc_seconds(s, publish_format()) {
        Some(t) => t,
        None => 0,
    }
}

/// Reads a publication time `YYYY-MM-DD hh:mm:ss` (UTC) as seconds since the
/// epoch; 0 where the text is not one.
pub fn parse_publish_time(s: &str) -> (r: i64)
    ensures
        r == publish_time(s@),
{
    let fmt = "%Y-%m-%d %H:%M:%S";
    proof {
        reveal_strlit("%Y-%m-%d %H:%M:%S");
    }
    match parse_naive_utc(s, fmt) {
        Some(t) => t,
        None => 0,
    }
}

// ---------------------------------------------------------------------------
// Bangumi seasons
// ---------------------------------------------------------------------------

/// An episode of a bangumi season reply.
#[derive(Debug, Clone, Default)]
pub struct EpisodePayload {
    /// `aid`.
    pub aid: u64,
    /// `cid`.
    pub cid: u64,
    /// `id`.
    pub id: u64,
    /// `title`.
    pub title: String,
    /// `long_title`.
    pub long_title: String,
    /// `badge`.
    pub badge: String,
    /// `pub_time`.
    pub pub_time: i64,
    /// `dimension.width`.
    pub width: u32,
    /// `dimension.height`.
    pub height: u32,
}

/// The reply of the bangumi season API.
#[derive(Debug, Clone, Default)]
pub struct BangumiPayload {
    /// `code`.
    pub code: i32,
    /// `message`.
    pub message: String,
    /// `result.cover`.
    pub cover: String,
    /// `result.title`.
    pub title: String,
    /// `result.evaluate`.
    pub evaluate: String,
    /// `result.publish.pub_time`.
    pub pub_time: String,
    /// `result.episodes`.
    pub episodes: Vec<EpisodePayload>,
}

/// The badge of trailers, which are left out.
pub open spec fn trailer_badge() -> Seq<char> {
    "预告"@
}

/// The page of an episode: `title long_title` trimmed, numbered 0.
pub open spec fn episode_page(e: EpisodePayload) -> PageView {
    PageView {
        page_index: 0,
        cid: e.cid,
        title: trim(e.title@ + " "@ + e.long_title@),
        duration: 0,
        dimension: dimension_text(e.width, e.height),
    }
}

/// The pages of the episodes that are not trailers, in order.
pub open spec fn episode_pages(es: Seq<EpisodePayload>) -> Seq<PageView>
    decreases es.len(),
{
    if es.len() == 0 {
        seq![]
    } else {
        let rest = episode_pages(es.drop_last());
        if es.last().badge@ == trailer_badge() {
            rest
        } else {
            rest.push(episode_page(es.last()))
        }
    }
}

fn page_of_episode(e: &EpisodePayload) -> (r: Page)
    ensures
        r@ == episode_page(*e),
{
    let mut t = e.title.clone();
    push_str(&mut t, " ");
    proof {
        reveal_strlit(" ");
    }
    push_str(&mut t, e.long_title.as_str());
    let v = chars_of(t.as_str());
    assert(v@.subrange(0, v@.len() as int) == v@);
    Page {
        page_index: 0,
        cid: e.cid,
        title: trimmed_string(&v, 0, v.len()),
        duration: 0,
        dimension: format_dimension(e.width, e.height),
    }
}

/// The pages of the episodes that are not trailers.
pub fn pages_of_episodes(es: &Vec<EpisodePayload>) -> (r: Vec<Page>)
    ensures
        crate::model::pages_view(r@) == episode_pages(es@),
{
    let trailer = "预告";
    proof {
        reveal_strlit("预告");
    }
    let mut r: Vec<Page> = Vec::new();
    let mut i: usize = 0;
    while i < es.len()
        invariant
            i <= es@.len(),
            trailer@ == trailer_badge(),
            crate::model::pages_view(r@) == episode_pages(es@.take(i as int)),
        decreases es.len() - i,
    {
        assert(es@.take(i + 1).drop_last() == es@.take(i as int));
        assert(es@.take(i + 1).last() == es@[i as int]);
        if !crate::text::is_str(&es[i].badge, trailer) {
            let p = page_of_episode(&es[i]);
            proof {
                let old_r = r@;
                assert(crate::model::pages_view(old_r.push(p)) == crate::model::pages_view(
                    old_r,
                ).push(p@));
            }
            r.push(p);
        }
        i = i + 1;
    }
    assert(es@.take(es@.len() as int) == es@);
    r
}


/// A video with no chapters or tags whose pages are `pages`, and whose part
/// ids and names follow its pages.
pub open spec fn has_pages(info: VInfo, pages: Seq<PageView>) -> bool {
    &&& crate::model::pages_view(info.pages@) == pages
    &&& crate::model::parts_match(info)
    &&& info.view_points@.len() == 0
    &&& info.tags@.len() == 0
}

/// A video made of `pages`, with the other fields given; not a bangumi,
/// course or interactive video.
fn info_of_pages(
    title: String,
    desc: String,
    pic: String,
    pubdate: i64,
    owner_mid: u64,
    owner_name: String,
    bvid: String,
    pages: Vec<Page>,
) -> (r: VInfo)
    ensures
        r.title == title && r.desc == desc && r.pic == pic && r.pubdate == pubdate,
        r.owner_mid == owner_mid && r.owner_name == owner_name && r.aid == 0 && r.bvid == bvid,
        r.pages == pages,
        has_pages(r, crate::model::pages_view(pages@)),
        !r.is_bangumi && !r.is_cheese && !r.is_stein_gate,
{
    let (cids, part_names) = parts_of(&pages);
    let r = VInfo {
        title,
        desc,
        pic,
        pubdate,
        owner_mid,
        owner_name,
        aid: 0,
        bvid,
        cids,
        part_names,
        pages,
        view_points: Vec::new(),
        is_bangumi: false,
        is_cheese: false,
        is_stein_gate: false,
        tags: Vec::new(),
    };
    assert(crate::model::parts_match(r));
    r
}

/// Reads the reply of the bangumi season API: refused when `code` is not 0;
/// otherwise the season, its publication time read by [`publish_time`], and
/// one page per episode that is not a trailer.
pub fn parse_bangumi_season_response(v: &BangumiPayload) -> (r: Result<VInfo, ExtractError>)
    ensures
        v.code != 0 ==> (r matches Err(ExtractError::Api(m)) && m@ == v.message@),
        v.code == 0 ==> (r matches Ok(info) && {
            &&& info.title@ == v.title@ && info.desc@ == v.evaluate@ && info.pic@ == v.cover@
            &&& info.pubdate == publish_time(v.pub_time@)
            &&& info.owner_mid == 0 && info.owner_name@.len() == 0 && info.aid == 0
            &&& info.bvid@.len() == 0
            &&& has_pages(info, episode_pages(v.episodes@))
            &&& info.is_bangumi && !info.is_cheese && !info.is_stein_gate
        }),
{
    if v.code != 0 {
        return Err(ExtractError::Api(v.message.clone()));
    }
    let pages = pages_of_episodes(&v.episodes);
    let mut info = info_of_pages(
        v.title.clone(),
        v.evaluate.clone(),
        v.cover.clone(),
        parse_publish_time(v.pub_time.as_str()),
        0,
        String::new(),
        String::new(),
        pages,
    );
    info.is_bangumi = true;
    Ok(info)
}

// ---------------------------------------------------------------------------
// Lists: courses, favourites, media lists, series, collections, spaces
// ---------------------------------------------------------------------------

/// An item of a list reply, each field as the reply has it, where it has it.
#[derive(Debug, Clone, Default)]
pub struct ListItem {
    /// `title`.
    pub title: Option<String>,
    /// `bvid`.
    pub bvid: Option<String>,
    /// `cid` (of favourites and media lists: `page.cid`).
    pub cid: Option<u64>,
    /// `aid`.
    pub aid: Option<u64>,
    /// `duration`.
    pub duration: Option<u64>,
    /// `dimension.width`.
    pub width: Option<u64>,
    /// `dimension.height`.
    pub height: Option<u64>,
    /// `length` (of space uploads), a decimal text.
    pub length: Option<String>,
    /// `author` (of space uploads).
    pub author: Option<String>,
}

/// How the items of a list become pages.
#[derive(Debug, Clone, Copy, PartialEq, Eq, Structural)]
pub enum ListStyle {
    /// Numbered from 1, without dimensions (favourites, media lists).
    Numbered,
    /// Numbered 0, with dimensions (series).
    Sized,
    /// Numbered 0, without dimensions (collections).
    Plain,
    /// Numbered by `aid` (at least 1), with dimensions (courses).
    Course,
    /// Numbered 0, the duration read from `length` (space uploads).
    Upload,
}

/// A text of a reply, `d` where it is missing.
pub open spec fn text_or(o: Option<String>, d: Seq<char>) -> Seq<char> {
    match o {
        Some(s) => s@,
        None => d,
    }
}

/// A number of a reply, 0 where it is missing.
pub open spec fn num_or(o: Option<u64>) -> u64 {
    match o {
        Some(n) => n,
        None => 0,
    }
}

/// The title of an untitled item.
pub open spec fn untitled() -> Seq<char> {
    "未命名"@
}

/// The duration of a space upload: its `length` read as a `u32`, 0 where it
/// is missing or is not one.
pub open spec fn upload_length(o: Option<String>) -> u32 {
    match o {
        Some(l) => match crate::text::parse_uint(l@, u32::MAX as int) {
            Some(n) => n as u32,
            None => 0,
        },
        None => 0,
    }
}

/// The page of the `i`-th item of a list.
pub open spec fn item_page(item: ListItem, i: int, style: ListStyle) -> PageView {
    let aid32 = num_or(item.aid) as u32;
    PageView {
        page_index: match style {
            ListStyle::Numbered => (i + 1) as u32,
            ListStyle::Course => if aid32 == 0 { 1 } else { aid32 },
            _ => 0,
        },
        cid: num_or(item.cid),
        title: text_or(item.title, untitled()),
        duration: match style {
            ListStyle::Upload => upload_length(item.length),
            _ => num_or(item.duration) as u32,
        },
        dimension: match style {
            ListStyle::Sized | ListStyle::Course => dimension_text(
                num_or(item.width) as u32,
                num_or(item.height) as u32,
            ),
            _ => seq![],
        },
    }
}

/// The pages of the items of a list.
pub open spec fn item_pages(items: Seq<ListItem>, style: ListStyle) -> Seq<PageView> {
    Seq::new(items.len(), |i: int| item_page(items[i], i, style))
}

/// The `bvid` of the first item, empty where there is none.
pub open spec fn first_bvid(items: Seq<ListItem>) -> Seq<char> {
    if items.len() > 0 {
        text_or(items[0].bvid, seq![])
    } else {
        seq![]
    }
}

fn text_or_default(o: &Option<String>, d: &str) -> (r: String)
    ensures
        r@ == text_or(*o, d@),
{
    match o {
        Some(s) => s.clone(),
        None => owned(d),
    }
}

fn num_or_zero(o: Option<u64>) -> (r: u64)
    ensures
        r == num_or(o),
{
    match o {
        Some(n) => n,
        None => 0,
    }
}

fn length_of_upload(o: &Option<String>) -> (r: u32)
    ensures
        r == upload_length(*o),
{
    match o {
        Some(l) => {
            let v = chars_of(l.as_str());
            assert(v@.subrange(0, v@.len() as int) == l@);
            match parse_u32_range(&v, 0, v.len()) {
                Some(n) => n,
                None => 0,
            }
        },
        None => 0,
    }
}

fn page_of_item(item: &ListItem, i: usize, style: ListStyle) -> (r: Page)
    requires
        i < usize::MAX,
    ensures
        r@ == item_page(*item, i as int, style),
{
    let aid32 = num_or_zero(item.aid) as u32;
    let page_index: u32 = match style {
        ListStyle::Numbered => (i + 1) as u32,
        ListStyle::Course => if aid32 == 0 {
            1
        } else {
            aid32
        },
        _ => 0,
    };
    let duration: u32 = match style {
        ListStyle::Upload => length_of_upload(&item.length),
        _ => num_or_zero(item.duration) as u32,
    };
    let dimension = match style {
        ListStyle::Sized | ListStyle::Course => format_dimension(
            num_or_zero(item.width) as u32,
            num_or_zero(item.height) as u32,
        ),
        _ => String::new(),
    };
    proof {
        reveal_strlit("未命名");
    }
    Page {
        page_index,
        cid: num_or_zero(item.cid),
        title: text_or_default(&item.title, "未命名"),
        duration,
        dimension,
    }
}

/// The pages of the items of a list, in order.
pub fn list_pages(items: &Vec<ListItem>, style: ListStyle) -> (r: Vec<Page>)
    ensures
        crate::model::pages_view(r@) == item_pages(items@, style),
{
    let mut r: Vec<Page> = Vec::new();
    let mut i: usize = 0;
    while i < items.len()
        invariant
            i <= items@.len(),
            r@.len() == i,
            forall|j: int| 0 <= j < i ==> #[trigger] r@[j]@ == item_page(items@[j], j, style),
        decreases items.len() - i,
    {
        r.push(page_of_item(&items[i], i, style));
        i = i + 1;
    }
    assert(crate::model::pages_view(r@) =~= item_pages(items@, style));
    r
}

fn bvid_of_first(items: &Vec<ListItem>) -> (r: String)
    ensures
        r@ == first_bvid(items@),
{
    if items.len() > 0 {
        match &items[0].bvid {
            Some(b) => b.clone(),
            None => String::new(),
        }
    } else {
        String::new()
    }
}


/// The reply of the course season API.
#[derive(Debug, Clone, Default)]
pub struct CheesePayload {
    /// `data.title`.
    pub title: Option<String>,
    /// `data.subtitle`.
    pub subtitle: Option<String>,
    /// `data.cover`.
    pub cover: Option<String>,
    /// `data.pub_time`.
    pub pub_time: Option<String>,
    /// `data.episodes`, empty where missing.
    pub episodes: Vec<ListItem>,
}

/// Reads the reply of the course season API: the course (titled `课程` where
/// untitled), its publication time (0 where missing), and one page per
/// episode.
pub fn parse_cheese_season_response(v: &CheesePayload) -> (info: VInfo)
    ensures
        info.title@ == text_or(v.title, "课程"@),
        info.desc@ == text_or(v.subtitle, seq![]),
        info.pic@ == text_or(v.cover, seq![]),
        info.pubdate == match v.pub_time {
            Some(t) => publish_time(t@),
            None => 0,
        },
        info.owner_mid == 0 && info.owner_name@.len() == 0 && info.aid == 0 && info.bvid@.len() == 0,
        has_pages(info, item_pages(v.episodes@, ListStyle::Course)),
        !info.is_bangumi && info.is_cheese && !info.is_stein_gate,
{
    proof {
        reveal_strlit("课程");
        reveal_strlit("");
    }
    let pubdate = match &v.pub_time {
        Some(t) => parse_publish_time(t.as_str()),
        None => 0,
    };
    let mut info = info_of_pages(
        text_or_default(&v.title, "课程"),
        text_or_default(&v.subtitle, ""),
        text_or_default(&v.cover, ""),
        pubdate,
        0,
        String::new(),
        String::new(),
        list_pages(&v.episodes, ListStyle::Course),
    );
    info.is_cheese = true;
    info
}

/// A numbered list (favourites, media lists) titled `title`, or `default`
/// where untitled.
fn numbered_list_info(title: &Option<String>, default: &str, items: &Vec<ListItem>) -> (info: VInfo)
    ensures
        info.title@ == text_or(*title, default@),
        info.desc@.len() == 0 && info.pic@.len() == 0 && info.pubdate == 0,
        info.owner_mid == 0 && info.owner_name@.len() == 0 && info.aid == 0,
        info.bvid@ == first_bvid(items@),
        has_pages(info, item_pages(items@, ListStyle::Numbered)),
        !info.is_bangumi && !info.is_cheese && !info.is_stein_gate,
{
    info_of_pages(
        text_or_default(title, default),
        String::new(),
        String::new(),
        0,
        0,
        String::new(),
        bvid_of_first(items),
        list_pages(items, ListStyle::Numbered),
    )
}

/// Reads the reply of the favourite folder API: the folder (titled `收藏夹`
/// where untitled) with its medias numbered from 1.
pub fn parse_fav_list_response(title: &Option<String>, medias: &Vec<ListItem>) -> (info: VInfo)
    ensures
        info.title@ == text_or(*title, "收藏夹"@),
        info.desc@.len() == 0 && info.pic@.len() == 0 && info.pubdate == 0,
        info.owner_mid == 0 && info.owner_name@.len() == 0 && info.aid == 0,
        info.bvid@ == first_bvid(medias@),
        has_pages(info, item_pages(medias@, ListStyle::Numbered)),
        !info.is_bangumi && !info.is_cheese && !info.is_stein_gate,
{
    proof {
        reveal_strlit("收藏夹");
    }
    numbered_list_info(title, "收藏夹", medias)
}

/// Reads the reply of the media list API: the list (titled `播单` where
/// untitled) with its medias numbered from 1.
pub fn parse_media_list_response(title: &Option<String>, medias: &Vec<ListItem>) -> (info: VInfo)
    ensures
        info.title@ == text_or(*title, "播单"@),
        info.desc@.len() == 0 && info.pic@.len() == 0 && info.pubdate == 0,
        info.owner_mid == 0 && info.owner_name@.len() == 0 && info.aid == 0,
        info.bvid@ == first_bvid(medias@),
        has_pages(info, item_pages(medias@, ListStyle::Numbered)),
        !info.is_bangumi && !info.is_cheese && !info.is_stein_gate,
{
    proof {
        reveal_strlit("播单");
    }
    numbered_list_info(title, "播单", medias)
}

/// The `meta` of a series or collection reply.
#[derive(Debug, Clone, Default)]
pub struct ListMeta {
    /// `meta.name`.
    pub name: Option<String>,
    /// `meta.cover`.
    pub cover: Option<String>,
    /// `meta.mid`.
    pub mid: Option<u64>,
}

/// Reads the reply of the series API: the series (titled `合集` where
/// unnamed; its owner named by the name, or empty) with its archives.
pub fn parse_series_response(meta: &ListMeta, archives: &Vec<ListItem>) -> (info: VInfo)
    ensures
        info.title@ == text_or(meta.name, "合集"@),
        info.desc@.len() == 0 && info.pic@ == text_or(meta.cover, seq![]) && info.pubdate == 0,
        info.owner_mid == num_or(meta.mid) && info.owner_name@ == text_or(meta.name, seq![]),
        info.aid == 0 && info.bvid@ == first_bvid(archives@),
        has_pages(info, item_pages(archives@, ListStyle::Sized)),
        !info.is_bangumi && !info.is_cheese && !info.is_stein_gate,
{
    proof {
        reveal_strlit("合集");
        reveal_strlit("");
    }
    info_of_pages(
        text_or_default(&meta.name, "合集"),
        String::new(),
        text_or_default(&meta.cover, ""),
        0,
        num_or_zero(meta.mid),
        text_or_default(&meta.name, ""),
        bvid_of_first(archives),
        list_pages(archives, ListStyle::Sized),
    )
}

/// Reads the reply of the collection API for the user `mid`: the collection
/// (titled `合集` where unnamed) with its archives.
pub fn parse_collection_response(meta: &ListMeta, archives: &Vec<ListItem>, mid: u64) -> (info: VInfo)
    ensures
        info.title@ == text_or(meta.name, "合集"@),
        info.desc@.len() == 0 && info.pic@ == text_or(meta.cover, seq![]) && info.pubdate == 0,
        info.owner_mid == mid && info.owner_name@.len() == 0,
        info.aid == 0 && info.bvid@ == first_bvid(archives@),
        has_pages(info, item_pages(archives@, ListStyle::Plain)),
        !info.is_bangumi && !info.is_cheese && !info.is_stein_gate,
{
    proof {
        reveal_strlit("合集");
        reveal_strlit("");
    }
    info_of_pages(
        text_or_default(&meta.name, "合集"),
        String::new(),
        text_or_default(&meta.cover, ""),
        0,
        mid,
        String::new(),
        bvid_of_first(archives),
        list_pages(archives, ListStyle::Plain),
    )
}

/// The uploader of a space: the author of the first upload, `UP主` where
/// there is none.
pub open spec fn space_owner(items: Seq<ListItem>) -> Seq<char> {
    if items.len() > 0 {
        text_or(items[0].author, "UP主"@)
    } else {
        "UP主"@
    }
}

/// Reads the reply of the space uploads API for the user `mid`: titled
/// `<owner> 的空间投稿` after the uploader, with the uploads.
pub fn parse_space_response(mid: u64, vlist: &Vec<ListItem>) -> (info: VInfo)
    ensures
        info.owner_name@ == space_owner(vlist@),
        info.title@ == space_owner(vlist@) + " 的空间投稿"@,
        info.desc@.len() == 0 && info.pic@.len() == 0 && info.pubdate == 0,
        info.owner_mid == mid && info.aid == 0 && info.bvid@ == first_bvid(vlist@),
        has_pages(info, item_pages(vlist@, ListStyle::Upload)),
        !info.is_bangumi && !info.is_cheese && !info.is_stein_gate,
{
    proof {
        reveal_strlit("UP主");
    }
    let owner = if vlist.len() > 0 {
        text_or_default(&vlist[0].author, "UP主")
    } else {
        owned("UP主")
    };
    let title = concat(owner.as_str(), " 的空间投稿");
    info_of_pages(
        title,
        String::new(),
        String::new(),
        0,
        mid,
        owner,
        bvid_of_first(vlist),
        list_pages(vlist, ListStyle::Upload),
    )
}


} // verus!
