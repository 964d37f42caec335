//! Bilibili identifiers, and the reading of a link or a bare id into one.
//!
//! The link forms are those of the site: videos (`/video/BV..`, `/video/av..`,
//! with `?p=N`), bangumi (`/bangumi/play/ss..`, `ep..`, `/bangumi/media/md..`),
//! courses (`/cheese/play/ss..`, `ep..`), a user's space, favourite folders,
//! collections, media lists, series, bare `BV..` / `av..` numbers and
//! `b23.tv` short links. Each form is searched for as a pattern anywhere in
//! the (trimmed) input, leftmost occurrence first, and the forms are tried in
//! a fixed order.

use vstd::prelude::*;
use crate::text::{
    chars_of, dec, has_at, owned, parse_u32_range, parse_u64_range, parse_uint, push_dec, push_str,
    seq_has_at, string_of_range, trim, trim_bounds,
};

verus! {

// ---------------------------------------------------------------------------
// Identifier types
// ---------------------------------------------------------------------------

/// A video's AV number.
#[derive(Debug, Clone, Copy, PartialEq, Eq, Hash, Structural)]
pub struct AvId(pub u64);

/// A video's BV number (12 characters).
#[derive(Debug, Clone, PartialEq, Eq, Hash)]
pub struct BvId(pub String);

/// The id of one part (a physical stream) of a video.
#[derive(Debug, Clone, Copy, PartialEq, Eq, Hash, Structural)]
pub struct CId(pub u64);

/// A bangumi episode id.
#[derive(Debug, Clone, Copy, PartialEq, Eq, Hash, Structural)]
pub struct EpisodeId(pub u64);

/// A bangumi season id.
#[derive(Debug, Clone, Copy, PartialEq, Eq, Hash, Structural)]
pub struct SeasonId(pub u64);

/// A bangumi media id.
#[derive(Debug, Clone, Copy, PartialEq, Eq, Hash, Structural)]
pub struct MediaId(pub u64);

/// A favourite folder id.
#[derive(Debug, Clone, Copy, PartialEq, Eq, Hash, Structural)]
pub struct FId(pub u64);

/// A series id.
#[derive(Debug, Clone, Copy, PartialEq, Eq, Hash, Structural)]
pub struct SeriesId(pub u64);

/// A user id.
#[derive(Debug, Clone, Copy, PartialEq, Eq, Hash, Structural)]
pub struct MId(pub u64);

/// A short link code.
#[derive(Debug, Clone, PartialEq, Eq, Hash)]
pub struct ShortUrl(pub String);

/// What a link or bare id names.
#[derive(Debug, Clone, PartialEq, Eq, Hash)]
#[allow(inconsistent_fields)]
pub enum NormalizedId {
    /// A video: its BV or `av` number, and the part (1-based; 0 = whole video).
    UgcVideo { id: String, page_index: u32 },
    /// A bangumi, by season, episode or media id.
    Bangumi { season_id: Option<u64>, ep_id: Option<u64>, media_id: Option<u64> },
    /// A course, by season (0 when only the episode is known) and episode.
    Cheese { season_id: u64, ep_id: Option<u64> },
    /// A favourite folder.
    Favourite { fid: u64 },
    /// A series.
    Series { sid: u64 },
    /// A user's space (all their videos).
    Space { mid: u64 },
    /// A user, by id.
    Mid { mid: u64 },
    /// A media list.
    MediaList { biz_id: u64 },
    /// An international bangumi season.
    IntlBangumi { season_id: u64 },
    /// A user's collection.
    Collection { mid: u64, sid: u64 },
    /// A short link, to be resolved and read again.
    ShortLink { code: String },
}

/// [`NormalizedId`] with its strings as characters.
#[allow(inconsistent_fields)]
pub enum IdView {
    UgcVideo { id: Seq<char>, page_index: u32 },
    Bangumi { season_id: Option<u64>, ep_id: Option<u64>, media_id: Option<u64> },
    Cheese { season_id: u64, ep_id: Option<u64> },
    Favourite { fid: u64 },
    Series { sid: u64 },
    Space { mid: u64 },
    Mid { mid: u64 },
    MediaList { biz_id: u64 },
    IntlBangumi { season_id: u64 },
    Collection { mid: u64, sid: u64 },
    ShortLink { code: Seq<char> },
}

impl View for NormalizedId {
    type V = IdView;

    open spec fn view(&self) -> IdView {
        match self {
            NormalizedId::UgcVideo { id, page_index } => IdView::UgcVideo {
                id: id@,
                page_index: *page_index,
            },
            NormalizedId::Bangumi { season_id, ep_id, media_id } => IdView::Bangumi {
                season_id: *season_id,
                ep_id: *ep_id,
                media_id: *media_id,
            },
            NormalizedId::Cheese { season_id, ep_id } => IdView::Cheese {
                season_id: *season_id,
                ep_id: *ep_id,
            },
            NormalizedId::Favourite { fid } => IdView::Favourite { fid: *fid },
            NormalizedId::Series { sid } => IdView::Series { sid: *sid },
            NormalizedId::Space { mid } => IdView::Space { mid: *mid },
            NormalizedId::Mid { mid } => IdView::Mid { mid: *mid },
            NormalizedId::MediaList { biz_id } => IdView::MediaList { biz_id: *biz_id },
            NormalizedId::IntlBangumi { season_id } => IdView::IntlBangumi {
                season_id: *season_id,
            },
            NormalizedId::Collection { mid, sid } => IdView::Collection { mid: *mid, sid: *sid },
            NormalizedId::ShortLink { code } => IdView::ShortLink { code: code@ },
        }
    }
}

// ---------------------------------------------------------------------------
// Character classes and runs
// ---------------------------------------------------------------------------

/// A Unicode decimal digit (general category `Nd`), what `\d` matches.
pub open spec fn is_nd(c: char) -> bool {
    let u = c as u32;
    (0x30 <= u && u <= 0x39) ||
        (0x660 <= u && u <= 0x669) ||
        (0x6f0 <= u && u <= 0x6f9) ||
        (0x7c0 <= u && u <= 0x7c9) ||
        (0x966 <= u && u <= 0x96f) ||
        (0x9e6 <= u && u <= 0x9ef) ||
        (0xa66 <= u && u <= 0xa6f) ||
        (0xae6 <= u && u <= 0xaef) ||
        (0xb66 <= u && u <= 0xb6f) ||
        (0xbe6 <= u && u <= 0xbef) ||
        (0xc66 <= u && u <= 0xc6f) ||
        (0xce6 <= u && u <= 0xcef) ||
        (0xd66 <= u && u <= 0xd6f) ||
        (0xde6 <= u && u <= 0xdef) ||
        (0xe50 <= u && u <= 0xe59) ||
        (0xed0 <= u && u <= 0xed9) ||
        (0xf20 <= u && u <= 0xf29) ||
        (0x1040 <= u && u <= 0x1049) ||
        (0x1090 <= u && u <= 0x1099) ||
        (0x17e0 <= u && u <= 0x17e9) ||
        (0x1810 <= u && u <= 0x1819) ||
        (0x1946 <= u && u <= 0x194f) ||
        (0x19d0 <= u && u <= 0x19d9) ||
        (0x1a80 <= u && u <= 0x1a89) ||
        (0x1a90 <= u && u <= 0x1a99) ||
        (0x1b50 <= u && u <= 0x1b59) ||
        (0x1bb0 <= u && u <= 0x1bb9) ||
        (0x1c40 <= u && u <= 0x1c49) ||
        (0x1c50 <= u && u <= 0x1c59) ||
        (0xa620 <= u && u <= 0xa629) ||
        (0xa8d0 <= u && u <= 0xa8d9) ||
        (0xa900 <= u && u <= 0xa909) ||
        (0xa9d0 <= u && u <= 0xa9d9) ||
        (0xa9f0 <= u && u <= 0xa9f9) ||
        (0xaa50 <= u && u <= 0xaa59) ||
        (0xabf0 <= u && u <= 0xabf9) ||
        (0xff10 <= u && u <= 0xff19) ||
        (0x104a0 <= u && u <= 0x104a9) ||
        (0x10d30 <= u && u <= 0x10d39) ||
        (0x10d40 <= u && u <= 0x10d49) ||
        (0x11066 <= u && u <= 0x1106f) ||
        (0x110f0 <= u && u <= 0x110f9) ||
        (0x11136 <= u && u <= 0x1113f) ||
        (0x111d0 <= u && u <= 0x111d9) ||
        (0x112f0 <= u && u <= 0x112f9) ||
        (0x11450 <= u && u <= 0x11459) ||
        (0x114d0 <= u && u <= 0x114d9) ||
        (0x11650 <= u && u <= 0x11659) ||
        (0x116c0 <= u && u <= 0x116c9) ||
        (0x116d0 <= u && u <= 0x116e3) ||
        (0x11730 <= u && u <= 0x11739) ||
        (0x118e0 <= u && u <= 0x118e9) ||
        (0x11950 <= u && u <= 0x11959) ||
        (0x11bf0 <= u && u <= 0x11bf9) ||
        (0x11c50 <= u && u <= 0x11c59) ||
        (0x11d50 <= u && u <= 0x11d59) ||
        (0x11da0 <= u && u <= 0x11da9) ||
        (0x11f50 <= u && u <= 0x11f59) ||
        (0x16130 <= u && u <= 0x16139) ||
        (0x16a60 <= u && u <= 0x16a69) ||
        (0x16ac0 <= u && u <= 0x16ac9) ||
        (0x16b50 <= u && u <= 0x16b59) ||
        (0x16d70 <= u && u <= 0x16d79) ||
        (0x1ccf0 <= u && u <= 0x1ccf9) ||
        (0x1d7ce <= u && u <= 0x1d7ff) ||
        (0x1e140 <= u && u <= 0x1e149) ||
        (0x1e2f0 <= u && u <= 0x1e2f9) ||
        (0x1e4f0 <= u && u <= 0x1e4f9) ||
        (0x1e5f1 <= u && u <= 0x1e5fa) ||
        (0x1e950 <= u && u <= 0x1e959) ||
        (0x1fbf0 <= u && u <= 0x1fbf9)
}

/// Executable form of [`is_nd`].
pub fn char_is_nd(c: char) -> (r: bool)
    ensures
        r == is_nd(c),
{
    let u = c as u32;
    (0x30 <= u && u <= 0x39) ||
        (0x660 <= u && u <= 0x669) ||
        (0x6f0 <= u && u <= 0x6f9) ||
        (0x7c0 <= u && u <= 0x7c9) ||
        (0x966 <= u && u <= 0x96f) ||
        (0x9e6 <= u && u <= 0x9ef) ||
        (0xa66 <= u && u <= 0xa6f) ||
        (0xae6 <= u && u <= 0xaef) ||
        (0xb66 <= u && u <= 0xb6f) ||
        (0xbe6 <= u && u <= 0xbef) ||
        (0xc66 <= u && u <= 0xc6f) ||
        (0xce6 <= u && u <= 0xcef) ||
        (0xd66 <= u && u <= 0xd6f) ||
        (0xde6 <= u && u <= 0xdef) ||
        (0xe50 <= u && u <= 0xe59) ||
        (0xed0 <= u && u <= 0xed9) ||
        (0xf20 <= u && u <= 0xf29) ||
        (0x1040 <= u && u <= 0x1049) ||
        (0x1090 <= u && u <= 0x1099) ||
        (0x17e0 <= u && u <= 0x17e9) ||
        (0x1810 <= u && u <= 0x1819) ||
        (0x1946 <= u && u <= 0x194f) ||
        (0x19d0 <= u && u <= 0x19d9) ||
        (0x1a80 <= u && u <= 0x1a89) ||
        (0x1a90 <= u && u <= 0x1a99) ||
        (0x1b50 <= u && u <= 0x1b59) ||
        (0x1bb0 <= u && u <= 0x1bb9) ||
        (0x1c40 <= u && u <= 0x1c49) ||
        (0x1c50 <= u && u <= 0x1c59) ||
        (0xa620 <= u && u <= 0xa629) ||
        (0xa8d0 <= u && u <= 0xa8d9) ||
        (0xa900 <= u && u <= 0xa909) ||
        (0xa9d0 <= u && u <= 0xa9d9) ||
        (0xa9f0 <= u && u <= 0xa9f9) ||
        (0xaa50 <= u && u <= 0xaa59) ||
        (0xabf0 <= u && u <= 0xabf9) ||
        (0xff10 <= u && u <= 0xff19) ||
        (0x104a0 <= u && u <= 0x104a9) ||
        (0x10d30 <= u && u <= 0x10d39) ||
        (0x10d40 <= u && u <= 0x10d49) ||
        (0x11066 <= u && u <= 0x1106f) ||
        (0x110f0 <= u && u <= 0x110f9) ||
        (0x11136 <= u && u <= 0x1113f) ||
        (0x111d0 <= u && u <= 0x111d9) ||
        (0x112f0 <= u && u <= 0x112f9) ||
        (0x11450 <= u && u <= 0x11459) ||
        (0x114d0 <= u && u <= 0x114d9) ||
        (0x11650 <= u && u <= 0x11659) ||
        (0x116c0 <= u && u <= 0x116c9) ||
        (0x116d0 <= u && u <= 0x116e3) ||
        (0x11730 <= u && u <= 0x11739) ||
        (0x118e0 <= u && u <= 0x118e9) ||
        (0x11950 <= u && u <= 0x11959) ||
        (0x11bf0 <= u && u <= 0x11bf9) ||
        (0x11c50 <= u && u <= 0x11c59) ||
        (0x11d50 <= u && u <= 0x11d59) ||
        (0x11da0 <= u && u <= 0x11da9) ||
        (0x11f50 <= u && u <= 0x11f59) ||
        (0x16130 <= u && u <= 0x16139) ||
        (0x16a60 <= u && u <= 0x16a69) ||
        (0x16ac0 <= u && u <= 0x16ac9) ||
        (0x16b50 <= u && u <= 0x16b59) ||
        (0x16d70 <= u && u <= 0x16d79) ||
        (0x1ccf0 <= u && u <= 0x1ccf9) ||
        (0x1d7ce <= u && u <= 0x1d7ff) ||
        (0x1e140 <= u && u <= 0x1e149) ||
        (0x1e2f0 <= u && u <= 0x1e2f9) ||
        (0x1e4f0 <= u && u <= 0x1e4f9) ||
        (0x1e5f1 <= u && u <= 0x1e5fa) ||
        (0x1e950 <= u && u <= 0x1e959) ||
        (0x1fbf0 <= u && u <= 0x1fbf9)
}

/// An ASCII letter or digit.
pub open spec fn is_alnum(c: char) -> bool {
    ('A' <= c && c <= 'Z') || ('a' <= c && c <= 'z') || ('0' <= c && c <= '9')
}

/// A character of BV numbers: `[1-9A-HJ-NP-Za-km-z]`.
pub open spec fn is_bv_char(c: char) -> bool {
    ('1' <= c && c <= '9') || ('A' <= c && c <= 'H') || ('J' <= c && c <= 'N') || ('P' <= c && c
        <= 'Z') || ('a' <= c && c <= 'k') || ('m' <= c && c <= 'z')
}

fn char_is_bv(c: char) -> (r: bool)
    ensures
        r == is_bv_char(c),
{
    ('1' <= c && c <= '9') || ('A' <= c && c <= 'H') || ('J' <= c && c <= 'N') || ('P' <= c && c
        <= 'Z') || ('a' <= c && c <= 'k') || ('m' <= c && c <= 'z')
}

/// The end of the run of decimal digits that starts at `j`.
pub open spec fn nd_end(s: Seq<char>, j: int) -> int
    decreases s.len() - j,
{
    if 0 <= j < s.len() && is_nd(s[j]) {
        nd_end(s, j + 1)
    } else {
        j
    }
}

/// The end of the run of ASCII letters and digits that starts at `j`.
pub open spec fn alnum_end(s: Seq<char>, j: int) -> int
    decreases s.len() - j,
{
    if 0 <= j < s.len() && is_alnum(s[j]) {
        alnum_end(s, j + 1)
    } else {
        j
    }
}

proof fn lemma_nd_end(s: Seq<char>, j: int)
    requires
        0 <= j <= s.len(),
    ensures
        j <= nd_end(s, j) <= s.len(),
    decreases s.len() - j,
{
    if j < s.len() && is_nd(s[j]) {
        lemma_nd_end(s, j + 1);
    }
}

proof fn lemma_alnum_end(s: Seq<char>, j: int)
    requires
        0 <= j <= s.len(),
    ensures
        j <= alnum_end(s, j) <= s.len(),
    decreases s.len() - j,
{
    if j < s.len() && is_alnum(s[j]) {
        lemma_alnum_end(s, j + 1);
    }
}

fn nd_end_exec(v: &Vec<char>, j: usize) -> (r: usize)
    requires
        j <= v@.len(),
    ensures
        r == nd_end(v@, j as int),
        j <= r <= v@.len(),
{
    let mut k = j;
    while k < v.len() && char_is_nd(v[k])
        invariant
            j <= k <= v@.len(),
            nd_end(v@, j as int) == nd_end(v@, k as int),
        decreases v.len() - k,
    {
        k = k + 1;
    }
    k
}

fn alnum_end_exec(v: &Vec<char>, j: usize) -> (r: usize)
    requires
        j <= v@.len(),
    ensures
        r == alnum_end(v@, j as int),
        j <= r <= v@.len(),
{
    let mut k = j;
    while k < v.len() && (('A' <= v[k] && v[k] <= 'Z') || ('a' <= v[k] && v[k] <= 'z') || ('0'
        <= v[k] && v[k] <= '9'))
        invariant
            j <= k <= v@.len(),
            alnum_end(v@, j as int) == alnum_end(v@, k as int),
        decreases v.len() - k,
    {
        k = k + 1;
    }
    k
}

/// The first match of `m` at a position `i..=n`.
pub open spec fn first_from<T>(n: int, i: int, m: spec_fn(int) -> Option<T>) -> Option<T>
    decreases n + 1 - i,
{
    if i < 0 || i > n {
        None
    } else {
        match m(i) {
            Some(t) => Some(t),
            None => first_from(n, i + 1, m),
        }
    }
}

/// The leftmost match of `m` in a text of length `n`.
pub open spec fn leftmost<T>(n: int, m: spec_fn(int) -> Option<T>) -> Option<T> {
    first_from(n, 0, m)
}


// ---------------------------------------------------------------------------
// The link patterns
// ---------------------------------------------------------------------------

/// The link forms, in the order they are tried after the bare ids.
#[derive(Clone, Copy, PartialEq, Eq, Structural)]
pub enum Pattern {
    /// `(b23.tv|bili2233.cn)/<code>`
    Short,
    /// `bilibili.com/bangumi/media/md<digits>`
    BangumiMedia,
    /// `bilibili.com/bangumi/play/ss<digits>`
    BangumiSeason,
    /// `bilibili.com/bangumi/play/ep<digits>`
    BangumiEpisode,
    /// `bilibili.com/cheese/play/ss<digits>`
    CheeseSeason,
    /// `bilibili.com/cheese/play/ep<digits>`
    CheeseEpisode,
    /// `space.bilibili.com/<mid>/collectiondetail?...sid=<digits>`
    Collection,
    /// `space.bilibili.com/<mid>/favlist?...fid=<digits>`
    Favourite,
    /// `bilibili.com/list/ml<digits>`
    MediaList,
    /// `bilibili.com/series/<digits>` or `.../series/bsc<digits>`
    Series,
    /// `bilibili.com/video/BV<10 chars>` or `.../video/av<digits>`
    Video,
    /// `space.bilibili.com/<digits>` followed by `/`, `?`, `#` or the end
    Space,
}

/// The literal that starts a pattern.
pub open spec fn pattern_lit(p: Pattern) -> Seq<char> {
    match p {
        Pattern::Short => "b23.tv/"@,
        Pattern::BangumiMedia => "bilibili.com/bangumi/media/md"@,
        Pattern::BangumiSeason => "bilibili.com/bangumi/play/ss"@,
        Pattern::BangumiEpisode => "bilibili.com/bangumi/play/ep"@,
        Pattern::CheeseSeason => "bilibili.com/cheese/play/ss"@,
        Pattern::CheeseEpisode => "bilibili.com/cheese/play/ep"@,
        Pattern::Collection => "space.bilibili.com/"@,
        Pattern::Favourite => "space.bilibili.com/"@,
        Pattern::MediaList => "bilibili.com/list/ml"@,
        Pattern::Series => "bilibili.com/series/"@,
        Pattern::Video => "bilibili.com/video/"@,
        Pattern::Space => "space.bilibili.com/"@,
    }
}

fn pattern_lit_exec(p: Pattern) -> (r: &'static str)
    ensures
        r@ == pattern_lit(p),
{
    match p {
        Pattern::Short => "b23.tv/",
        Pattern::BangumiMedia => "bilibili.com/bangumi/media/md",
        Pattern::BangumiSeason => "bilibili.com/bangumi/play/ss",
        Pattern::BangumiEpisode => "bilibili.com/bangumi/play/ep",
        Pattern::CheeseSeason => "bilibili.com/cheese/play/ss",
        Pattern::CheeseEpisode => "bilibili.com/cheese/play/ep",
        Pattern::Collection => "space.bilibili.com/",
        Pattern::Favourite => "space.bilibili.com/",
        Pattern::MediaList => "bilibili.com/list/ml",
        Pattern::Series => "bilibili.com/series/",
        Pattern::Video => "bilibili.com/video/",
        Pattern::Space => "space.bilibili.com/",
    }
}

/// A run of decimal digits starting at `j`: its bounds.
pub open spec fn nd_run(s: Seq<char>, j: int) -> Option<(int, int)> {
    if 0 <= j < s.len() && is_nd(s[j]) {
        Some((j, nd_end(s, j)))
    } else {
        None
    }
}

/// The first position `q >= p` where `lit` and a digit follow, with no line
/// break before it (what `.*?<lit>\d` finds from `p`).
pub open spec fn lazy_find(s: Seq<char>, p: int, lit: Seq<char>) -> Option<int>
    decreases s.len() - p,
{
    if p < 0 || p >= s.len() {
        None
    } else if seq_has_at(s, p, lit) && nd_run(s, p + lit.len()) is Some {
        Some(p)
    } else if s[p] == '\n' {
        None
    } else {
        lazy_find(s, p + 1, lit)
    }
}

/// A short link at position `i`: the bounds of its code.
pub open spec fn short_at(s: Seq<char>, i: int) -> Option<(int, int, int, int)> {
    let k = if seq_has_at(s, i, "b23.tv/"@) {
        i + "b23.tv/"@.len()
    } else if seq_has_at(s, i, "bili2233.cn/"@) {
        i + "bili2233.cn/"@.len()
    } else {
        -1
    };
    if 0 <= k < s.len() && is_alnum(s[k]) {
        Some((k, alnum_end(s, k), 0, 0))
    } else {
        None
    }
}

fn short_at_exec(v: &Vec<char>, i: usize) -> (r: Option<(usize, usize, usize, usize)>)
    requires
        i <= v@.len(),
    ensures
        r matches Some(t) ==> short_at(v@, i as int) == Some(
            (t.0 as int, t.1 as int, t.2 as int, t.3 as int),
        ) && t.0 <= t.1 <= v@.len() && t.2 <= t.3 <= v@.len(),
        r is None ==> short_at(v@, i as int) is None,
{
    let _n = v.len();
    let k: usize = if has_at(v, i, "b23.tv/") {
        i + "b23.tv/".unicode_len()
    } else if has_at(v, i, "bili2233.cn/") {
        i + "bili2233.cn/".unicode_len()
    } else {
        return None;
    };
    if k < v.len() && (('A' <= v[k] && v[k] <= 'Z') || ('a' <= v[k] && v[k] <= 'z') || ('0' <= v[k]
        && v[k] <= '9')) {
        let e = alnum_end_exec(v, k);
        proof {
            lemma_alnum_end(v@, k as int);
        }
        Some((k, e, 0, 0))
    } else {
        None
    }
}

/// A match of the pattern at position `i`: the bounds of its first and
/// second captured parts (the second is `(0, 0)` when there is only one).
pub open spec fn pattern_at(s: Seq<char>, i: int, p: Pattern) -> Option<(int, int, int, int)> {
    let lit = pattern_lit(p);
    let j = i + lit.len();
    match p {
        Pattern::Short => short_at(s, i),
        Pattern::Series => {
            if !seq_has_at(s, i, lit) {
                None
            } else if nd_run(s, j) is Some {
                Some((j, nd_end(s, j), 0, 0))
            } else if seq_has_at(s, j, "bsc"@) && nd_run(s, j + 3) is Some {
                Some((j + 3, nd_end(s, j + 3), 0, 0))
            } else {
                None
            }
        },
        Pattern::Video => {
            if !seq_has_at(s, i, lit) {
                None
            } else if seq_has_at(s, j, "BV"@) && j + 12 <= s.len() && (forall|k: int|
                j + 2 <= k < j + 12 ==> is_bv_char(#[trigger] s[k])) {
                Some((j, j + 12, 0, 0))
            } else if seq_has_at(s, j, "av"@) && nd_run(s, j + 2) is Some {
                Some((j, nd_end(s, j + 2), 0, 0))
            } else {
                None
            }
        },
        Pattern::Favourite | Pattern::Collection => {
            let (mid_lit, key) = if p == Pattern::Favourite {
                ("/favlist?"@, "fid="@)
            } else {
                ("/collectiondetail?"@, "sid="@)
            };
            if !seq_has_at(s, i, lit) || nd_run(s, j) is None {
                None
            } else {
                let k = nd_end(s, j);
                if !seq_has_at(s, k, mid_lit) {
                    None
                } else {
                    match lazy_find(s, k + mid_lit.len(), key) {
                        Some(q) => Some((j, k, q + 4, nd_end(s, q + 4))),
                        None => None,
                    }
                }
            }
        },
        Pattern::Space => {
            if !seq_has_at(s, i, lit) || nd_run(s, j) is None {
                None
            } else {
                let k = nd_end(s, j);
                if k == s.len() || s[k] == '/' || s[k] == '?' || s[k] == '#' {
                    Some((j, k, 0, 0))
                } else {
                    None
                }
            }
        },
        _ => {
            if seq_has_at(s, i, lit) && nd_run(s, j) is Some {
                Some((j, nd_end(s, j), 0, 0))
            } else {
                None
            }
        },
    }
}

fn nd_run_at(v: &Vec<char>, j: usize) -> (r: Option<usize>)
    requires
        j <= v@.len(),
    ensures
        r matches Some(k) ==> nd_run(v@, j as int) == Some((j as int, k as int)) && j < k <= v@.len(),
        r is None ==> nd_run(v@, j as int) is None,
{
    proof {
        lemma_nd_end(v@, j as int);
        if j < v@.len() && is_nd(v@[j as int]) {
            lemma_nd_end(v@, j + 1);
        }
    }
    if j < v.len() && char_is_nd(v[j]) {
        Some(nd_end_exec(v, j))
    } else {
        None
    }
}

fn lazy_find_exec(v: &Vec<char>, p: usize, key: &str) -> (r: Option<usize>)
    requires
        p <= v@.len(),
        key@.len() == 4,
    ensures
        r matches Some(q) ==> lazy_find(v@, p as int, key@) == Some(q as int) && q + 4 <= v@.len(),
        r is None ==> lazy_find(v@, p as int, key@) is None,
{
    let mut q = p;
    while q < v.len()
        invariant
            p <= q <= v@.len(),
            key@.len() == 4,
            lazy_find(v@, p as int, key@) == lazy_find(v@, q as int, key@),
        decreases v.len() - q,
    {
        if has_at(v, q, key) {
            if q + 4 <= v.len() {
                match nd_run_at(v, q + 4) {
                    Some(_) => {
                        return Some(q);
                    },
                    None => {},
                }
            }
        }
        if v[q] == '\n' {
            return None;
        }
        q = q + 1;
    }
    None
}

fn all_bv_chars(v: &Vec<char>, lo: usize, hi: usize) -> (r: bool)
    requires
        lo <= hi <= v@.len(),
    ensures
        r == (forall|k: int| lo <= k < hi ==> is_bv_char(#[trigger] v@[k])),
{
    let mut k = lo;
    while k < hi
        invariant
            lo <= k <= hi <= v@.len(),
            forall|m: int| lo <= m < k ==> is_bv_char(#[trigger] v@[m]),
        decreases hi - k,
    {
        if !char_is_bv(v[k]) {
            return false;
        }
        k = k + 1;
    }
    true
}

/// Executable form of [`pattern_at`].
fn pattern_at_exec(v: &Vec<char>, i: usize, p: Pattern) -> (r: Option<(usize, usize, usize, usize)>)
    requires
        i <= v@.len(),
    ensures
        r matches Some(t) ==> pattern_at(v@, i as int, p) == Some(
            (t.0 as int, t.1 as int, t.2 as int, t.3 as int),
        ) && t.0 <= t.1 <= v@.len() && t.2 <= t.3 <= v@.len(),
        r is None ==> pattern_at(v@, i as int, p) is None,
{
    let lit = pattern_lit_exec(p);
    let _n = v.len();
    let ghost s = v@;
    proof {
        reveal_strlit("b23.tv/");
        reveal_strlit("bili2233.cn/");
        reveal_strlit("bilibili.com/bangumi/media/md");
        reveal_strlit("bilibili.com/bangumi/play/ss");
        reveal_strlit("bilibili.com/bangumi/play/ep");
        reveal_strlit("bilibili.com/cheese/play/ss");
        reveal_strlit("bilibili.com/cheese/play/ep");
        reveal_strlit("space.bilibili.com/");
        reveal_strlit("bilibili.com/list/ml");
        reveal_strlit("bilibili.com/series/");
        reveal_strlit("bilibili.com/video/");
        reveal_strlit("bsc");
        reveal_strlit("BV");
        reveal_strlit("av");
        reveal_strlit("/favlist?");
        reveal_strlit("/collectiondetail?");
        reveal_strlit("fid=");
        reveal_strlit("sid=");
    }
    match p {
        Pattern::Short => short_at_exec(v, i),
        _ => {
            if !has_at(v, i, lit) {
                return None;
            }
            let j = i + lit.unicode_len();
            match p {
                Pattern::Series => {
                    match nd_run_at(v, j) {
                        Some(e) => Some((j, e, 0, 0)),
                        None => {
                            if has_at(v, j, "bsc") {
                                match nd_run_at(v, j + 3) {
                                    Some(e) => Some((j + 3, e, 0, 0)),
                                    None => None,
                                }
                            } else {
                                None
                            }
                        },
                    }
                },
                Pattern::Video => {
                    if has_at(v, j, "BV") && v.len() - j >= 12 && all_bv_chars(v, j + 2, j + 12) {
                        Some((j, j + 12, 0, 0))
                    } else if has_at(v, j, "av") {
                        match nd_run_at(v, j + 2) {
                            Some(e) => Some((j, e, 0, 0)),
                            None => None,
                        }
                    } else {
                        None
                    }
                },
                Pattern::Favourite | Pattern::Collection => {
                    let (mid_lit, key) = if p == Pattern::Favourite {
                        ("/favlist?", "fid=")
                    } else {
                        ("/collectiondetail?", "sid=")
                    };
                    match nd_run_at(v, j) {
                        None => None,
                        Some(k) => {
                            if !has_at(v, k, mid_lit) {
                                None
                            } else {
                                let p2 = k + mid_lit.unicode_len();
                                match lazy_find_exec(v, p2, key) {
                                    Some(q) => {
                                        let e = nd_end_exec(v, q + 4);
                                        Some((j, k, q + 4, e))
                                    },
                                    None => None,
                                }
                            }
                        },
                    }
                },
                Pattern::Space => {
                    match nd_run_at(v, j) {
                        None => None,
                        Some(k) => {
                            if k == v.len() || v[k] == '/' || v[k] == '?' || v[k] == '#' {
                                Some((j, k, 0, 0))
                            } else {
                                None
                            }
                        },
                    }
                },
                _ => {
                    match nd_run_at(v, j) {
                        Some(e) => Some((j, e, 0, 0)),
                        None => None,
                    }
                },
            }
        },
    }
}

/// The leftmost match of a pattern.
fn find_pattern(v: &Vec<char>, p: Pattern) -> (r: Option<(usize, usize, usize, usize)>)
    ensures
        r matches Some(t) ==> leftmost(v@.len() as int, |i: int| pattern_at(v@, i, p)) == Some(
            (t.0 as int, t.1 as int, t.2 as int, t.3 as int),
        ) && t.0 <= t.1 <= v@.len() && t.2 <= t.3 <= v@.len(),
        r is None ==> leftmost(v@.len() as int, |i: int| pattern_at(v@, i, p)) is None,
{
    let ghost m = |i: int| pattern_at(v@, i, p);
    let n = v.len();
    let mut i: usize = 0;
    loop
        invariant
            i <= n,
            n == v@.len(),
            m == (|i: int| pattern_at(v@, i, p)),
            leftmost(n as int, m) == first_from(n as int, i as int, m),
        decreases n - i,
    {
        let r = pattern_at_exec(v, i, p);
        assert(m(i as int) == pattern_at(v@, i as int, p));
        match r {
            Some(t) => {
                return Some(t);
            },
            None => {},
        }
        if i == n {
            assert(first_from(n as int, n + 1, m) is None);
            return None;
        }
        i = i + 1;
    }
}


// ---------------------------------------------------------------------------
// The page number of a video link
// ---------------------------------------------------------------------------

/// `Some(i)` when `lit` occurs at `i`.
pub open spec fn lit_at(s: Seq<char>, lit: Seq<char>, i: int) -> Option<int> {
    if seq_has_at(s, i, lit) {
        Some(i)
    } else {
        None
    }
}

/// The first occurrence of `lit` in `s` (`str::find`).
pub open spec fn find_lit(s: Seq<char>, lit: Seq<char>) -> Option<int> {
    leftmost(s.len() as int, |i: int| lit_at(s, lit, i))
}

fn find_lit_exec(v: &Vec<char>, lit: &str) -> (r: Option<usize>)
    ensures
        r matches Some(i) ==> find_lit(v@, lit@) == Some(i as int) && i + lit@.len() <= v@.len(),
        r is None ==> find_lit(v@, lit@) is None,
{
    let ghost m = |i: int| lit_at(v@, lit@, i);
    let n = v.len();
    let mut i: usize = 0;
    loop
        invariant
            i <= n,
            n == v@.len(),
            m == (|i: int| lit_at(v@, lit@, i)),
            find_lit(v@, lit@) == first_from(n as int, i as int, m),
        decreases n - i,
    {
        let h = has_at(v, i, lit);
        assert(m(i as int) == lit_at(v@, lit@, i as int));
        if h {
            return Some(i);
        }
        if i == n {
            assert(first_from(n as int, n + 1, m) is None);
            return None;
        }
        i = i + 1;
    }
}

/// The end of the run of ASCII digits that starts at `j`.
pub open spec fn ascii_digits_end(s: Seq<char>, j: int) -> int
    decreases s.len() - j,
{
    if 0 <= j < s.len() && crate::text::is_digit(s[j]) {
        ascii_digits_end(s, j + 1)
    } else {
        j
    }
}

proof fn lemma_ascii_digits_end(s: Seq<char>, j: int)
    requires
        0 <= j <= s.len(),
    ensures
        j <= ascii_digits_end(s, j) <= s.len(),
    decreases s.len() - j,
{
    if j < s.len() && crate::text::is_digit(s[j]) {
        lemma_ascii_digits_end(s, j + 1);
    }
}

/// The number made of the ASCII digits right after position `j`, if it is a
/// `u32`.
pub open spec fn number_after(s: Seq<char>, j: int) -> Option<nat> {
    parse_uint(s.subrange(j, ascii_digits_end(s, j)), u32::MAX as int)
}

/// The episode number of the `?p=ep<id>.<episode>` form at `p` (the
/// position of `?p=ep`): the digits after the `.` that follows the id.
pub open spec fn episode_after(s: Seq<char>, p: int) -> Option<nat> {
    let d = ascii_digits_end(s, p + 5);
    if 0 <= d < s.len() && s[d] == '.' {
        number_after(s, d + 1)
    } else {
        None
    }
}

/// The part number of a video link: the digits after the first `?p=` (or,
/// without one, the first `&p=`); failing that, the episode number of the
/// first `?p=ep<id>.<episode>`; failing that, 0.
pub open spec fn page_index(s: Seq<char>) -> u32 {
    let first = match find_lit(s, "?p="@) {
        Some(p) => Some(p),
        None => find_lit(s, "&p="@),
    };
    let direct = match first {
        Some(p) => number_after(s, p + 3),
        None => None,
    };
    match direct {
        Some(n) => n as u32,
        None => match find_lit(s, "?p=ep"@) {
            Some(p) => match episode_after(s, p) {
                Some(n) => n as u32,
                None => 0,
            },
            None => 0,
        },
    }
}

fn number_after_exec(v: &Vec<char>, j: usize) -> (r: Option<u32>)
    requires
        j <= v@.len(),
    ensures
        r matches Some(n) ==> number_after(v@, j as int) == Some(n as nat),
        r is None ==> number_after(v@, j as int) is None,
{
    let mut k = j;
    while k < v.len() && crate::text::char_is_digit(v[k])
        invariant
            j <= k <= v@.len(),
            ascii_digits_end(v@, j as int) == ascii_digits_end(v@, k as int),
        decreases v.len() - k,
    {
        k = k + 1;
    }
    parse_u32_range(v, j, k)
}

fn episode_after_exec(v: &Vec<char>, p: usize) -> (r: Option<u32>)
    requires
        p + 5 <= v@.len(),
    ensures
        r matches Some(n) ==> episode_after(v@, p as int) == Some(n as nat),
        r is None ==> episode_after(v@, p as int) is None,
{
    let n = v.len();
    assert(p + 5 <= n);
    let mut k = p + 5;
    while k < v.len() && crate::text::char_is_digit(v[k])
        invariant
            p + 5 <= k <= v@.len(),
            ascii_digits_end(v@, p + 5) == ascii_digits_end(v@, k as int),
        decreases v.len() - k,
    {
        k = k + 1;
    }
    if k < v.len() && v[k] == '.' {
        number_after_exec(v, k + 1)
    } else {
        None
    }
}

/// The part number (`?p=N`, or the episode of `?p=ep<id>.<episode>`) of a
/// video link; 0 when there is none.
pub fn extract_page_index(v: &Vec<char>) -> (r: u32)
    ensures
        r == page_index(v@),
{
    proof {
        reveal_strlit("?p=");
        reveal_strlit("&p=");
        reveal_strlit("?p=ep");
    }
    let _n = v.len();
    let first = match find_lit_exec(v, "?p=") {
        Some(p) => Some(p),
        None => find_lit_exec(v, "&p="),
    };
    let direct = match first {
        Some(p) => number_after_exec(v, p + 3),
        None => None,
    };
    match direct {
        Some(n) => n,
        None => match find_lit_exec(v, "?p=ep") {
            Some(p) => match episode_after_exec(v, p) {
                Some(n) => n,
                None => 0,
            },
            None => 0,
        },
    }
}

// ---------------------------------------------------------------------------
// Reading a link
// ---------------------------------------------------------------------------

/// Why a link could not be read.
#[derive(Debug, Clone, PartialEq, Eq)]
pub enum IdError {
    /// The input is empty (or only whitespace).
    Empty,
    /// A number in the link does not fit in 64 bits (or is not ASCII).
    InvalidNumber,
    /// No link form matches. Holds the host (or "") when the text is an
    /// absolute URL, `None` when it is not.
    Unrecognized(Option<String>),
}

/// The kinds of [`IdError`].
pub enum IdErrorKind {
    Empty,
    InvalidNumber,
    Unrecognized,
}

/// A bare BV number: `BV` and ten BV characters, nothing else.
pub open spec fn raw_bv(s: Seq<char>) -> bool {
    s.len() == 12 && s[0] == 'B' && s[1] == 'V' && forall|k: int| 2 <= k < 12 ==> is_bv_char(#[trigger] s[k])
}

/// A bare AV number: `av` and digits, nothing else.
pub open spec fn raw_av(s: Seq<char>) -> bool {
    s.len() >= 3 && s[0] == 'a' && s[1] == 'v' && forall|k: int| 2 <= k < s.len() ==> is_nd(#[trigger] s[k])
}

/// The number in `s[a..b]`, if it is a `u64`.
pub open spec fn num_at(s: Seq<char>, a: int, b: int) -> Option<u64> {
    match parse_uint(s.subrange(a, b), u64::MAX as int) {
        Some(v) => Some(v as u64),
        None => None,
    }
}

/// The link forms after the short link and the bare ids, in order.
pub open spec fn pattern_order(k: int) -> Pattern {
    if k == 0 {
        Pattern::BangumiMedia
    } else if k == 1 {
        Pattern::BangumiSeason
    } else if k == 2 {
        Pattern::BangumiEpisode
    } else if k == 3 {
        Pattern::CheeseSeason
    } else if k == 4 {
        Pattern::CheeseEpisode
    } else if k == 5 {
        Pattern::Collection
    } else if k == 6 {
        Pattern::Favourite
    } else if k == 7 {
        Pattern::MediaList
    } else if k == 8 {
        Pattern::Series
    } else if k == 9 {
        Pattern::Video
    } else {
        Pattern::Space
    }
}

fn pattern_order_exec(k: usize) -> (p: Pattern)
    requires
        k < 11,
    ensures
        p == pattern_order(k as int),
{
    if k == 0 {
        Pattern::BangumiMedia
    } else if k == 1 {
        Pattern::BangumiSeason
    } else if k == 2 {
        Pattern::BangumiEpisode
    } else if k == 3 {
        Pattern::CheeseSeason
    } else if k == 4 {
        Pattern::CheeseEpisode
    } else if k == 5 {
        Pattern::Collection
    } else if k == 6 {
        Pattern::Favourite
    } else if k == 7 {
        Pattern::MediaList
    } else if k == 8 {
        Pattern::Series
    } else if k == 9 {
        Pattern::Video
    } else {
        Pattern::Space
    }
}

/// What a match of a link form reads as.
pub open spec fn id_of_match(s: Seq<char>, p: Pattern, t: (int, int, int, int)) -> Result<
    IdView,
    IdErrorKind,
> {
    let n1 = num_at(s, t.0, t.1);
    match p {
        Pattern::Short => Ok(IdView::ShortLink { code: s.subrange(t.0, t.1) }),
        Pattern::Video => Ok(IdView::UgcVideo { id: s.subrange(t.0, t.1), page_index: page_index(s) }),
        Pattern::Collection => match (n1, num_at(s, t.2, t.3)) {
            (Some(mid), Some(sid)) => Ok(IdView::Collection { mid, sid }),
            _ => Err(IdErrorKind::InvalidNumber),
        },
        Pattern::Favourite => match num_at(s, t.2, t.3) {
            Some(fid) => Ok(IdView::Favourite { fid }),
            None => Err(IdErrorKind::InvalidNumber),
        },
        _ => match n1 {
            Some(x) => Ok(
                match p {
                    Pattern::BangumiMedia => IdView::Bangumi {
                        season_id: None,
                        ep_id: None,
                        media_id: Some(x),
                    },
                    Pattern::BangumiSeason => IdView::Bangumi {
                        season_id: Some(x),
                        ep_id: None,
                        media_id: None,
                    },
                    Pattern::BangumiEpisode => IdView::Bangumi {
                        season_id: None,
                        ep_id: Some(x),
                        media_id: None,
                    },
                    Pattern::CheeseSeason => IdView::Cheese { season_id: x, ep_id: None },
                    Pattern::CheeseEpisode => IdView::Cheese { season_id: 0, ep_id: Some(x) },
                    Pattern::MediaList => IdView::MediaList { biz_id: x },
                    Pattern::Series => IdView::Series { sid: x },
                    _ => IdView::Space { mid: x },
                },
            ),
            None => Err(IdErrorKind::InvalidNumber),
        },
    }
}

/// Trying the link forms from the `k`-th on.
pub open spec fn try_patterns(s: Seq<char>, k: int) -> Result<IdView, IdErrorKind>
    decreases 11 - k,
{
    if k < 0 || k >= 11 {
        Err(IdErrorKind::Unrecognized)
    } else {
        match leftmost(s.len() as int, |i: int| pattern_at(s, i, pattern_order(k))) {
            Some(t) => id_of_match(s, pattern_order(k), t),
            None => try_patterns(s, k + 1),
        }
    }
}

/// What reading `input` gives: the input is trimmed; empty is refused; a
/// short link is looked for first, then a bare BV or AV number, then each
/// link form in [`pattern_order`].
pub open spec fn read_id(input: Seq<char>) -> Result<IdView, IdErrorKind> {
    let s = trim(input);
    if s.len() == 0 {
        Err(IdErrorKind::Empty)
    } else {
        match leftmost(s.len() as int, |i: int| pattern_at(s, i, Pattern::Short)) {
            Some(t) => id_of_match(s, Pattern::Short, t),
            None => if raw_bv(s) || raw_av(s) {
                Ok(IdView::UgcVideo { id: s, page_index: 0 })
            } else {
                try_patterns(s, 0)
            },
        }
    }
}

proof fn lemma_first_from_none<T>(n: int, i: int, m: spec_fn(int) -> Option<T>)
    requires
        forall|j: int| i <= j <= n ==> #[trigger] m(j) is None,
    ensures
        first_from(n, i, m) is None,
    decreases n + 1 - i,
{
    if 0 <= i <= n {
        lemma_first_from_none(n, i + 1, m);
    }
}

/// Whitespace around a link or id changes nothing: the padded text reads
/// as the text itself, and a text that is only whitespace is refused as
/// empty.
pub proof fn law_padding_keeps_reading(w1: Seq<char>, s: Seq<char>, w2: Seq<char>)
    requires
        crate::text::all_ws(w1),
        crate::text::all_ws(w2),
    ensures
        read_id(w1 + s + w2) == read_id(s),
        trim(w1 + s + w2) == trim(s),
        trim(s).len() == 0 ==> read_id(s) == Err::<IdView, IdErrorKind>(IdErrorKind::Empty),
{
    crate::text::lemma_trim_padded(w1, s, w2);
}

proof fn lemma_nd_not_ws(c: char)
    requires
        is_nd(c),
    ensures
        !crate::text::is_ws(c),
{
}

/// A bare BV or AV number reads as the video it names, as a whole video.
pub proof fn law_bare_ids_read_as_videos(s: Seq<char>)
    requires
        raw_bv(s) || raw_av(s),
    ensures
        read_id(s) == Ok::<IdView, IdErrorKind>(IdView::UgcVideo { id: s, page_index: 0 }),
{
    reveal_strlit("b23.tv/");
    reveal_strlit("bili2233.cn/");
    assert(!crate::text::is_ws(s[0]));
    assert(!crate::text::is_ws(s.last())) by {
        if raw_av(s) {
            lemma_nd_not_ws(s[s.len() - 1]);
        }
    }
    crate::text::lemma_trim_unchanged(s);
    assert forall|j: int| 0 <= j < s.len() implies #[trigger] s[j] != '.' by {
        if raw_bv(s) {
            if j >= 2 {
                assert(is_bv_char(s[j]));
            }
        } else if j >= 2 {
            assert(is_nd(s[j]));
        }
    }
    assert forall|i: int| 0 <= i <= s.len() implies #[trigger] pattern_at(s, i, Pattern::Short) is None by {
        if seq_has_at(s, i, "b23.tv/"@) {
            assert(s.subrange(i, i + 7)[3] == s[i + 3]);
        } else if seq_has_at(s, i, "bili2233.cn/"@) {
            assert(s.subrange(i, i + 12)[8] == s[i + 8]);
        }
    }
    lemma_first_from_none(s.len() as int, 0, |i: int| pattern_at(s, i, Pattern::Short));
}

fn num_at_exec(v: &Vec<char>, a: usize, b: usize) -> (r: Option<u64>)
    requires
        a <= b <= v@.len(),
    ensures
        r == num_at(v@, a as int, b as int),
{
    parse_u64_range(v, a, b)
}

fn id_of_match_exec(v: &Vec<char>, p: Pattern, t: (usize, usize, usize, usize)) -> (r: Result<
    NormalizedId,
    IdError,
>)
    requires
        t.0 <= t.1 <= v@.len(),
        t.2 <= t.3 <= v@.len(),
    ensures
        match id_of_match(v@, p, (t.0 as int, t.1 as int, t.2 as int, t.3 as int)) {
            Ok(x) => r matches Ok(y) && y@ == x,
            Err(IdErrorKind::InvalidNumber) => r == Err::<NormalizedId, IdError>(IdError::InvalidNumber),
            Err(_) => false,
        },
{
    match p {
        Pattern::Short => Ok(NormalizedId::ShortLink { code: string_of_range(v, t.0, t.1) }),
        Pattern::Video => Ok(
            NormalizedId::UgcVideo {
                id: string_of_range(v, t.0, t.1),
                page_index: extract_page_index(v),
            },
        ),
        Pattern::Collection => match (num_at_exec(v, t.0, t.1), num_at_exec(v, t.2, t.3)) {
            (Some(mid), Some(sid)) => Ok(NormalizedId::Collection { mid, sid }),
            _ => Err(IdError::InvalidNumber),
        },
        Pattern::Favourite => match num_at_exec(v, t.2, t.3) {
            Some(fid) => Ok(NormalizedId::Favourite { fid }),
            None => Err(IdError::InvalidNumber),
        },
        _ => match num_at_exec(v, t.0, t.1) {
            Some(x) => Ok(
                match p {
                    Pattern::BangumiMedia => NormalizedId::Bangumi {
                        season_id: None,
                        ep_id: None,
                        media_id: Some(x),
                    },
                    Pattern::BangumiSeason => NormalizedId::Bangumi {
                        season_id: Some(x),
                        ep_id: None,
                        media_id: None,
                    },
                    Pattern::BangumiEpisode => NormalizedId::Bangumi {
                        season_id: None,
                        ep_id: Some(x),
                        media_id: None,
                    },
                    Pattern::CheeseSeason => NormalizedId::Cheese { season_id: x, ep_id: None },
                    Pattern::CheeseEpisode => NormalizedId::Cheese { season_id: 0, ep_id: Some(x) },
                    Pattern::MediaList => NormalizedId::MediaList { biz_id: x },
                    Pattern::Series => NormalizedId::Series { sid: x },
                    _ => NormalizedId::Space { mid: x },
                },
            ),
            None => Err(IdError::InvalidNumber),
        },
    }
}

fn sub_vec(v: &Vec<char>, a: usize, b: usize) -> (w: Vec<char>)
    requires
        a <= b <= v@.len(),
    ensures
        w@ == v@.subrange(a as int, b as int),
{
    let mut w: Vec<char> = Vec::new();
    let mut i = a;
    while i < b
        invariant
            a <= i <= b <= v@.len(),
            w@ == v@.subrange(a as int, i as int),
        decreases b - i,
    {
        w.push(v[i]);
        i = i + 1;
        assert(w@ =~= v@.subrange(a as int, i as int));
    }
    w
}

fn is_raw_bv(v: &Vec<char>) -> (r: bool)
    ensures
        r == raw_bv(v@),
{
    v.len() == 12 && v[0] == 'B' && v[1] == 'V' && all_bv_chars(v, 2, 12)
}

fn is_raw_av(v: &Vec<char>) -> (r: bool)
    ensures
        r == raw_av(v@),
{
    if !(v.len() >= 3 && v[0] == 'a' && v[1] == 'v') {
        return false;
    }
    let mut k: usize = 2;
    while k < v.len()
        invariant
            2 <= k <= v@.len(),
            forall|m: int| 2 <= m < k ==> is_nd(#[trigger] v@[m]),
        decreases v.len() - k,
    {
        if !char_is_nd(v[k]) {
            return false;
        }
        k = k + 1;
    }
    true
}


/// The host reported when no link form matches: that of the text as an
/// absolute URL (empty when it has none), or `None` when it is not one.
pub open spec fn unrecognized_host(s: Seq<char>) -> Option<Seq<char>> {
    match crate::safe_url::url_parts(s) {
        Some((_, Some(h))) => Some(h),
        Some((_, None)) => Some(seq![]),
        None => None,
    }
}

/// Reads a Bilibili link or bare id (see the module documentation): the
/// result is exactly [`read_id`] of the input; an unrecognised input also
/// reports its host when it is an absolute URL.
pub fn parse_url(input: &str) -> (r: Result<NormalizedId, IdError>)
    ensures
        match read_id(input@) {
            Ok(x) => r matches Ok(y) && y@ == x,
            Err(IdErrorKind::Empty) => r == Err::<NormalizedId, IdError>(IdError::Empty),
            Err(IdErrorKind::InvalidNumber) => r == Err::<NormalizedId, IdError>(
                IdError::InvalidNumber,
            ),
            Err(IdErrorKind::Unrecognized) => r matches Err(IdError::Unrecognized(h)) && match h {
                Some(x) => unrecognized_host(trim(input@)) == Some(x@),
                None => unrecognized_host(trim(input@)) is None,
            },
        },
{
    let all = chars_of(input);
    let (a, b) = trim_bounds(&all, 0, all.len());
    assert(all@.subrange(0, all@.len() as int) == input@);
    let v = sub_vec(&all, a, b);
    let ghost s = v@;
    if v.len() == 0 {
        return Err(IdError::Empty);
    }
    match find_pattern(&v, Pattern::Short) {
        Some(t) => {
            return id_of_match_exec(&v, Pattern::Short, t);
        },
        None => {},
    }
    if is_raw_bv(&v) || is_raw_av(&v) {
        assert(v@.subrange(0, v@.len() as int) == v@);
        return Ok(NormalizedId::UgcVideo { id: string_of_range(&v, 0, v.len()), page_index: 0 });
    }
    let mut k: usize = 0;
    while k < 11
        invariant
            k <= 11,
            s == v@,
            s == trim(input@),
            s.len() > 0,
            read_id(input@) == try_patterns(s, k as int),
        decreases 11 - k,
    {
        let p = pattern_order_exec(k);
        match find_pattern(&v, p) {
            Some(t) => {
                return id_of_match_exec(&v, p, t);
            },
            None => {},
        }
        k = k + 1;
    }
    let text = string_of_range(&v, 0, v.len());
    assert(v@.subrange(0, v@.len() as int) == s);
    let host = match crate::safe_url::parse_url_parts(text.as_str()) {
        Some((_, Some(h))) => Some(h),
        Some((_, None)) => Some(String::new()),
        None => None,
    };
    Err(IdError::Unrecognized(host))
}


// ---------------------------------------------------------------------------
// Text forms of identifiers
// ---------------------------------------------------------------------------

/// The text of an identifier for people.
pub open spec fn describe_id(v: IdView) -> Seq<char> {
    match v {
        IdView::UgcVideo { id, page_index } => if page_index > 0 {
            "UGC 视频: "@ + id + " (P"@ + dec(page_index as nat) + ")"@
        } else {
            "UGC 视频: "@ + id
        },
        IdView::Bangumi { season_id, ep_id, media_id } => match (season_id, ep_id, media_id) {
            (Some(ss), Some(ep), _) => "番剧: ss"@ + dec(ss as nat) + " ep"@ + dec(ep as nat),
            (Some(ss), None, _) => "番剧: ss"@ + dec(ss as nat),
            (None, Some(ep), _) => "番剧单集: ep"@ + dec(ep as nat),
            (None, None, Some(md)) => "番剧: md"@ + dec(md as nat),
            (None, None, None) => "番剧"@,
        },
        IdView::Cheese { season_id, ep_id } => match ep_id {
            Some(ep) => "课程: ss"@ + dec(season_id as nat) + " ep"@ + dec(ep as nat),
            None => "课程: ss"@ + dec(season_id as nat),
        },
        IdView::Favourite { fid } => "收藏夹: fid"@ + dec(fid as nat),
        IdView::Series { sid } => "合集: bsc"@ + dec(sid as nat),
        IdView::Space { mid } => "UP 主空间: mid"@ + dec(mid as nat),
        IdView::Mid { mid } => "UP 主: mid"@ + dec(mid as nat),
        IdView::MediaList { biz_id } => "媒体列表: ml"@ + dec(biz_id as nat),
        IdView::IntlBangumi { season_id } => "国际版番剧: ss"@ + dec(season_id as nat),
        IdView::Collection { mid, sid } => "合集: mid"@ + dec(mid as nat) + " sid"@ + dec(
            sid as nat,
        ),
        IdView::ShortLink { code } => "短链: "@ + code,
    }
}

impl NormalizedId {
    /// The text of the identifier for people (`"UGC 视频: BV.. (P2)"`,
    /// `"番剧: ss123"`, ...).
    pub fn describe(&self) -> (s: String)
        ensures
            s@ == describe_id(self@),
    {
        match self {
            NormalizedId::UgcVideo { id, page_index } => {
                let mut s = owned("UGC 视频: ");
                push_str(&mut s, id.as_str());
                if *page_index > 0 {
                    push_str(&mut s, " (P");
                    push_dec(&mut s, *page_index as u64);
                    push_str(&mut s, ")");
                }
                s
            },
            NormalizedId::Bangumi { season_id, ep_id, media_id } => match (season_id, ep_id, media_id) {
                (Some(ss), Some(ep), _) => {
                    let mut s = owned("番剧: ss");
                    push_dec(&mut s, *ss);
                    push_str(&mut s, " ep");
                    push_dec(&mut s, *ep);
                    s
                },
                (Some(ss), None, _) => {
                    let mut s = owned("番剧: ss");
                    push_dec(&mut s, *ss);
                    s
                },
                (None, Some(ep), _) => {
                    let mut s = owned("番剧单集: ep");
                    push_dec(&mut s, *ep);
                    s
                },
                (None, None, Some(md)) => {
                    let mut s = owned("番剧: md");
                    push_dec(&mut s, *md);
                    s
                },
                (None, None, None) => owned("番剧"),
            },
            NormalizedId::Cheese { season_id, ep_id } => {
                let mut s = owned("课程: ss");
                push_dec(&mut s, *season_id);
                match ep_id {
                    Some(ep) => {
                        push_str(&mut s, " ep");
                        push_dec(&mut s, *ep);
                    },
                    None => {},
                }
                s
            },
            NormalizedId::Favourite { fid } => {
                let mut s = owned("收藏夹: fid");
                push_dec(&mut s, *fid);
                s
            },
            NormalizedId::Series { sid } => {
                let mut s = owned("合集: bsc");
                push_dec(&mut s, *sid);
                s
            },
            NormalizedId::Space { mid } => {
                let mut s = owned("UP 主空间: mid");
                push_dec(&mut s, *mid);
                s
            },
            NormalizedId::Mid { mid } => {
                let mut s = owned("UP 主: mid");
                push_dec(&mut s, *mid);
                s
            },
            NormalizedId::MediaList { biz_id } => {
                let mut s = owned("媒体列表: ml");
                push_dec(&mut s, *biz_id);
                s
            },
            NormalizedId::IntlBangumi { season_id } => {
                let mut s = owned("国际版番剧: ss");
                push_dec(&mut s, *season_id);
                s
            },
            NormalizedId::Collection { mid, sid } => {
                let mut s = owned("合集: mid");
                push_dec(&mut s, *mid);
                push_str(&mut s, " sid");
                push_dec(&mut s, *sid);
                s
            },
            NormalizedId::ShortLink { code } => {
                let mut s = owned("短链: ");
                push_str(&mut s, code.as_str());
                s
            },
        }
    }
}

impl AvId {
    /// `"av<number>"`.
    pub fn describe(&self) -> (s: String)
        ensures
            s@ == "av"@ + dec(self.0 as nat),
    {
        let mut s = owned("av");
        push_dec(&mut s, self.0);
        s
    }

    /// Reads an AV number: every leading `av` is dropped, the rest must be a
    /// `u64` (an optional `+`, then ASCII digits).
    pub fn parse(s: &str) -> (r: Option<AvId>)
        ensures
            match parse_uint(strip_av(s@), u64::MAX as int) {
                Some(n) => r == Some(AvId(n as u64)),
                None => r is None,
            },
    {
        let v = chars_of(s);
        let n = v.len();
        let mut i: usize = 0;
        assert(v@.subrange(0, v@.len() as int) == v@);
        while has_at(&v, i, "av")
            invariant
                i <= v@.len(),
                n == v@.len(),
                v@ == s@,
                strip_av(s@) == strip_av(v@.subrange(i as int, v@.len() as int)),
            decreases v@.len() - i,
        {
            proof {
                reveal_strlit("av");
                let t = v@.subrange(i as int, v@.len() as int);
                assert(t.subrange(0, 2) =~= v@.subrange(i as int, i + 2));
                assert(seq_has_at(t, 0, "av"@));
                assert(t.skip(2) == v@.subrange(i + 2, v@.len() as int));
            }
            i = i + 2;
        }
        proof {
            reveal_strlit("av");
            let t = v@.subrange(i as int, v@.len() as int);
            assert(!seq_has_at(t, 0, "av"@)) by {
                if seq_has_at(t, 0, "av"@) {
                    assert(t.subrange(0, 2) == v@.subrange(i as int, i + 2));
                }
            }
        }
        match parse_u64_range(&v, i, v.len()) {
            Some(n) => Some(AvId(n)),
            None => None,
        }
    }
}

/// `s` without every leading `av` (`trim_start_matches("av")`).
pub open spec fn strip_av(s: Seq<char>) -> Seq<char>
    decreases s.len(),
{
    if seq_has_at(s, 0, "av"@) && "av"@.len() > 0 {
        strip_av(s.skip("av"@.len() as int))
    } else {
        s
    }
}

/// Reading back the text that [`AvId::describe`] writes gives the same number.
pub proof fn law_av_describe_parse(a: AvId)
    ensures
        parse_uint(strip_av("av"@ + dec(a.0 as nat)), u64::MAX as int) == Some(a.0 as nat),
{
    reveal_strlit("av");
    let d = dec(a.0 as nat);
    crate::text::lemma_dec_spells(a.0 as nat);
    let s = "av"@ + d;
    assert(s.subrange(0, 2) == "av"@);
    assert(s.skip(2) == d);
    assert(crate::text::is_digit(d[0]));
    assert(!seq_has_at(d, 0, "av"@)) by {
        if seq_has_at(d, 0, "av"@) {
            assert(d.subrange(0, 2)[0] == d[0]);
        }
    }
    assert(strip_av(d) == d);
    assert(strip_av(s) == strip_av(s.skip(2)));
}

impl BvId {
    /// Reads a BV number after checking its form with
    /// [`crate::bv::validate_bv`].
    pub fn parse(s: &str) -> (r: Result<BvId, crate::bv::BvError>)
        ensures
            r is Ok <==> crate::bv::bv_valid(s@),
            r matches Ok(b) ==> b.0@ == s@,
            r matches Err(e) ==> crate::bv::bv_check(s@) == Some(e),
    {
        match crate::bv::validate_bv(s) {
            Ok(()) => Ok(BvId(owned(s))),
            Err(e) => Err(e),
        }
    }
}

impl CId {
    /// `"cid=<number>"`.
    pub fn describe(&self) -> (s: String)
        ensures
            s@ == "cid="@ + dec(self.0 as nat),
    {
        let mut s = owned("cid=");
        push_dec(&mut s, self.0);
        s
    }
}

/// Identifiers with a raw text form.
pub trait BilibiliId {
    /// The raw text of the identifier.
    fn raw(&self) -> &str;
}

impl BilibiliId for BvId {
    fn raw(&self) -> (r: &str)
        ensures
            r@ == self.0@,
    {
        self.0.as_str()
    }
}

impl BilibiliId for AvId {
    /// An AV number has no text of its own: the empty string.
    fn raw(&self) -> (r: &str)
        ensures
            r@.len() == 0,
    {
        proof {
            reveal_strlit("");
        }
        ""
    }
}

proof fn lemma_alnum_end_all(s: Seq<char>, j: int)
    requires
        0 <= j <= s.len(),
        forall|i: int| j <= i < s.len() ==> is_alnum(#[trigger] s[i]),
    ensures
        alnum_end(s, j) == s.len(),
    decreases s.len() - j,
{
    if j < s.len() {
        lemma_alnum_end_all(s, j + 1);
    }
}

proof fn lemma_first_from_skip<T>(n: int, i: int, j: int, m: spec_fn(int) -> Option<T>)
    requires
        0 <= i <= j <= n,
        forall|x: int| i <= x < j ==> #[trigger] m(x) is None,
    ensures
        first_from(n, i, m) == first_from(n, j, m),
    decreases j - i,
{
    if i < j {
        lemma_first_from_skip(n, i + 1, j, m);
    }
}

proof fn lemma_short_link(host: Seq<char>, c: Seq<char>)
    requires
        host == "b23.tv/"@ || host == "bili2233.cn/"@,
        c.len() > 0,
        forall|i: int| 0 <= i < c.len() ==> is_alnum(#[trigger] c[i]),
    ensures
        read_id("https://"@ + host + c) == Ok::<IdView, IdErrorKind>(IdView::ShortLink { code: c }),
{
    reveal_strlit("https://");
    reveal_strlit("b23.tv/");
    reveal_strlit("bili2233.cn/");
    let s = "https://"@ + host + c;
    let k: int = 8 + host.len() as int;
    assert(s.len() == k + c.len());
    assert forall|i: int| 0 <= i < c.len() implies s[k + i] == c[i] by {}
    assert(s[0] == 'h');
    assert(s.last() == c.last());
    crate::text::lemma_trim_unchanged(s);
    assert forall|i: int| 0 <= i < 8 implies #[trigger] pattern_at(s, i, Pattern::Short) is None by {
        assert(s[i] != 'b');
        if seq_has_at(s, i, "b23.tv/"@) {
            assert(s.subrange(i, i + 7)[0] == s[i]);
        }
        if seq_has_at(s, i, "bili2233.cn/"@) {
            assert(s.subrange(i, i + 12)[0] == s[i]);
        }
    }
    if host == "b23.tv/"@ {
        assert(s.subrange(8, 15) =~= "b23.tv/"@);
    } else {
        assert(s.subrange(8, 20) =~= "bili2233.cn/"@);
        assert(!seq_has_at(s, 8, "b23.tv/"@)) by {
            if seq_has_at(s, 8, "b23.tv/"@) {
                assert(s.subrange(8, 15)[1] == s[9]);
            }
        }
    }
    assert forall|i: int| k <= i < s.len() implies is_alnum(#[trigger] s[i]) by {
        assert(s[i] == c[i - k]);
    }
    lemma_alnum_end_all(s, k);
    assert(pattern_at(s, 8, Pattern::Short) == Some((k, s.len() as int, 0int, 0int)));
    let m = |i: int| pattern_at(s, i, Pattern::Short);
    lemma_first_from_skip(s.len() as int, 0, 8, m);
    assert(s.subrange(k, s.len() as int) =~= c);
}

/// A short link reads as its code: for every code `c` of ASCII letters and
/// digits, `https://b23.tv/<c>` and `https://bili2233.cn/<c>` both read as
/// `ShortLink { code: c }`.
pub proof fn law_short_links_read_as_codes(c: Seq<char>)
    requires
        c.len() > 0,
        forall|i: int| 0 <= i < c.len() ==> is_alnum(#[trigger] c[i]),
    ensures
        read_id("https://b23.tv/"@ + c) == Ok::<IdView, IdErrorKind>(IdView::ShortLink { code: c }),
        read_id("https://bili2233.cn/"@ + c) == Ok::<IdView, IdErrorKind>(IdView::ShortLink { code: c }),
{
    reveal_strlit("https://");
    reveal_strlit("b23.tv/");
    reveal_strlit("bili2233.cn/");
    reveal_strlit("https://b23.tv/");
    reveal_strlit("https://bili2233.cn/");
    lemma_short_link("b23.tv/"@, c);
    lemma_short_link("bili2233.cn/"@, c);
    assert("https://b23.tv/"@ =~= "https://"@ + "b23.tv/"@);
    assert("https://bili2233.cn/"@ =~= "https://"@ + "bili2233.cn/"@);
}

} // verus!
