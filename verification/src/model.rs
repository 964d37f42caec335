//! The data model: a video's information, its parts, and its tracks.

use vstd::prelude::*;

verus! {

/// What is known of a video (or of a bangumi, course, list...).
#[derive(Debug, Clone)]
pub struct VInfo {
    /// Title.
    pub title: String,
    /// Description.
    pub desc: String,
    /// Cover link.
    pub pic: String,
    /// Publication time (seconds since the epoch).
    pub pubdate: i64,
    /// Uploader id.
    pub owner_mid: u64,
    /// Uploader name.
    pub owner_name: String,
    /// AV number.
    pub aid: u64,
    /// BV number.
    pub bvid: String,
    /// The part ids, one per page.
    pub cids: Vec<u64>,
    /// The part names, one per page.
    pub part_names: Vec<String>,
    /// The parts.
    pub pages: Vec<Page>,
    /// Chapter marks.
    pub view_points: Vec<ViewPoint>,
    /// A bangumi.
    pub is_bangumi: bool,
    /// A course.
    pub is_cheese: bool,
    /// An interactive video.
    pub is_stein_gate: bool,
    /// Tags.
    pub tags: Vec<String>,
}

/// One part of a video.
#[derive(Debug, Clone)]
pub struct Page {
    /// Part number.
    pub page_index: u32,
    /// Part id.
    pub cid: u64,
    /// Part title.
    pub title: String,
    /// Duration in seconds.
    pub duration: u32,
    /// `WIDTHxHEIGHT`, or empty.
    pub dimension: String,
}

/// A chapter mark.
#[derive(Debug, Clone)]
pub struct ViewPoint {
    /// Part id.
    pub cid: u64,
    /// Chapter title.
    pub title: String,
    /// Start, in seconds.
    pub start: u32,
    /// End, in seconds.
    pub end: u32,
}

/// An audio track.
#[derive(Debug, Clone)]
pub struct AudioTrack {
    /// `audio-<id>-<codecid>`.
    pub id: String,
    /// Quality code.
    pub quality: u32,
    /// Quality for people.
    pub quality_desc: String,
    /// Codec name.
    pub codec: String,
    /// Bits per second.
    pub bandwidth: u64,
    /// Dolby Atmos.
    pub is_dolby_atmos: bool,
    /// Hi-Res (FLAC).
    pub is_hi_res: bool,
    /// Download links, best first.
    pub urls: Vec<String>,
    /// Size in bytes (0 when unknown).
    pub size: u64,
}

/// A subtitle track.
#[derive(Debug, Clone)]
pub struct SubtitleTrack {
    /// Id.
    pub id: String,
    /// Language code.
    pub lang: String,
    /// Language name.
    pub lang_name: String,
    /// Format.
    pub format: String,
    /// Download link.
    pub url: String,
    /// Source.
    pub source: String,
    /// Machine generated.
    pub is_ai: bool,
}

/// A page as plain values.
pub struct PageView {
    pub page_index: u32,
    pub cid: u64,
    pub title: Seq<char>,
    pub duration: u32,
    pub dimension: Seq<char>,
}

impl View for Page {
    type V = PageView;

    open spec fn view(&self) -> PageView {
        PageView {
            page_index: self.page_index,
            cid: self.cid,
            title: self.title@,
            duration: self.duration,
            dimension: self.dimension@,
        }
    }
}

/// The pages of a list, as plain values.
pub open spec fn pages_view(p: Seq<Page>) -> Seq<PageView> {
    p.map_values(|x: Page| x@)
}

/// The part ids and part names of a video are those of its pages.
pub open spec fn parts_match(info: VInfo) -> bool {
    &&& info.cids@.len() == info.pages@.len()
    &&& info.part_names@.len() == info.pages@.len()
    &&& forall|i: int| 0 <= i < info.pages@.len() ==> #[trigger] info.cids@[i] == info.pages@[i].cid
        && info.part_names@[i]@ == info.pages@[i].title@
}

/// The part ids and names of pages.
pub fn parts_of(pages: &Vec<Page>) -> (r: (Vec<u64>, Vec<String>))
    ensures
        r.0@.len() == pages@.len(),
        r.1@.len() == pages@.len(),
        forall|i: int| 0 <= i < pages@.len() ==> #[trigger] r.0@[i] == pages@[i].cid && r.1@[i]@
            == pages@[i].title@,
{
    let mut cids: Vec<u64> = Vec::new();
    let mut names: Vec<String> = Vec::new();
    let mut i: usize = 0;
    while i < pages.len()
        invariant
            i <= pages@.len(),
            cids@.len() == i,
            names@.len() == i,
            forall|j: int| 0 <= j < i ==> #[trigger] cids@[j] == pages@[j].cid && names@[j]@
                == pages@[j].title@,
        decreases pages.len() - i,
    {
        cids.push(pages[i].cid);
        names.push(pages[i].title.clone());
        i = i + 1;
    }
    (cids, names)
}

} // verus!
