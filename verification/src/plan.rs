//! Planning a download: the file names of a part, which tracks to fetch, and
//! what to ask of the downloader. The transfers and the muxing are the
//! caller's.

use vstd::prelude::*;
use crate::model::AudioTrack;
use crate::path::{clean_name, sanitize_filename};
use crate::text::{
    chars_of, concat, dec, join_strings, join_with, owned, push_char, push_dec, push_str, split_on,
    split_ranges, string_of_range,
};

verus! {

// ---------------------------------------------------------------------------
// File names
// ---------------------------------------------------------------------------

/// `\` read as `/`.
pub open spec fn as_slash(c: char) -> char {
    if c == '\\' {
        '/'
    } else {
        c
    }
}

/// A segment of a path that is kept: neither empty nor `..`.
pub open spec fn kept_segment(p: Seq<char>) -> bool {
    p.len() > 0 && p != ".."@
}

/// `s` with no way out of its directory: split at `/` and `\`, the empty and
/// `..` segments dropped, the rest joined by `_`.
pub open spec fn no_traversal(s: Seq<char>) -> Seq<char> {
    join_with(
        split_on(s.map_values(|c: char| as_slash(c)), '/').filter(|p: Seq<char>| kept_segment(p)),
        "_"@,
    )
}

/// The stem of the files of a part: `<title>_<page_index>_<ordinal>` cleaned
/// into a file name, with no way out of its directory.
pub open spec fn page_stem(title: Seq<char>, page_index: u32, ordinal: u64) -> Seq<char> {
    no_traversal(
        clean_name(title + "_"@ + dec(page_index as nat) + "_"@ + dec(ordinal as nat)),
    )
}

fn dots(v: &Vec<char>, lo: usize, hi: usize) -> (r: bool)
    requires
        lo <= hi <= v@.len(),
    ensures
        r == (v@.subrange(lo as int, hi as int) == ".."@),
{
    proof {
        reveal_strlit("..");
    }
    let r = hi - lo == 2 && v[lo] == '.' && v[lo + 1] == '.';
    proof {
        let t = v@.subrange(lo as int, hi as int);
        if r {
            assert(t =~= ".."@);
        } else if t == ".."@ {
            assert(t.len() == 2);
            assert(t[0] == v@[lo as int]);
            assert(t[1] == v@[lo + 1]);
        }
    }
    r
}

/// [`no_traversal`] of `s`.
pub fn remove_traversal(s: &str) -> (r: String)
    ensures
        r@ == no_traversal(s@),
{
    let v = chars_of(s);
    let mut m: Vec<char> = Vec::new();
    let mut i: usize = 0;
    while i < v.len()
        invariant
            i <= v@.len(),
            v@ == s@,
            m@ == v@.take(i as int).map_values(|c: char| as_slash(c)),
        decreases v.len() - i,
    {
        let c = v[i];
        m.push(if c == '\\' {
            '/'
        } else {
            c
        });
        proof {
            assert(v@.take(i + 1).map_values(|c: char| as_slash(c)) =~= v@.take(i as int).map_values(
                |c: char| as_slash(c),
            ).push(as_slash(v@[i as int])));
        }
        i = i + 1;
    }
    assert(v@.take(v@.len() as int) == v@);
    let ranges = split_ranges(&m, '/');
    let ghost segs = split_on(m@, '/');
    let ghost keep = |p: Seq<char>| kept_segment(p);
    let mut parts: Vec<String> = Vec::new();
    let mut j: usize = 0;
    while j < ranges.len()
        invariant
            j <= ranges@.len(),
            ranges@.len() == segs.len(),
            segs == split_on(m@, '/'),
            keep == (|p: Seq<char>| kept_segment(p)),
            forall|k: int|
                0 <= k < ranges@.len() ==> #[trigger] ranges@[k].0 <= ranges@[k].1 <= m@.len()
                    && m@.subrange(ranges@[k].0 as int, ranges@[k].1 as int) == segs[k],
            parts@.map_values(|p: String| p@) == segs.take(j as int).filter(keep),
        decreases ranges.len() - j,
    {
        let (lo, hi) = ranges[j];
        assert(segs.take(j + 1).drop_last() == segs.take(j as int));
        assert(segs.take(j + 1).last() == segs[j as int]);
        assert(segs.take(j + 1).filter(keep) == if keep(segs[j as int]) {
            segs.take(j as int).filter(keep).push(segs[j as int])
        } else {
            segs.take(j as int).filter(keep)
        }) by {
            reveal(Seq::filter);
        }
        if hi > lo && !dots(&m, lo, hi) {
            let p = string_of_range(&m, lo, hi);
            proof {
                let old_parts = parts@;
                assert(old_parts.push(p).map_values(|q: String| q@) =~= old_parts.map_values(
                    |q: String| q@,
                ).push(p@));
            }
            parts.push(p);
        }
        j = j + 1;
    }
    assert(segs.take(segs.len() as int) == segs);
    proof {
        reveal_strlit("_");
    }
    join_strings(&parts, "_")
}

/// The stem of the files of the `ordinal`-th part (numbered `page_index`)
/// of a video titled `title`.
pub fn page_file_stem(title: &str, page_index: u32, ordinal: u64) -> (r: String)
    ensures
        r@ == page_stem(title@, page_index, ordinal),
{
    let mut s = owned(title);
    push_str(&mut s, "_");
    push_dec(&mut s, page_index as u64);
    push_str(&mut s, "_");
    push_dec(&mut s, ordinal);
    proof {
        reveal_strlit("_");
    }
    let clean = sanitize_filename(s.as_str());
    remove_traversal(clean.as_str())
}

/// The file of a part's video: `<stem>_video.mp4` for a stream that holds
/// both video and audio, `<stem>_video.m4s` otherwise.
pub fn video_file_name(stem: &str, is_combined: bool) -> (r: String)
    ensures
        r@ == stem@ + "_video."@ + (if is_combined {
            "mp4"@
        } else {
            "m4s"@
        }),
{
    let mut r = concat(stem, "_video.");
    if is_combined {
        push_str(&mut r, "mp4");
    } else {
        push_str(&mut r, "m4s");
    }
    r
}

/// The file of a part's audio: `<stem>_audio.m4s`.
pub fn audio_file_name(stem: &str) -> (r: String)
    ensures
        r@ == stem@ + "_audio.m4s"@,
{
    concat(stem, "_audio.m4s")
}

/// The file of a part's muxed video: `<stem>.mp4`.
pub fn merged_file_name(stem: &str) -> (r: String)
    ensures
        r@ == stem@ + ".mp4"@,
{
    concat(stem, ".mp4")
}

/// The text after the last `.` of `s`, all of `s` where it has none.
pub open spec fn after_last_dot(s: Seq<char>) -> Seq<char>
    decreases s.len(),
{
    if s.len() == 0 {
        s
    } else if s.last() == '.' {
        seq![]
    } else {
        after_last_dot(s.drop_last()).push(s.last())
    }
}

/// The number of bytes of `c` in UTF-8.
pub open spec fn char_size(c: char) -> nat {
    let u = c as u32;
    if u <= 0x7f {
        1
    } else if u <= 0x7ff {
        2
    } else if u <= 0xffff {
        3
    } else {
        4
    }
}

/// The number of bytes of `s` in UTF-8.
pub open spec fn utf8_size(s: Seq<char>) -> nat
    decreases s.len(),
{
    if s.len() == 0 {
        0
    } else {
        utf8_size(s.drop_last()) + char_size(s.last())
    }
}

/// A prefix is no longer in UTF-8 than the whole.
pub proof fn lemma_utf8_size_prefix(s: Seq<char>, i: int)
    requires
        0 <= i <= s.len(),
    ensures
        utf8_size(s.take(i)) <= utf8_size(s),
    decreases s.len(),
{
    if i < s.len() {
        lemma_utf8_size_prefix(s.drop_last(), i);
        assert(s.drop_last().take(i) == s.take(i));
    } else {
        assert(s.take(i) == s);
    }
}

/// The extension of a cover: the text after the last `.` of its link when
/// it is at most 5 bytes long, `jpg` otherwise.
pub open spec fn cover_ext(pic: Seq<char>) -> Seq<char> {
    if utf8_size(after_last_dot(pic)) <= 5 {
        after_last_dot(pic)
    } else {
        "jpg"@
    }
}

fn char_size_exec(c: char) -> (r: usize)
    ensures
        r == char_size(c),
{
    let u = c as u32;
    if u <= 0x7f {
        1
    } else if u <= 0x7ff {
        2
    } else if u <= 0xffff {
        3
    } else {
        4
    }
}

/// [`cover_ext`] of a link.
pub fn cover_extension(pic: &str) -> (r: String)
    ensures
        r@ == cover_ext(pic@),
{
    let v = chars_of(pic);
    let len = v.len();
    let mut e = len;
    assert(v@.take(len as int) == v@);
    assert(v@.subrange(len as int, len as int) == Seq::<char>::empty());
    while e > 0 && v[e - 1] != '.'
        invariant
            e <= len == v@.len(),
            after_last_dot(v@) == after_last_dot(v@.take(e as int)) + v@.subrange(e as int, len as int),
        decreases e,
    {
        assert(v@.take(e as int).drop_last() == v@.take(e - 1));
        assert(v@.take(e as int).last() == v@[e - 1]);
        assert(v@.subrange(e - 1, len as int) == seq![v@[e - 1]] + v@.subrange(e as int, len as int));
        e = e - 1;
    }
    assert(after_last_dot(v@.take(e as int)) == Seq::<char>::empty()) by {
        if e > 0 {
            assert(v@.take(e as int).last() == v@[e - 1]);
        }
    }
    assert(v@.take(len as int) == v@);
    let ghost ext = v@.subrange(e as int, len as int);
    let mut n: usize = 0;
    let mut i: usize = e;
    while i < len && n <= 5
        invariant
            e <= i <= len == v@.len(),
            ext == v@.subrange(e as int, len as int),
            n == utf8_size(v@.subrange(e as int, i as int)),
            n <= 9,
        decreases len - i,
    {
        assert(v@.subrange(e as int, i + 1).drop_last() == v@.subrange(e as int, i as int));
        n = n + char_size_exec(v[i]);
        i = i + 1;
    }
    proof {
        assert(ext.take(i - e) == v@.subrange(e as int, i as int));
        lemma_utf8_size_prefix(ext, i - e);
        if i == len {
            assert(ext.take(i - e) == ext);
        }
    }
    if n <= 5 {
        string_of_range(&v, e, len)
    } else {
        proof {
            reveal_strlit("jpg");
        }
        owned("jpg")
    }
}

/// The file of a video's cover: `<title>_cover.<ext>`, the title cleaned
/// into a file name and the extension that of the link (see [`cover_ext`]).
pub fn cover_file_name(title: &str, pic: &str) -> (r: String)
    ensures
        r@ == clean_name(title@) + "_cover."@ + cover_ext(pic@),
{
    let mut r = sanitize_filename(title);
    push_str(&mut r, "_cover.");
    let ext = cover_extension(pic);
    push_str(&mut r, ext.as_str());
    r
}

/// The file of a part's subtitles in one language: `<stem>_<lang>.json`,
/// cleaned into a single file name. It holds no path separator and is
/// neither `.` nor `..`, so it names a file right inside the output
/// directory.
pub fn subtitle_file_name(stem: &str, lang: &str) -> (r: String)
    ensures
        r@ == clean_name(stem@ + "_"@ + lang@ + ".json"@),
        crate::path::name_chars_ok(r@),
        r@ != "."@ && r@ != ".."@,
{
    let mut raw = concat(stem, "_");
    push_str(&mut raw, lang);
    push_str(&mut raw, ".json");
    let r = sanitize_filename(raw.as_str());
    proof {
        crate::path::law_sanitized_name_is_clean(raw@);
        reveal_strlit(".");
        reveal_strlit("..");
        if r@ == "."@ || r@ == ".."@ {
            assert(r@.last() == '.');
        }
    }
    r
}

// ---------------------------------------------------------------------------
// Choosing the tracks
// ---------------------------------------------------------------------------

/// The full lower-case mapping of Unicode applied to `s`, as
/// `str::to_lowercase` computes it.
pub uninterp spec fn lowercase(s: Seq<char>) -> Seq<char>;

/// Only ASCII lowercase letters.
pub open spec fn ascii_lower_word(s: Seq<char>) -> bool {
    forall|i: int| 0 <= i < s.len() ==> 'a' <= #[trigger] s[i] && s[i] <= 'z'
}

/// `str::to_lowercase`. Claimed: the result is [`lowercase`] of the text, a
/// function of the text alone; and a text of ASCII lowercase letters comes
/// back unchanged (such a letter has no lowercase mapping, and
/// `char::to_lowercase` gives a character without one back as it is). The
/// rest of the mapping is left unsaid.
#[verifier::external_body]
pub(crate) fn to_lowercase(s: &str) -> (r: String)
    ensures
        r@ == lowercase(s@),
        ascii_lower_word(s@) ==> r@ == s@,
{
    s.to_lowercase()
}

/// What the choice of a video track reads of it.
#[derive(Debug, Clone)]
pub struct VideoCandidate {
    /// Quality code.
    pub quality: u32,
    /// Codec name.
    pub codec: String,
}

/// `ts[k]` is, among the tracks that `ok` accepts, one of highest quality,
/// and the first such.
pub open spec fn first_best_video(ts: Seq<VideoCandidate>, ok: spec_fn(VideoCandidate) -> bool, k: int) -> bool {
    &&& 0 <= k < ts.len()
    &&& ok(ts[k])
    &&& forall|j: int| 0 <= j < ts.len() && ok(ts[j]) ==> #[trigger] ts[j].quality <= ts[k].quality
    &&& forall|j: int| 0 <= j < k && ok(ts[j]) ==> #[trigger] ts[j].quality < ts[k].quality
}

/// The track's codec is `p`, ignoring case.
pub open spec fn codec_is(t: VideoCandidate, p: Seq<char>) -> bool {
    lowercase(t.codec@) == lowercase(p)
}

/// Picks a video track: of highest quality among those of the preferred
/// codec (ignoring case) when there is such a track, of highest quality
/// otherwise; the first of equals. `None` only when there is no track.
pub fn select_best_video(tracks: &Vec<VideoCandidate>, priority_codec: Option<&str>) -> (r: Option<usize>)
    ensures
        tracks@.len() == 0 <==> r is None,
        r matches Some(k) ==> match priority_codec {
            Some(p) => if exists|j: int| 0 <= j < tracks@.len() && #[trigger] codec_is(tracks@[j], p@) {
                first_best_video(tracks@, |t: VideoCandidate| codec_is(t, p@), k as int)
            } else {
                first_best_video(tracks@, |t: VideoCandidate| true, k as int)
            },
            None => first_best_video(tracks@, |t: VideoCandidate| true, k as int),
        },
{
    if tracks.len() == 0 {
        return None;
    }
    let ghost any = |t: VideoCandidate| true;
    let prio: Option<String> = match priority_codec {
        Some(p) => Some(to_lowercase(p)),
        None => None,
    };
    let ghost ok = |t: VideoCandidate| match priority_codec {
        Some(p) => codec_is(t, p@),
        None => false,
    };
    let mut best: usize = 0;
    let mut i: usize = 1;
    let mut best_match: Option<usize> = if match &prio {
        Some(lp) => to_lowercase(tracks[0].codec.as_str()) == *lp,
        None => false,
    } {
        Some(0)
    } else {
        None
    };
    while i < tracks.len()
        invariant
            1 <= i <= tracks@.len(),
            any == (|t: VideoCandidate| true),
            ok == (|t: VideoCandidate| match priority_codec {
                Some(p) => codec_is(t, p@),
                None => false,
            }),
            prio matches Some(lp) ==> priority_codec matches Some(p) && lp@ == lowercase(p@),
            prio is None ==> priority_codec is None,
            first_best_video(tracks@.take(i as int), any, best as int),
            match best_match {
                Some(m) => first_best_video(tracks@.take(i as int), ok, m as int),
                None => forall|j: int| 0 <= j < i ==> !ok(#[trigger] tracks@[j]),
            },
        decreases tracks.len() - i,
    {
        if tracks[i].quality > tracks[best].quality {
            best = i;
        }
        let matches = match &prio {
            Some(lp) => to_lowercase(tracks[i].codec.as_str()) == *lp,
            None => false,
        };
        if matches {
            match best_match {
                Some(m) => {
                    if tracks[i].quality > tracks[m].quality {
                        best_match = Some(i);
                    }
                },
                None => {
                    best_match = Some(i);
                },
            }
        }
        i = i + 1;
    }
    assert(tracks@.take(tracks@.len() as int) == tracks@);
    match best_match {
        Some(m) => Some(m),
        None => Some(best),
    }
}

/// How an audio track ranks: Hi-Res first, then Dolby Atmos, then quality
/// (the quality codes being below 2^32, this orders the three keys one after
/// the other).
pub open spec fn audio_rank(t: AudioTrack) -> int {
    (if t.is_hi_res {
        0x2_0000_0000int
    } else {
        0
    }) + (if t.is_dolby_atmos {
        0x1_0000_0000int
    } else {
        0
    }) + t.quality as int
}

/// `ts[k]` is of highest rank, and the first such.
pub open spec fn first_best_audio(ts: Seq<AudioTrack>, k: int) -> bool {
    &&& 0 <= k < ts.len()
    &&& forall|j: int| 0 <= j < ts.len() ==> #[trigger] audio_rank(ts[j]) <= audio_rank(ts[k])
    &&& forall|j: int| 0 <= j < k ==> #[trigger] audio_rank(ts[j]) < audio_rank(ts[k])
}

fn audio_above(a: &AudioTrack, b: &AudioTrack) -> (r: bool)
    ensures
        r == (audio_rank(*a) > audio_rank(*b)),
{
    if a.is_hi_res != b.is_hi_res {
        a.is_hi_res
    } else if a.is_dolby_atmos != b.is_dolby_atmos {
        a.is_dolby_atmos
    } else {
        a.quality > b.quality
    }
}

/// Picks an audio track: Hi-Res first, then Dolby Atmos, then the highest
/// quality; the first of equals. `None` only when there is no track.
pub fn select_best_audio(tracks: &Vec<AudioTrack>) -> (r: Option<usize>)
    ensures
        tracks@.len() == 0 <==> r is None,
        r matches Some(k) ==> first_best_audio(tracks@, k as int),
{
    if tracks.len() == 0 {
        return None;
    }
    let mut best: usize = 0;
    let mut i: usize = 1;
    while i < tracks.len()
        invariant
            1 <= i <= tracks@.len(),
            first_best_audio(tracks@.take(i as int), best as int),
        decreases tracks.len() - i,
    {
        if audio_above(&tracks[i], &tracks[best]) {
            best = i;
        }
        i = i + 1;
    }
    assert(tracks@.take(tracks@.len() as int) == tracks@);
    Some(best)
}


// ---------------------------------------------------------------------------
// What to ask of the downloader
// ---------------------------------------------------------------------------

/// Which stream a transfer fetches.
#[derive(Debug, Clone, Copy, PartialEq, Eq, Structural)]
pub enum StreamKind {
    /// The video stream.
    Video,
    /// The audio stream.
    Audio,
}

/// A transfer to hand to the downloader (its destination and headers are
/// the caller's).
#[derive(Debug, Clone)]
pub struct TransferPlan {
    /// The link to fetch.
    pub url: String,
    /// `video-<id>` or `audio-<id>`.
    pub task_id: String,
    /// How many connections.
    pub num_threads: usize,
    /// The size of a block, in bytes.
    pub block_size: u64,
}

/// The size of a block: 1 MiB.
pub const BLOCK_SIZE: u64 = 1048576;

/// The number of connections of a transfer: for video the configured
/// number, 8 by default; for audio 4.
pub open spec fn transfer_threads(kind: StreamKind, num_workers: Option<u32>) -> usize {
    match kind {
        StreamKind::Video => match num_workers {
            Some(n) => n as usize,
            None => 8,
        },
        StreamKind::Audio => 4,
    }
}

/// The transfer of a track: its first link, when it has one and that link
/// may be fetched ([`crate::safe_url::safe_url`]); `None` otherwise.
pub fn plan_transfer(kind: StreamKind, track_id: &str, urls: &Vec<String>, num_workers: Option<u32>) -> (r: Option<TransferPlan>)
    ensures
        (urls@.len() == 0 || !crate::safe_url::safe_url(urls@[0]@)) <==> r is None,
        r matches Some(p) ==> {
            &&& p.url@ == urls@[0]@
            &&& p.task_id@ == match kind {
                StreamKind::Video => "video-"@,
                StreamKind::Audio => "audio-"@,
            } + track_id@
            &&& p.num_threads == transfer_threads(kind, num_workers)
            &&& p.block_size == BLOCK_SIZE
        },
{
    if urls.len() == 0 {
        return None;
    }
    if !crate::safe_url::is_safe_download_url(urls[0].as_str()) {
        return None;
    }
    let task_id = match kind {
        StreamKind::Video => concat("video-", track_id),
        StreamKind::Audio => concat("audio-", track_id),
    };
    let num_threads: usize = match kind {
        StreamKind::Video => match num_workers {
            Some(n) => n as usize,
            None => 8,
        },
        StreamKind::Audio => 4,
    };
    Some(TransferPlan { url: urls[0].clone(), task_id, num_threads, block_size: BLOCK_SIZE })
}

/// The percentage shown for `downloaded` of `total` bytes: rounded down, 0
/// while the total is unknown (0).
pub fn progress_percent(downloaded: u64, total: u64) -> (r: u64)
    requires
        total > 0 ==> downloaded * 100 <= u64::MAX,
    ensures
        total == 0 ==> r == 0,
        total > 0 ==> r as int == (downloaded * 100) / (total as int),
{
    if total > 0 {
        downloaded * 100 / total
    } else {
        0
    }
}


/// The percentage shown never passes 100 while the bytes downloaded do not
/// pass the total.
pub proof fn law_percent_at_most_100(downloaded: u64, total: u64)
    requires
        0 < total,
        downloaded <= total,
    ensures
        (downloaded * 100) / (total as int) <= 100,
{
    assert((downloaded * 100) / (total as int) <= 100) by (nonlinear_arith)
        requires
            0 < total,
            downloaded <= total,
    ;
}

} // verus!
