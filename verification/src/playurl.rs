//! Play-url replies: the audio and video streams a video offers, turned into
//! tracks, and the choice of the best ones.

use vstd::prelude::*;
use crate::model::AudioTrack;
use crate::safe_url::{is_safe_download_url, safe_url};
use crate::text::{
    chars_of, concat, dec, dec_string, has_at, owned, push_dec, push_str, seq_has_at, trim,
    trimmed_string,
};

verus! {

/// An audio stream of a DASH reply.
#[derive(Debug, Clone, Default)]
pub struct DashAudio {
    /// Quality code.
    pub id: u32,
    /// Main link.
    pub base_url: String,
    /// Backup links.
    pub backup_url: Option<Vec<String>>,
    /// Bits per second.
    pub bandwidth: u64,
    /// MIME type.
    pub mime_type: String,
    /// Codec string.
    pub codecs: String,
    /// Codec id.
    pub codecid: u32,
}

/// The Dolby audio of a DASH reply.
#[derive(Debug, Clone, Default)]
pub struct Dolby {
    /// The Dolby Atmos streams.
    pub audio: Option<Vec<DashAudio>>,
}

/// The FLAC audio of a DASH reply.
#[derive(Debug, Clone, Default)]
pub struct Flac {
    /// The Hi-Res stream.
    pub audio: Option<DashAudio>,
}

/// A whole-file (non-DASH) stream.
#[derive(Debug, Clone, Default)]
pub struct Durl {
    /// Link.
    pub url: String,
    /// Size in bytes.
    pub size: u64,
    /// Length in milliseconds.
    pub length: u64,
}

/// Each quality description, trimmed.
pub fn accept_description_to_quality_desc(accept: &[String]) -> (r: Vec<String>)
    ensures
        r@.len() == accept@.len(),
        forall|i: int| 0 <= i < accept@.len() ==> #[trigger] r@[i]@ == trim(accept@[i]@),
{
    let mut r: Vec<String> = Vec::new();
    let mut i: usize = 0;
    while i < accept.len()
        invariant
            i <= accept@.len(),
            r@.len() == i,
            forall|j: int| 0 <= j < i ==> #[trigger] r@[j]@ == trim(accept@[j]@),
        decreases accept.len() - i,
    {
        let v = chars_of(accept[i].as_str());
        let t = trimmed_string(&v, 0, v.len());
        assert(v@.subrange(0, v@.len() as int) == v@);
        r.push(t);
        i = i + 1;
    }
    r
}

/// The name of a video codec id: 7 `avc`, 12 `hevc`, 13 `av1`, else
/// `unknown`.
pub open spec fn video_codec_name(id: u32) -> Seq<char> {
    if id == 7 {
        "avc"@
    } else if id == 12 {
        "hevc"@
    } else if id == 13 {
        "av1"@
    } else {
        "unknown"@
    }
}

/// The name of an audio codec id: 0 `eac3`, 1 `aac`, 2 `flac`, 3 `mp3`, else
/// `unknown`.
pub open spec fn audio_codec_name(id: u32) -> Seq<char> {
    if id == 0 {
        "eac3"@
    } else if id == 1 {
        "aac"@
    } else if id == 2 {
        "flac"@
    } else if id == 3 {
        "mp3"@
    } else {
        "unknown"@
    }
}

/// The name of a video codec id (see [`video_codec_name`]).
pub fn map_video_codec(codecid: u32) -> (s: String)
    ensures
        s@ == video_codec_name(codecid),
{
    if codecid == 7 {
        owned("avc")
    } else if codecid == 12 {
        owned("hevc")
    } else if codecid == 13 {
        owned("av1")
    } else {
        owned("unknown")
    }
}

/// The name of an audio codec id (see [`audio_codec_name`]).
pub fn map_audio_codec(codecid: u32) -> (s: String)
    ensures
        s@ == audio_codec_name(codecid),
{
    if codecid == 0 {
        owned("eac3")
    } else if codecid == 1 {
        owned("aac")
    } else if codecid == 2 {
        owned("flac")
    } else if codecid == 3 {
        owned("mp3")
    } else {
        owned("unknown")
    }
}

/// Whether `needle` occurs in `hay`.
pub open spec fn contains_text(hay: Seq<char>, needle: Seq<char>) -> bool {
    exists|i: int| 0 <= i <= hay.len() && seq_has_at(hay, i, needle)
}

/// Whether `needle` occurs in `hay`.
pub fn contains_str(hay: &Vec<char>, needle: &str) -> (r: bool)
    ensures
        r == contains_text(hay@, needle@),
{
    let n = hay.len();
    let mut i: usize = 0;
    loop
        invariant
            i <= n,
            n == hay@.len(),
            forall|j: int| 0 <= j < i ==> !seq_has_at(hay@, j, needle@),
        decreases n - i,
    {
        if has_at(hay, i, needle) {
            return true;
        }
        if i == n {
            return false;
        }
        i = i + 1;
    }
}

/// Whether a quality description names a quality code: it holds the code's
/// digits, or the resolution of a known code (16 `360`, 32 `480`, 64 `720`,
/// 80 `1080`, 120 `4K`, 127 `8K`).
pub open spec fn desc_names_quality(desc: Seq<char>, quality: u32) -> bool {
    contains_text(desc, dec(quality as nat)) || (quality == 16 && contains_text(desc, "360"@)) || (
    quality == 32 && contains_text(desc, "480"@)) || (quality == 64 && contains_text(desc, "720"@))
        || (quality == 80 && contains_text(desc, "1080"@)) || (quality == 120 && contains_text(
        desc,
        "4K"@,
    )) || (quality == 127 && contains_text(desc, "8K"@))
}

/// Whether a quality description names a quality code (see
/// [`desc_names_quality`]).
pub fn desc_contains_quality(desc: &str, quality: u32) -> (r: bool)
    ensures
        r == desc_names_quality(desc@, quality),
{
    let v = chars_of(desc);
    let q = dec_string(quality as u64);
    if contains_str(&v, q.as_str()) {
        return true;
    }
    if quality == 16 {
        contains_str(&v, "360")
    } else if quality == 32 {
        contains_str(&v, "480")
    } else if quality == 64 {
        contains_str(&v, "720")
    } else if quality == 80 {
        contains_str(&v, "1080")
    } else if quality == 120 {
        contains_str(&v, "4K")
    } else if quality == 127 {
        contains_str(&v, "8K")
    } else {
        false
    }
}

/// The backup links as text.
pub open spec fn backup_view(b: Option<Vec<String>>) -> Seq<Seq<char>> {
    match b {
        Some(v) => v@.map_values(|u: String| u@),
        None => seq![],
    }
}

/// The safe links of a list, in order.
pub open spec fn keep_safe(s: Seq<Seq<char>>) -> Seq<Seq<char>>
    decreases s.len(),
{
    if s.len() == 0 {
        seq![]
    } else if safe_url(s.last()) {
        keep_safe(s.drop_last()).push(s.last())
    } else {
        keep_safe(s.drop_last())
    }
}

proof fn lemma_keep_safe_only_safe(s: Seq<Seq<char>>)
    ensures
        forall|i: int| 0 <= i < keep_safe(s).len() ==> safe_url(#[trigger] keep_safe(s)[i]),
    decreases s.len(),
{
    if s.len() > 0 {
        lemma_keep_safe_only_safe(s.drop_last());
        let rest = keep_safe(s.drop_last());
        if safe_url(s.last()) {
            assert forall|i: int| 0 <= i < keep_safe(s).len() implies safe_url(
                #[trigger] keep_safe(s)[i],
            ) by {
                if i < rest.len() {
                    assert(keep_safe(s)[i] == rest[i]);
                } else {
                    assert(keep_safe(s)[i] == s.last());
                }
            }
        }
    }
}

/// The safe links among the main link and the backup links, in that order.
pub open spec fn safe_links(base: Seq<char>, backup: Seq<Seq<char>>) -> Seq<Seq<char>> {
    keep_safe(seq![base] + backup)
}

/// The download links of a stream: those of the main and backup links that
/// are safe (see [`crate::safe_url::is_safe_download_url`]), in order.
pub fn collect_urls(base_url: String, backup_url: Option<Vec<String>>) -> (r: Vec<String>)
    ensures
        r@.map_values(|u: String| u@) == safe_links(
            base_url@,
            match backup_url {
                Some(b) => b@.map_values(|u: String| u@),
                None => seq![],
            },
        ),
{
    let ghost all = seq![base_url@] + backup_view(backup_url);
    let mut urls: Vec<String> = Vec::new();
    proof {
        assert(all.take(1).drop_last() =~= Seq::<Seq<char>>::empty());
        assert(all.take(1).last() == base_url@);
    }
    if is_safe_download_url(base_url.as_str()) {
        urls.push(base_url);
    }
    assert(keep_safe(Seq::<Seq<char>>::empty()) == Seq::<Seq<char>>::empty());
    assert(urls@.map_values(|u: String| u@) =~= keep_safe(all.take(1)));
    match backup_url {
        None => {
            assert(all.take(1) =~= all);
        },
        Some(backup) => {
            let mut i: usize = 0;
            while i < backup.len()
                invariant
                    i <= backup@.len(),
                    all == seq![all[0]] + backup@.map_values(|u: String| u@),
                    urls@.map_values(|u: String| u@) == keep_safe(all.take(i + 1)),
                decreases backup.len() - i,
            {
                let u = &backup[i];
                let ghost before = urls@.map_values(|u: String| u@);
                proof {
                    let t = all.take(i + 2);
                    assert(t.drop_last() == all.take(i + 1));
                    assert(t.last() == u@);
                }
                if is_safe_download_url(u.as_str()) {
                    urls.push(u.clone());
                    assert(urls@.map_values(|u: String| u@) =~= before.push(u@));
                }
                i = i + 1;
            }
            assert(all.take(backup@.len() + 1int) =~= all);
        },
    }
    urls
}

/// `"audio-<id>-<codecid>"`.
pub open spec fn audio_track_id(id: u32, codecid: u32) -> Seq<char> {
    "audio-"@ + dec(id as nat) + "-"@ + dec(codecid as nat)
}

/// The quality description of an audio stream: `Hi-Res`, `Dolby Atmos`, or
/// its bit rate in kbps.
pub open spec fn audio_quality_desc(bandwidth: u64, is_dolby_atmos: bool, is_hi_res: bool) -> Seq<char> {
    if is_hi_res {
        "Hi-Res"@
    } else if is_dolby_atmos {
        "Dolby Atmos"@
    } else {
        dec((bandwidth / 1000) as nat) + "kbps"@
    }
}

/// The audio track of a stream.
pub fn into_audio_track(audio: DashAudio, is_dolby_atmos: bool, is_hi_res: bool) -> (t: AudioTrack)
    ensures
        t.id@ == audio_track_id(audio.id, audio.codecid),
        t.quality == audio.id,
        t.quality_desc@ == audio_quality_desc(audio.bandwidth, is_dolby_atmos, is_hi_res),
        t.codec@ == audio_codec_name(audio.codecid),
        t.bandwidth == audio.bandwidth,
        t.is_dolby_atmos == is_dolby_atmos,
        t.is_hi_res == is_hi_res,
        t.urls@.map_values(|u: String| u@) == safe_links(
            audio.base_url@,
            match audio.backup_url {
                Some(b) => b@.map_values(|u: String| u@),
                None => seq![],
            },
        ),
        t.size == 0,
{
    let quality_desc = if is_hi_res {
        owned("Hi-Res")
    } else if is_dolby_atmos {
        owned("Dolby Atmos")
    } else {
        let mut s = dec_string(audio.bandwidth / 1000);
        push_str(&mut s, "kbps");
        s
    };
    let mut id = owned("audio-");
    push_dec(&mut id, audio.id as u64);
    push_str(&mut id, "-");
    push_dec(&mut id, audio.codecid as u64);
    AudioTrack {
        id,
        quality: audio.id,
        quality_desc,
        codec: map_audio_codec(audio.codecid),
        bandwidth: audio.bandwidth,
        is_dolby_atmos,
        is_hi_res,
        urls: collect_urls(audio.base_url, audio.backup_url),
        size: 0,
    }
}

/// The number of plain streams.
pub open spec fn plain_count(audio: Option<Vec<DashAudio>>) -> int {
    match audio {
        Some(a) => a@.len() as int,
        None => 0,
    }
}

/// The number of Dolby Atmos streams.
pub open spec fn dolby_count(dolby: Option<Dolby>) -> int {
    match dolby {
        Some(d) => match d.audio {
            Some(a) => a@.len() as int,
            None => 0,
        },
        None => 0,
    }
}

/// Whether there is a FLAC stream.
pub open spec fn has_flac(flac: Option<Flac>) -> bool {
    match flac {
        Some(f) => f.audio is Some,
        None => false,
    }
}

fn push_tracks(tracks: &mut Vec<AudioTrack>, streams: Vec<DashAudio>, dolby: bool)
    ensures
        final(tracks)@.len() == old(tracks)@.len() + streams@.len(),
        forall|i: int| 0 <= i < old(tracks)@.len() ==> #[trigger] final(tracks)@[i] == old(tracks)@[i],
        forall|i: int|
            0 <= i < streams@.len() ==> (#[trigger] final(tracks)@[old(tracks)@.len() + i]).quality
                == streams@[i].id && final(tracks)@[old(tracks)@.len() + i].is_dolby_atmos == dolby
                && !final(tracks)@[old(tracks)@.len() + i].is_hi_res,
{
    let n = streams.len();
    let mut streams = streams;
    let ghost orig = streams@;
    let mut rev: Vec<DashAudio> = Vec::new();
    while streams.len() > 0
        invariant
            rev@.len() + streams@.len() == orig.len(),
            orig.len() == n,
            forall|i: int| 0 <= i < streams@.len() ==> #[trigger] streams@[i] == orig[i],
            forall|i: int| 0 <= i < rev@.len() ==> #[trigger] rev@[i] == orig[orig.len() - 1 - i],
        decreases streams.len(),
    {
        let ghost last = streams@.len() - 1;
        let s = streams.pop().unwrap();
        assert(s == orig[last]);
        rev.push(s);
    }
    let ghost start = tracks@;
    let mut k: usize = 0;
    while rev.len() > 0
        invariant
            k + rev@.len() == orig.len(),
            orig.len() == n,
            k <= n,
            tracks@.len() == start.len() + k,
            forall|i: int| 0 <= i < start.len() ==> #[trigger] tracks@[i] == start[i],
            forall|i: int| 0 <= i < rev@.len() ==> #[trigger] rev@[i] == orig[orig.len() - 1 - i],
            forall|i: int|
                0 <= i < k ==> (#[trigger] tracks@[start.len() + i]).quality == orig[i].id
                    && tracks@[start.len() + i].is_dolby_atmos == dolby && !tracks@[start.len()
                    + i].is_hi_res,
        decreases rev.len(),
    {
        let ghost last = rev@.len() - 1;
        assert(rev@[last] == orig[k as int]);
        let s = rev.pop().unwrap();
        let t = into_audio_track(s, dolby, false);
        let ghost before = tracks@;
        tracks.push(t);
        proof {
            assert forall|i: int| 0 <= i < start.len() implies #[trigger] tracks@[i] == start[i] by {
                assert(tracks@[i] == before[i]);
            }
            assert forall|i: int| 0 <= i < k + 1 implies (#[trigger] tracks@[start.len() + i]).quality
                == orig[i].id && tracks@[start.len() + i].is_dolby_atmos == dolby
                && !tracks@[start.len() + i].is_hi_res by {
                if i < k {
                    assert(tracks@[start.len() + i] == before[start.len() + i]);
                }
            }
        }
        k = k + 1;
    }
}

/// The audio tracks of a DASH reply: the plain streams, then the Dolby
/// Atmos streams, then the FLAC stream, each made by
/// [`into_audio_track`].
pub fn audio_tracks(audio: Option<Vec<DashAudio>>, dolby: Option<Dolby>, flac: Option<Flac>) -> (r: Vec<
    AudioTrack,
>)
    ensures
        r@.len() == plain_count(audio) + dolby_count(dolby) + if has_flac(flac) {
            1int
        } else {
            0
        },
        forall|i: int|
            0 <= i < plain_count(audio) ==> !(#[trigger] r@[i]).is_dolby_atmos && !r@[i].is_hi_res
                && r@[i].quality == audio->0@[i].id,
        forall|i: int|
            plain_count(audio) <= i < plain_count(audio) + dolby_count(dolby) ==> (
            #[trigger] r@[i]).is_dolby_atmos && !r@[i].is_hi_res && r@[i].quality == dolby->0.audio->0@[i
                - plain_count(audio)].id,
        has_flac(flac) ==> r@[r@.len() - 1].is_hi_res && !r@[r@.len() - 1].is_dolby_atmos
            && r@[r@.len() - 1].quality == flac->0.audio->0.id,
{
    let ghost a0 = audio;
    let ghost d0 = dolby;
    let mut tracks: Vec<AudioTrack> = Vec::new();
    match audio {
        Some(a) => push_tracks(&mut tracks, a, false),
        None => {},
    }
    let ghost t1 = tracks@;
    assert(t1.len() == plain_count(a0));
    assert forall|i: int| 0 <= i < plain_count(a0) implies !(#[trigger] t1[i]).is_dolby_atmos
        && !t1[i].is_hi_res && t1[i].quality == a0->0@[i].id by {
        assert(t1[0 + i] == t1[i]);
    }
    match dolby {
        Some(d) => match d.audio {
            Some(a) => push_tracks(&mut tracks, a, true),
            None => {},
        },
        None => {},
    }
    let ghost t2 = tracks@;
    assert(t2.len() == plain_count(a0) + dolby_count(d0));
    assert forall|i: int| 0 <= i < t1.len() implies #[trigger] t2[i] == t1[i] by {}
    assert forall|i: int|
        plain_count(a0) <= i < plain_count(a0) + dolby_count(d0) implies (#[trigger] t2[i]).is_dolby_atmos
        && !t2[i].is_hi_res && t2[i].quality == d0->0.audio->0@[i - plain_count(a0)].id by {
        assert(t2[t1.len() + (i - plain_count(a0))] == t2[i]);
    }
    match flac {
        Some(f) => match f.audio {
            Some(a) => tracks.push(into_audio_track(a, false, true)),
            None => {},
        },
        None => {},
    }
    assert forall|i: int| 0 <= i < t2.len() implies #[trigger] tracks@[i] == t2[i] by {}
    tracks
}

/// A video stream of a DASH reply, without its frame rate.
#[derive(Debug, Clone, Default)]
pub struct DashVideoFields {
    /// Quality code.
    pub id: u32,
    /// Main link.
    pub base_url: String,
    /// Backup links.
    pub backup_url: Option<Vec<String>>,
    /// Bits per second.
    pub bandwidth: u64,
    /// Codec string.
    pub codecs: String,
    /// Width.
    pub width: u32,
    /// Height.
    pub height: u32,
    /// Codec id.
    pub codecid: u32,
}

/// What a video track holds besides its frame rate.
#[derive(Debug, Clone)]
pub struct VideoTrackFields {
    /// `video-<id>-<codecid>`.
    pub id: String,
    /// Quality code.
    pub quality: u32,
    /// Quality for people.
    pub quality_desc: String,
    /// Codec name.
    pub codec: String,
    /// `WIDTHxHEIGHT`.
    pub resolution: String,
    /// Bits per second.
    pub bandwidth: u64,
    /// HDR.
    pub is_hdr: bool,
    /// Dolby Vision.
    pub is_dolby_vision: bool,
    /// Download links, best first.
    pub urls: Vec<String>,
}

/// The first description that names the quality (see
/// [`desc_names_quality`]), if any.
pub open spec fn first_naming(descs: Seq<Seq<char>>, quality: u32) -> Option<Seq<char>>
    decreases descs.len(),
{
    if descs.len() == 0 {
        None
    } else if desc_names_quality(descs[0], quality) {
        Some(descs[0])
    } else {
        first_naming(descs.drop_first(), quality)
    }
}

/// The quality description of a video stream: the first of `descs` that
/// names its quality, else the reply's own description, else `Q<quality>`.
pub open spec fn video_quality_desc(descs: Seq<Seq<char>>, fallback: Option<Seq<char>>, quality: u32) -> Seq<char> {
    match first_naming(descs, quality) {
        Some(d) => d,
        None => match fallback {
            Some(f) => f,
            None => "Q"@ + dec(quality as nat),
        },
    }
}

/// The quality description of a video stream (see [`video_quality_desc`]).
pub fn pick_quality_desc(descs: &Vec<String>, fallback: &Option<String>, quality: u32) -> (r: String)
    ensures
        r@ == video_quality_desc(
            descs@.map_values(|d: String| d@),
            match fallback {
                Some(f) => Some(f@),
                None => None,
            },
            quality,
        ),
{
    let ghost ds = descs@.map_values(|d: String| d@);
    let mut i: usize = 0;
    assert(ds.skip(0) == ds);
    while i < descs.len()
        invariant
            i <= descs@.len(),
            ds == descs@.map_values(|d: String| d@),
            first_naming(ds, quality) == first_naming(ds.skip(i as int), quality),
        decreases descs.len() - i,
    {
        assert(ds.skip(i as int)[0] == descs@[i as int]@);
        assert(ds.skip(i as int).drop_first() == ds.skip(i + 1));
        if desc_contains_quality(descs[i].as_str(), quality) {
            return descs[i].clone();
        }
        i = i + 1;
    }
    match fallback {
        Some(f) => f.clone(),
        None => {
            let mut r = owned("Q");
            push_dec(&mut r, quality as u64);
            r
        },
    }
}

/// `c` in ASCII lower case.
pub open spec fn lower_ascii(c: char) -> char {
    if 'A' <= c && c <= 'Z' {
        ((c as u32) + 32) as char
    } else {
        c
    }
}

/// Whether a codec string marks HDR: it holds `hdr` in any ASCII case.
pub open spec fn codecs_hdr(codecs: Seq<char>) -> bool {
    contains_text(codecs.map_values(|c: char| lower_ascii(c)), "hdr"@)
}

/// Whether a codec string marks Dolby Vision: it starts with `dvh1` or
/// `dvhe`.
pub open spec fn codecs_dolby_vision(codecs: Seq<char>) -> bool {
    seq_has_at(codecs, 0, "dvh1"@) || seq_has_at(codecs, 0, "dvhe"@)
}

fn lowered(s: &str) -> (r: Vec<char>)
    ensures
        r@ == s@.map_values(|c: char| lower_ascii(c)),
{
    let v = chars_of(s);
    let mut r: Vec<char> = Vec::new();
    let mut i: usize = 0;
    while i < v.len()
        invariant
            i <= v@.len(),
            v@ == s@,
            r@ == v@.take(i as int).map_values(|c: char| lower_ascii(c)),
        decreases v.len() - i,
    {
        let c = v[i];
        let l = if 'A' <= c && c <= 'Z' {
            (((c as u32) + 32) as u8) as char
        } else {
            c
        };
        r.push(l);
        proof {
            assert(v@.take(i + 1).map_values(|c: char| lower_ascii(c)) =~= v@.take(i as int).map_values(
                |c: char| lower_ascii(c),
            ).push(lower_ascii(v@[i as int])));
        }
        i = i + 1;
    }
    assert(v@.take(v@.len() as int) == v@);
    r
}

/// The fields of the video track of a DASH video stream (all but its frame
/// rate): id `video-<id>-<codecid>`, the description picked by
/// [`pick_quality_desc`], the codec name, `WIDTHxHEIGHT`, HDR and Dolby
/// Vision read from the codec string, and the links that may be fetched.
pub fn video_track_fields(v: DashVideoFields, descs: &Vec<String>, fallback: &Option<String>) -> (r: VideoTrackFields)
    ensures
        r.id@ == "video-"@ + dec(v.id as nat) + "-"@ + dec(v.codecid as nat),
        r.quality == v.id,
        r.quality_desc@ == video_quality_desc(
            descs@.map_values(|d: String| d@),
            match fallback {
                Some(f) => Some(f@),
                None => None,
            },
            v.id,
        ),
        r.codec@ == video_codec_name(v.codecid),
        r.resolution@ == dec(v.width as nat) + "x"@ + dec(v.height as nat),
        r.bandwidth == v.bandwidth,
        r.is_hdr == codecs_hdr(v.codecs@),
        r.is_dolby_vision == codecs_dolby_vision(v.codecs@),
        r.urls@.map_values(|u: String| u@) == safe_links(v.base_url@, backup_view(v.backup_url)),
{
    let mut id = owned("video-");
    push_dec(&mut id, v.id as u64);
    push_str(&mut id, "-");
    push_dec(&mut id, v.codecid as u64);
    let mut resolution = dec_string(v.width as u64);
    push_str(&mut resolution, "x");
    push_dec(&mut resolution, v.height as u64);
    let low = lowered(v.codecs.as_str());
    let cv = chars_of(v.codecs.as_str());
    let is_hdr = contains_str(&low, "hdr");
    let is_dolby_vision = has_at(&cv, 0, "dvh1") || has_at(&cv, 0, "dvhe");
    VideoTrackFields {
        id,
        quality: v.id,
        quality_desc: pick_quality_desc(descs, fallback, v.id),
        codec: map_video_codec(v.codecid),
        resolution,
        bandwidth: v.bandwidth,
        is_hdr,
        is_dolby_vision,
        urls: collect_urls(v.base_url, v.backup_url),
    }
}

/// Every download link that a track is given may be fetched: each link
/// that [`collect_urls`] keeps passes [`crate::safe_url::safe_url`].
pub proof fn law_track_links_are_safe(base: Seq<char>, backup: Seq<Seq<char>>)
    ensures
        forall|i: int|
            0 <= i < safe_links(base, backup).len() ==> safe_url(#[trigger] safe_links(base, backup)[i]),
{
    lemma_keep_safe_only_safe(seq![base] + backup);
}

/// A codec string marks Dolby Vision exactly when it starts with `d`, `v`,
/// `h`, then `1` or `e` (the `dvh1` and `dvhe` sample entries).
pub proof fn law_dolby_vision_codecs(codecs: Seq<char>)
    ensures
        codecs_dolby_vision(codecs) <==> codecs.len() >= 4 && codecs[0] == 'd' && codecs[1] == 'v'
            && codecs[2] == 'h' && (codecs[3] == '1' || codecs[3] == 'e'),
{
    reveal_strlit("dvh1");
    reveal_strlit("dvhe");
    if codecs.len() >= 4 {
        let p = codecs.subrange(0, 4);
        assert(p[0] == codecs[0] && p[1] == codecs[1] && p[2] == codecs[2] && p[3] == codecs[3]);
        if codecs[0] == 'd' && codecs[1] == 'v' && codecs[2] == 'h' && codecs[3] == '1' {
            assert(p =~= "dvh1"@);
        }
        if codecs[0] == 'd' && codecs[1] == 'v' && codecs[2] == 'h' && codecs[3] == 'e' {
            assert(p =~= "dvhe"@);
        }
    }
}

/// A codec string marks HDR exactly when three consecutive characters spell
/// `hdr` in any mix of ASCII upper and lower case.
pub proof fn law_hdr_codecs(codecs: Seq<char>)
    ensures
        codecs_hdr(codecs) <==> exists|i: int|
            0 <= i && i + 3 <= codecs.len() && (#[trigger] codecs[i] == 'h' || codecs[i] == 'H') && (
            codecs[i + 1] == 'd' || codecs[i + 1] == 'D') && (codecs[i + 2] == 'r' || codecs[i + 2]
                == 'R'),
{
    reveal_strlit("hdr");
    let low = codecs.map_values(|c: char| lower_ascii(c));
    assert forall|c: char| #[trigger] lower_ascii(c) == 'h' <==> (c == 'h' || c == 'H') by {
        if 'A' <= c && c <= 'Z' {
            assert(((c as u32) + 32) as char == 'h' <==> c == 'H');
        }
    }
    assert forall|c: char| #[trigger] lower_ascii(c) == 'd' <==> (c == 'd' || c == 'D') by {
        if 'A' <= c && c <= 'Z' {
            assert(((c as u32) + 32) as char == 'd' <==> c == 'D');
        }
    }
    assert forall|c: char| #[trigger] lower_ascii(c) == 'r' <==> (c == 'r' || c == 'R') by {
        if 'A' <= c && c <= 'Z' {
            assert(((c as u32) + 32) as char == 'r' <==> c == 'R');
        }
    }
    if codecs_hdr(codecs) {
        let i = choose|i: int| 0 <= i <= low.len() && seq_has_at(low, i, "hdr"@);
        assert(low.subrange(i, i + 3)[0] == low[i]);
        assert(low.subrange(i, i + 3)[1] == low[i + 1]);
        assert(low.subrange(i, i + 3)[2] == low[i + 2]);
        assert(lower_ascii(codecs[i]) == 'h');
        assert(lower_ascii(codecs[i + 1]) == 'd');
        assert(lower_ascii(codecs[i + 2]) == 'r');
    }
    if exists|i: int|
        0 <= i && i + 3 <= codecs.len() && (#[trigger] codecs[i] == 'h' || codecs[i] == 'H') && (
        codecs[i + 1] == 'd' || codecs[i + 1] == 'D') && (codecs[i + 2] == 'r' || codecs[i + 2] == 'R') {
        let i = choose|i: int|
            0 <= i && i + 3 <= codecs.len() && (#[trigger] codecs[i] == 'h' || codecs[i] == 'H') && (
            codecs[i + 1] == 'd' || codecs[i + 1] == 'D') && (codecs[i + 2] == 'r' || codecs[i + 2]
                == 'R');
        assert(lower_ascii(codecs[i]) == 'h');
        assert(lower_ascii(codecs[i + 1]) == 'd');
        assert(lower_ascii(codecs[i + 2]) == 'r');
        assert(low.subrange(i, i + 3) =~= "hdr"@);
        assert(seq_has_at(low, i, "hdr"@));
    }
}

} // verus!
