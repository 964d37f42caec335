//! The command line's settings: the configuration file and the download
//! command's arguments, and what they decide.

use vstd::prelude::*;
use crate::manager::DownloadMode;
use crate::text::{chars_of, split_on, split_ranges, string_of_range, trim, trim_bounds};

verus! {

/// The settings of the configuration file.
#[derive(Debug, Clone)]
pub struct CliConfig {
    /// Default quality code.
    pub quality: Option<u32>,
    /// Number of connections.
    pub num_workers: Option<u32>,
    /// Address of the aria2c server.
    pub aria2c_rpc: Option<String>,
    /// Default output directory.
    pub download_dir: Option<String>,
    /// File name pattern.
    pub file_pattern: Option<String>,
    /// Fetch danmaku by default.
    pub danmaku: bool,
    /// Fetch subtitles by default.
    pub subtitle: bool,
    /// Fetch covers by default.
    pub cover: bool,
    /// Choose tracks interactively.
    pub interactive: bool,
}

/// The settings in force when no file gives any: nothing set, nothing on.
pub open spec fn default_config(c: CliConfig) -> bool {
    &&& c.quality is None && c.num_workers is None && c.aria2c_rpc is None
    &&& c.download_dir is None && c.file_pattern is None
    &&& !c.danmaku && !c.subtitle && !c.cover && !c.interactive
}

impl Default for CliConfig {
    fn default() -> (r: CliConfig)
        ensures
            default_config(r),
    {
        CliConfig {
            quality: None,
            num_workers: None,
            aria2c_rpc: None,
            download_dir: None,
            file_pattern: None,
            danmaku: false,
            subtitle: false,
            cover: false,
            interactive: false,
        }
    }
}

/// Why the configuration file could not be used.
#[derive(Debug, Clone, PartialEq, Eq)]
pub enum ConfigError {
    /// It could not be read; holds the reason.
    Read(String),
    /// It is not a valid configuration; holds the reason.
    Parse(String),
}

/// The settings: the defaults where there is no configuration file (`None`),
/// otherwise what reading the file gave, its error included.
pub fn load(file: Option<Result<CliConfig, ConfigError>>) -> (r: Result<CliConfig, ConfigError>)
    ensures
        file is None ==> (r matches Ok(c) && default_config(c)),
        file matches Some(x) ==> r == x,
{
    match file {
        None => Ok(CliConfig::default()),
        Some(x) => x,
    }
}

/// The arguments of the download command.
#[derive(Debug, Clone)]
pub struct DownloadArgs {
    /// Link or BV/AV number.
    pub url: String,
    /// Output directory.
    pub output_dir: Option<String>,
    /// Quality code (80, 1080P, by default).
    pub quality: Option<u32>,
    /// Preferred video codec (`avc`, `hevc`, `av1`).
    pub vcodec_priority: Option<String>,
    /// Number of connections (8 by default).
    pub num_workers: Option<u32>,
    /// Only the video.
    pub video_only: bool,
    /// Only the audio.
    pub audio_only: bool,
    /// No danmaku.
    pub no_danmaku: bool,
    /// No subtitles.
    pub no_subtitle: bool,
    /// No cover.
    pub no_cover: bool,
    /// Choose tracks interactively.
    pub interactive: bool,
    /// Download through aria2c.
    pub aria2c: bool,
}

/// The quality asked for when none is given: 80 (1080P).
pub const DEFAULT_QUALITY: u32 = 80;

impl DownloadArgs {
    /// The lowest quality to accept: the one given, 80 otherwise.
    pub fn min_quality(&self) -> (r: u32)
        ensures
            r == match self.quality {
                Some(q) => q,
                None => DEFAULT_QUALITY,
            },
    {
        match self.quality {
            Some(q) => q,
            None => DEFAULT_QUALITY,
        }
    }

    /// How files are fetched: through aria2c when asked, in parallel
    /// otherwise.
    pub fn mode(&self) -> (r: DownloadMode)
        ensures
            r == (if self.aria2c {
                DownloadMode::Aria2c
            } else {
                DownloadMode::Parallel
            }),
    {
        if self.aria2c {
            DownloadMode::Aria2c
        } else {
            DownloadMode::Parallel
        }
    }

    /// Whether a video track is wanted: unless only the audio is.
    pub fn wants_video(&self) -> (r: bool)
        ensures
            r == !self.audio_only,
    {
        !self.audio_only
    }

    /// Whether an audio track is wanted: unless only the video is.
    pub fn wants_audio(&self) -> (r: bool)
        ensures
            r == !self.video_only,
    {
        !self.video_only
    }

    /// Whether to fetch the cover at `pic`: unless refused or there is no
    /// cover.
    pub fn wants_cover(&self, pic: &str) -> (r: bool)
        ensures
            r == (!self.no_cover && pic@.len() > 0),
    {
        !self.no_cover && crate::text::chars_of(pic).len() > 0
    }
}

/// A trimmed line of a batch file that names a video: not empty, and not a
/// comment (starting with `#`).
pub open spec fn names_video(l: Seq<char>) -> bool {
    l.len() > 0 && l[0] != '#'
}

/// The links of a batch file: its lines trimmed, without the empty ones and
/// the comments, in order.
pub open spec fn batch_lines(content: Seq<char>) -> Seq<Seq<char>> {
    split_on(content, '\n').map_values(|l: Seq<char>| trim(l)).filter(|l: Seq<char>| names_video(l))
}

/// The links of a batch file (see [`batch_lines`]).
pub fn batch_urls(content: &str) -> (r: Vec<String>)
    ensures
        r@.map_values(|s: String| s@) == batch_lines(content@),
{
    let v = chars_of(content);
    let ranges = split_ranges(&v, '\n');
    let ghost lines = split_on(v@, '\n').map_values(|l: Seq<char>| trim(l));
    let ghost keep = |l: Seq<char>| names_video(l);
    let mut out: Vec<String> = Vec::new();
    let mut j: usize = 0;
    while j < ranges.len()
        invariant
            j <= ranges@.len(),
            v@ == content@,
            ranges@.len() == split_on(v@, '\n').len(),
            lines == split_on(v@, '\n').map_values(|l: Seq<char>| trim(l)),
            keep == (|l: Seq<char>| names_video(l)),
            forall|k: int|
                0 <= k < ranges@.len() ==> #[trigger] ranges@[k].0 <= ranges@[k].1 <= v@.len()
                    && v@.subrange(ranges@[k].0 as int, ranges@[k].1 as int) == split_on(v@, '\n')[k],
            out@.map_values(|s: String| s@) == lines.take(j as int).filter(keep),
        decreases ranges.len() - j,
    {
        let (lo, hi) = ranges[j];
        let (a, b) = trim_bounds(&v, lo, hi);
        assert(lines[j as int] == v@.subrange(a as int, b as int));
        assert(lines.take(j + 1).drop_last() == lines.take(j as int));
        assert(lines.take(j + 1).last() == lines[j as int]);
        assert(lines.take(j + 1).filter(keep) == if keep(lines[j as int]) {
            lines.take(j as int).filter(keep).push(lines[j as int])
        } else {
            lines.take(j as int).filter(keep)
        }) by {
            reveal(Seq::filter);
        }
        if b > a && v[a] != '#' {
            let line = string_of_range(&v, a, b);
            proof {
                let old_out = out@;
                assert(old_out.push(line).map_values(|s: String| s@) =~= old_out.map_values(
                    |s: String| s@,
                ).push(line@));
            }
            out.push(line);
        }
        j = j + 1;
    }
    assert(lines.take(lines.len() as int) == lines);
    out
}

} // verus!
