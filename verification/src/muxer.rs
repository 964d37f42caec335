//! Muxing: the choice of a strategy and the `ffmpeg` argument lists.
//! Running `ffmpeg` itself is left to the caller.

use vstd::prelude::*;
use crate::text::{concat, is_str, owned};

verus! {

/// A builder of `ffmpeg` argument lists.
#[derive(Debug, Clone)]
pub struct FfmpegCommand {
    args: Vec<String>,
}

impl View for FfmpegCommand {
    type V = Seq<Seq<char>>;

    closed spec fn view(&self) -> Seq<Seq<char>> {
        self.args@.map_values(|a: String| a@)
    }
}

impl FfmpegCommand {
    /// An empty argument list.
    pub fn new() -> (r: FfmpegCommand)
        ensures
            r@ == Seq::<Seq<char>>::empty(),
    {
        let r = FfmpegCommand { args: Vec::new() };
        assert(r@ =~= Seq::<Seq<char>>::empty());
        r
    }

    fn push(&mut self, a: String)
        ensures
            final(self)@ == old(self)@.push(a@),
    {
        let ghost before = self@;
        self.args.push(a);
        assert(self@ =~= before.push(a@));
    }

    /// Adds an input file: `-i <path>`.
    pub fn input(self, path: &str) -> (r: FfmpegCommand)
        ensures
            r@ == self@ + seq!["-i"@, path@],
    {
        let mut c = self;
        let ghost before = c@;
        c.push(owned("-i"));
        c.push(owned(path));
        assert(c@ =~= before + seq!["-i"@, path@]);
        c
    }

    /// Adds the output file.
    pub fn output(self, path: &str) -> (r: FfmpegCommand)
        ensures
            r@ == self@.push(path@),
    {
        let mut c = self;
        c.push(owned(path));
        c
    }

    /// Stream copy: `-c copy`.
    pub fn codec_copy(self) -> (r: FfmpegCommand)
        ensures
            r@ == self@ + seq!["-c"@, "copy"@],
    {
        let mut c = self;
        let ghost before = c@;
        c.push(owned("-c"));
        c.push(owned("copy"));
        assert(c@ =~= before + seq!["-c"@, "copy"@]);
        c
    }

    /// The video encoder: `-c:v <codec>`.
    pub fn vcodec(self, codec: &str) -> (r: FfmpegCommand)
        ensures
            r@ == self@ + seq!["-c:v"@, codec@],
    {
        let mut c = self;
        let ghost before = c@;
        c.push(owned("-c:v"));
        c.push(owned(codec));
        assert(c@ =~= before + seq!["-c:v"@, codec@]);
        c
    }

    /// The audio encoder: `-c:a <codec>`.
    pub fn acodec(self, codec: &str) -> (r: FfmpegCommand)
        ensures
            r@ == self@ + seq!["-c:a"@, codec@],
    {
        let mut c = self;
        let ghost before = c@;
        c.push(owned("-c:a"));
        c.push(owned(codec));
        assert(c@ =~= before + seq!["-c:a"@, codec@]);
        c
    }

    /// The title: `-metadata title=<t>`.
    pub fn metadata_title(self, t: &str) -> (r: FfmpegCommand)
        ensures
            r@ == self@ + seq!["-metadata"@, "title="@ + t@],
    {
        let mut c = self;
        let ghost before = c@;
        c.push(owned("-metadata"));
        c.push(concat("title=", t));
        assert(c@ =~= before + seq!["-metadata"@, "title="@ + t@]);
        c
    }

    /// The artist: `-metadata artist=<a>`.
    pub fn metadata_artist(self, a: &str) -> (r: FfmpegCommand)
        ensures
            r@ == self@ + seq!["-metadata"@, "artist="@ + a@],
    {
        let mut c = self;
        let ghost before = c@;
        c.push(owned("-metadata"));
        c.push(concat("artist=", a));
        assert(c@ =~= before + seq!["-metadata"@, "artist="@ + a@]);
        c
    }

    /// A cover picture: `-i <path> -map 0 -map 1 -c copy -disposition:v:1
    /// attached_pic`.
    pub fn cover(self, path: &str) -> (r: FfmpegCommand)
        ensures
            r@ == self@ + seq![
                "-i"@,
                path@,
                "-map"@,
                "0"@,
                "-map"@,
                "1"@,
                "-c"@,
                "copy"@,
                "-disposition:v:1"@,
                "attached_pic"@,
            ],
    {
        let mut c = self;
        let ghost before = c@;
        c.push(owned("-i"));
        c.push(owned(path));
        c.push(owned("-map"));
        c.push(owned("0"));
        c.push(owned("-map"));
        c.push(owned("1"));
        c.push(owned("-c"));
        c.push(owned("copy"));
        c.push(owned("-disposition:v:1"));
        c.push(owned("attached_pic"));
        assert(c@ =~= before + seq![
            "-i"@,
            path@,
            "-map"@,
            "0"@,
            "-map"@,
            "1"@,
            "-c"@,
            "copy"@,
            "-disposition:v:1"@,
            "attached_pic"@,
        ]);
        c
    }

    /// Adds arguments as they are.
    pub fn extra(self, args: &[&str]) -> (r: FfmpegCommand)
        ensures
            r@ == self@ + args@.map_values(|a: &str| a@),
    {
        let mut c = self;
        let ghost before = c@;
        let mut i: usize = 0;
        while i < args.len()
            invariant
                i <= args@.len(),
                c@ == before + args@.take(i as int).map_values(|a: &str| a@),
            decreases args.len() - i,
        {
            c.push(owned(args[i]));
            proof {
                assert(args@.take(i + 1).map_values(|a: &str| a@) =~= args@.take(i as int).map_values(
                    |a: &str| a@,
                ).push(args@[i as int]@));
            }
            i = i + 1;
        }
        assert(args@.take(args@.len() as int) == args@);
        c
    }

    /// The argument list.
    pub fn build(self) -> (r: Vec<String>)
        ensures
            r@.map_values(|a: String| a@) == self@,
    {
        self.args
    }
}

/// How video and audio are muxed.
#[derive(Debug, Clone, Copy, PartialEq, Eq, Structural)]
pub enum MuxStrategy {
    /// DASH remux without re-encoding.
    DashCopy,
    /// `ffmpeg` stream copy.
    FfmpegMerge,
    /// `ffmpeg` full transcode.
    FfmpegTranscode,
}

/// The name of a strategy.
pub open spec fn strategy_name(s: MuxStrategy) -> Seq<char> {
    match s {
        MuxStrategy::DashCopy => "DashCopy"@,
        MuxStrategy::FfmpegMerge => "FfmpegMerge"@,
        MuxStrategy::FfmpegTranscode => "FfmpegTranscode"@,
    }
}

impl MuxStrategy {
    /// The name of the strategy (`"DashCopy"`, `"FfmpegMerge"`,
    /// `"FfmpegTranscode"`).
    pub fn name(&self) -> (s: String)
        ensures
            s@ == strategy_name(*self),
    {
        match self {
            MuxStrategy::DashCopy => owned("DashCopy"),
            MuxStrategy::FfmpegMerge => owned("FfmpegMerge"),
            MuxStrategy::FfmpegTranscode => owned("FfmpegTranscode"),
        }
    }
}

/// The strategy for a stream: Dolby Vision is transcoded; HEVC, AV1 and the
/// Dolby Vision codec tags are stream-copied by `ffmpeg`; everything else is
/// remuxed directly.
pub open spec fn strategy_for(video_codec: Seq<char>, is_dolby_vision: bool) -> MuxStrategy {
    if is_dolby_vision {
        MuxStrategy::FfmpegTranscode
    } else if video_codec == "hevc"@ || video_codec == "av1"@ || video_codec == "dvh1"@
        || video_codec == "dvhe"@ {
        MuxStrategy::FfmpegMerge
    } else {
        MuxStrategy::DashCopy
    }
}

/// Chooses the mux strategy (the audio codec and HDR do not matter).
pub fn choose_strategy(video_codec: &str, audio_codec: &str, is_hdr: bool, is_dolby_vision: bool) -> (r:
    MuxStrategy)
    ensures
        r == strategy_for(video_codec@, is_dolby_vision),
{
    if is_dolby_vision {
        return MuxStrategy::FfmpegTranscode;
    }
    let v = owned(video_codec);
    if is_str(&v, "hevc") || is_str(&v, "av1") || is_str(&v, "dvh1") || is_str(&v, "dvhe") {
        MuxStrategy::FfmpegMerge
    } else {
        MuxStrategy::DashCopy
    }
}

/// The encoders of a transcode: `libx265` for HEVC and Dolby Vision tags,
/// `libaom-av1` for AV1, `libx264` otherwise; audio `aac` for FLAC and E-AC-3,
/// the same codec otherwise.
pub open spec fn transcode_targets(video_codec: Seq<char>, audio_codec: Seq<char>) -> (Seq<char>, Seq<char>) {
    let v = if video_codec == "hevc"@ || video_codec == "dvh1"@ || video_codec == "dvhe"@ {
        "libx265"@
    } else if video_codec == "av1"@ {
        "libaom-av1"@
    } else {
        "libx264"@
    };
    let a = if audio_codec == "flac"@ || audio_codec == "eac3"@ {
        "aac"@
    } else {
        audio_codec
    };
    (v, a)
}

/// The encoders of a transcode (see [`transcode_targets`]).
pub fn choose_transcode_targets(video_codec: &str, audio_codec: &str) -> (r: (String, String))
    ensures
        (r.0@, r.1@) == transcode_targets(video_codec@, audio_codec@),
{
    let v = owned(video_codec);
    let a = owned(audio_codec);
    let tv = if is_str(&v, "hevc") || is_str(&v, "dvh1") || is_str(&v, "dvhe") {
        owned("libx265")
    } else if is_str(&v, "av1") {
        owned("libaom-av1")
    } else {
        owned("libx264")
    };
    let ta = if is_str(&a, "flac") || is_str(&a, "eac3") {
        owned("aac")
    } else {
        a
    };
    (tv, ta)
}

/// Why muxing could not be planned.
#[derive(Debug, Clone, Copy, PartialEq, Eq, Structural)]
pub enum MuxError {
    /// No video file was given.
    MissingVideo,
}

/// `ffmpeg`, run through a given program path.
#[derive(Debug, Clone)]
pub struct FfmpegMuxer {
    /// The program to run.
    pub ffmpeg_path: String,
}

/// The arguments of a stream copy: `-i video [-i audio] -c copy output`.
pub open spec fn merge_args(video: Seq<char>, audio: Option<Seq<char>>, output: Seq<char>) -> Seq<Seq<char>> {
    seq!["-i"@, video] + match audio {
        Some(a) => seq!["-i"@, a],
        None => seq![],
    } + seq!["-c"@, "copy"@, output]
}

/// The arguments of a transcode:
/// `-i video [-i audio] -c:v vcodec -c:a acodec output`.
pub open spec fn transcode_args(
    video: Seq<char>,
    audio: Option<Seq<char>>,
    output: Seq<char>,
    vcodec: Seq<char>,
    acodec: Seq<char>,
) -> Seq<Seq<char>> {
    seq!["-i"@, video] + match audio {
        Some(a) => seq!["-i"@, a],
        None => seq![],
    } + seq!["-c:v"@, vcodec, "-c:a"@, acodec, output]
}

impl FfmpegMuxer {
    /// `ffmpeg` from the search path.
    pub fn new() -> (r: Result<FfmpegMuxer, MuxError>)
        ensures
            r matches Ok(m) && m.ffmpeg_path@ == "ffmpeg"@,
    {
        Ok(FfmpegMuxer { ffmpeg_path: owned("ffmpeg") })
    }

    /// `ffmpeg` at a given path.
    pub fn with_path(path: String) -> (r: FfmpegMuxer)
        ensures
            r.ffmpeg_path@ == path@,
    {
        FfmpegMuxer { ffmpeg_path: path }
    }

    /// The arguments of a stream copy (see [`merge_args`]).
    pub fn merge_copy_args(&self, video: &str, audio: Option<&str>, output: &str) -> (r: Vec<String>)
        ensures
            r@.map_values(|a: String| a@) == merge_args(
                video@,
                match audio {
                    Some(a) => Some(a@),
                    None => None,
                },
                output@,
            ),
    {
        let mut c = FfmpegCommand::new().input(video);
        match audio {
            Some(a) => {
                c = c.input(a);
            },
            None => {},
        }
        let c = c.codec_copy().output(output);
        let r = c.build();
        assert(r@.map_values(|a: String| a@) =~= merge_args(
            video@,
            match audio {
                Some(a) => Some(a@),
                None => None,
            },
            output@,
        ));
        r
    }

    /// The arguments of a transcode (see [`transcode_args`]).
    pub fn transcode_args(
        &self,
        video: &str,
        audio: Option<&str>,
        output: &str,
        target_vcodec: &str,
        target_acodec: &str,
    ) -> (r: Vec<String>)
        ensures
            r@.map_values(|a: String| a@) == transcode_args(
                video@,
                match audio {
                    Some(a) => Some(a@),
                    None => None,
                },
                output@,
                target_vcodec@,
                target_acodec@,
            ),
    {
        let mut c = FfmpegCommand::new().input(video);
        match audio {
            Some(a) => {
                c = c.input(a);
            },
            None => {},
        }
        let c = c.vcodec(target_vcodec).acodec(target_acodec).output(output);
        let r = c.build();
        assert(r@.map_values(|a: String| a@) =~= transcode_args(
            video@,
            match audio {
                Some(a) => Some(a@),
                None => None,
            },
            output@,
            target_vcodec@,
            target_acodec@,
        ));
        r
    }
}

/// DASH muxing, done with an `ffmpeg` stream copy.
#[derive(Debug, Clone, Copy, Default, PartialEq, Eq, Structural)]
pub struct DashCopyMuxer;

impl DashCopyMuxer {
    /// The muxer.
    pub fn new() -> (r: DashCopyMuxer) {
        DashCopyMuxer
    }

    /// The `ffmpeg` arguments that mux the first video file with the first
    /// audio file (if any) into `output`; refused without a video file.
    pub fn mux(&self, video_files: &[String], audio_files: Option<&[String]>, output: &str) -> (r:
        Result<Vec<String>, MuxError>)
        ensures
            video_files@.len() == 0 ==> r == Err::<Vec<String>, MuxError>(MuxError::MissingVideo),
            video_files@.len() > 0 ==> (r matches Ok(args) && args@.map_values(|a: String| a@)
                == merge_args(
                video_files@[0]@,
                match audio_files {
                    Some(a) => if a@.len() > 0 {
                        Some(a@[0]@)
                    } else {
                        None
                    },
                    None => None,
                },
                output@,
            )),
    {
        if video_files.len() == 0 {
            return Err(MuxError::MissingVideo);
        }
        let muxer = FfmpegMuxer { ffmpeg_path: owned("ffmpeg") };
        let audio: Option<&str> = match audio_files {
            Some(a) => if a.len() > 0 {
                Some(a[0].as_str())
            } else {
                None
            },
            None => None,
        };
        Ok(muxer.merge_copy_args(video_files[0].as_str(), audio, output))
    }
}

} // verus!
