use rbd::muxer::{
    choose_strategy, choose_transcode_targets, DashCopyMuxer, FfmpegCommand, FfmpegMuxer, MuxError,
    MuxStrategy,
};

#[test]
fn test_ffmpeg_command_build() {
    let cmd = FfmpegCommand::new().input("in.mp4").output("out.mp4").codec_copy().build();
    assert_eq!(cmd.len(), 5);
    assert_eq!(cmd[0], "-i");
    assert_eq!(cmd[1], "in.mp4");
    assert_eq!(cmd[2], "out.mp4");
}

#[test]
fn test_ffmpeg_command_with_metadata() {
    let cmd = FfmpegCommand::new()
        .metadata_title("Test")
        .metadata_artist("Artist")
        .cover("cover.png")
        .build();
    assert!(cmd.contains(&"-metadata".to_string()));
    assert!(cmd.contains(&"title=Test".to_string()));
    assert!(cmd.contains(&"artist=Artist".to_string()));
}

#[test]
fn test_choose_strategy_avc_aac() {
    assert_eq!(choose_strategy("avc", "aac", false, false), MuxStrategy::DashCopy);
}

#[test]
fn test_choose_strategy_hevc() {
    assert_eq!(choose_strategy("hevc", "aac", false, false), MuxStrategy::FfmpegMerge);
}

#[test]
fn test_choose_strategy_dolby_vision() {
    assert_eq!(choose_strategy("hevc", "aac", true, true), MuxStrategy::FfmpegTranscode);
}

#[test]
fn test_strategy_name() {
    assert_eq!(MuxStrategy::DashCopy.name(), "DashCopy");
    assert_eq!(MuxStrategy::FfmpegMerge.name(), "FfmpegMerge");
    assert_eq!(MuxStrategy::FfmpegTranscode.name(), "FfmpegTranscode");
}

#[test]
fn av1_and_dolby_codecs_are_merged() {
    assert_eq!(choose_strategy("av1", "aac", false, false), MuxStrategy::FfmpegMerge);
    assert_eq!(choose_strategy("dvh1", "aac", false, false), MuxStrategy::FfmpegMerge);
    assert_eq!(choose_strategy("dvhe", "flac", true, false), MuxStrategy::FfmpegMerge);
    assert_eq!(choose_strategy("avc", "flac", false, true), MuxStrategy::FfmpegTranscode);
}

#[test]
fn transcode_targets_follow_the_codecs() {
    assert_eq!(
        choose_transcode_targets("hevc", "flac"),
        ("libx265".to_string(), "aac".to_string())
    );
    assert_eq!(
        choose_transcode_targets("av1", "eac3"),
        ("libaom-av1".to_string(), "aac".to_string())
    );
    assert_eq!(
        choose_transcode_targets("avc", "opus"),
        ("libx264".to_string(), "opus".to_string())
    );
}

#[test]
fn merge_and_transcode_argument_lists() {
    let m = FfmpegMuxer::with_path("ffmpeg".to_string());
    let args = m.merge_copy_args("v.m4s", Some("a.m4s"), "out.mp4");
    assert_eq!(args, vec!["-i", "v.m4s", "-i", "a.m4s", "-c", "copy", "out.mp4"]);
    assert!(args.contains(&"v.m4s".to_string()));
    assert!(args.contains(&"a.m4s".to_string()));
    assert_eq!(args.last().map(String::as_str), Some("out.mp4"));
    let t = m.transcode_args("v.m4s", None, "out.mp4", "libx265", "aac");
    assert!(t.contains(&"libx265".to_string()));
    assert!(!t.contains(&"a.m4s".to_string()));
}

#[test]
fn dash_copy_needs_a_video() {
    let m = DashCopyMuxer::new();
    assert_eq!(m.mux(&[], None, "out.mp4"), Err(MuxError::MissingVideo));
    let video = vec!["v.m4s".to_string()];
    assert!(m.mux(&video, None, "out.mp4").is_ok());
}
