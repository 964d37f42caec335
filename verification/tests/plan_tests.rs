use rbd::model::AudioTrack;
use rbd::plan::{
    audio_file_name, cover_extension, cover_file_name, merged_file_name, page_file_stem,
    plan_transfer, progress_percent, remove_traversal, select_best_audio, select_best_video,
    video_file_name, StreamKind, VideoCandidate,
};

#[test]
fn file_stems_of_parts() {
    assert_eq!(page_file_stem("标题", 1, 1), "标题_1_1");
    assert_eq!(page_file_stem("a/b", 0, 2), "a\u{3000}b_0_2");
    assert_eq!(page_file_stem(" x. ", 3, 4), "x. _3_4");
    assert_eq!(page_file_stem("t.", 1, 2), "t._1_2");
}

#[test]
fn traversal_is_removed() {
    assert_eq!(remove_traversal("a/../b"), "a_b");
    assert_eq!(remove_traversal("..\\x\\\\y"), "x_y");
    assert_eq!(remove_traversal(".."), "");
    assert_eq!(remove_traversal("plain"), "plain");
    assert_eq!(remove_traversal("/a/"), "a");
}

#[test]
fn file_names() {
    assert_eq!(video_file_name("s", false), "s_video.m4s");
    assert_eq!(video_file_name("s", true), "s_video.mp4");
    assert_eq!(audio_file_name("s"), "s_audio.m4s");
    assert_eq!(merged_file_name("s"), "s.mp4");
}

#[test]
fn cover_extensions() {
    assert_eq!(cover_extension("https://i0.hdslb.com/a/b.png"), "png");
    assert_eq!(cover_extension("https://i0.hdslb.com/a/b.webp"), "webp");
    assert_eq!(cover_extension("https://i0.hdslb.com/a/bjpeg"), "jpg");
    assert_eq!(cover_extension("x.图"), "图");
    assert_eq!(cover_extension("x.图片"), "jpg");
    assert_eq!(cover_extension("x."), "");
    assert_eq!(cover_extension("abc"), "abc");
    assert_eq!(cover_file_name("a:b", "u.png"), "a\u{3000}b_cover.png");
}

fn v(quality: u32, codec: &str) -> VideoCandidate {
    VideoCandidate { quality, codec: codec.to_string() }
}

#[test]
fn best_video_tracks() {
    assert_eq!(select_best_video(&vec![], None), None);
    let tracks = vec![v(64, "avc"), v(80, "hevc"), v(80, "avc"), v(32, "AV1")];
    assert_eq!(select_best_video(&tracks, None), Some(1));
    assert_eq!(select_best_video(&tracks, Some("avc")), Some(2));
    assert_eq!(select_best_video(&tracks, Some("av1")), Some(3));
    assert_eq!(select_best_video(&tracks, Some("HEVC")), Some(1));
    assert_eq!(select_best_video(&tracks, Some("vp9")), Some(1));
}

fn a(quality: u32, dolby: bool, hi_res: bool) -> AudioTrack {
    AudioTrack {
        id: String::new(),
        quality,
        quality_desc: String::new(),
        codec: String::new(),
        bandwidth: 0,
        is_dolby_atmos: dolby,
        is_hi_res: hi_res,
        urls: vec![],
        size: 0,
    }
}

#[test]
fn best_audio_tracks() {
    assert_eq!(select_best_audio(&vec![]), None);
    assert_eq!(select_best_audio(&vec![a(30216, false, false), a(30280, false, false)]), Some(1));
    assert_eq!(select_best_audio(&vec![a(30280, false, false), a(30250, true, false)]), Some(1));
    assert_eq!(
        select_best_audio(&vec![a(30250, true, false), a(30251, false, true), a(30251, false, true)]),
        Some(1)
    );
    assert_eq!(select_best_audio(&vec![a(7, false, false), a(7, false, false)]), Some(0));
}

#[test]
fn transfers() {
    let urls = vec!["https://upos.bilivideo.com/v.m4s".to_string(), "https://b/x".to_string()];
    let p = plan_transfer(StreamKind::Video, "80", &urls, None).unwrap();
    assert_eq!(p.url, "https://upos.bilivideo.com/v.m4s");
    assert_eq!(p.task_id, "video-80");
    assert_eq!(p.num_threads, 8);
    assert_eq!(p.block_size, 1048576);
    let p = plan_transfer(StreamKind::Video, "80", &urls, Some(3)).unwrap();
    assert_eq!(p.num_threads, 3);
    let p = plan_transfer(StreamKind::Audio, "30280", &urls, Some(3)).unwrap();
    assert_eq!(p.task_id, "audio-30280");
    assert_eq!(p.num_threads, 4);
    assert!(plan_transfer(StreamKind::Audio, "1", &vec![], None).is_none());
    let unsafe_urls = vec!["http://127.0.0.1/v.m4s".to_string()];
    assert!(plan_transfer(StreamKind::Video, "1", &unsafe_urls, None).is_none());
}

#[test]
fn percentages() {
    assert_eq!(progress_percent(50, 200), 25);
    assert_eq!(progress_percent(1, 3), 33);
    assert_eq!(progress_percent(5, 0), 0);
}

#[test]
fn subtitle_file_names_stay_in_the_output_directory() {
    assert_eq!(rbd::plan::subtitle_file_name("标题", "zh-CN"), "标题_zh-CN.json");
    let n = rbd::plan::subtitle_file_name("t", "../../etc/x");
    assert!(!n.contains('/') && !n.contains('\\'));
    assert_eq!(n, "t_..\u{3000}..\u{3000}etc\u{3000}x.json");
}
