use rbd::playurl::{
    accept_description_to_quality_desc, audio_tracks, collect_urls, desc_contains_quality,
    into_audio_track, map_audio_codec, map_video_codec, pick_quality_desc, video_track_fields,
    DashAudio, DashVideoFields, Dolby, Flac,
};

fn audio(id: u32, codecid: u32, bandwidth: u64, url: &str) -> DashAudio {
    DashAudio {
        id,
        base_url: url.to_string(),
        backup_url: None,
        bandwidth,
        mime_type: "audio/mp4".to_string(),
        codecs: "mp4a.40.2".to_string(),
        codecid,
    }
}

#[test]
fn codec_names() {
    assert_eq!(map_video_codec(7), "avc");
    assert_eq!(map_video_codec(12), "hevc");
    assert_eq!(map_video_codec(13), "av1");
    assert_eq!(map_video_codec(1), "unknown");
    assert_eq!(map_audio_codec(0), "eac3");
    assert_eq!(map_audio_codec(1), "aac");
    assert_eq!(map_audio_codec(2), "flac");
    assert_eq!(map_audio_codec(3), "mp3");
    assert_eq!(map_audio_codec(4), "unknown");
}

#[test]
fn quality_descriptions() {
    assert!(desc_contains_quality("高清 1080P", 80));
    assert!(desc_contains_quality("超清 4K", 120));
    assert!(desc_contains_quality("Q116", 116));
    assert!(!desc_contains_quality("高清 720P", 80));
    let descs = accept_description_to_quality_desc(&[" 高清 1080P ".to_string(), "超清 4K".to_string()]);
    assert_eq!(descs, vec!["高清 1080P".to_string(), "超清 4K".to_string()]);
    assert_eq!(pick_quality_desc(&descs, &None, 120), "超清 4K");
    assert_eq!(pick_quality_desc(&descs, &Some("fallback".to_string()), 64), "fallback");
    assert_eq!(pick_quality_desc(&descs, &None, 64), "Q64");
}

#[test]
fn links_that_may_be_fetched() {
    let urls = collect_urls(
        "https://upos.bilivideo.com/a".to_string(),
        Some(vec!["http://192.168.1.2/b".to_string(), "https://cn.bilivideo.com/c".to_string()]),
    );
    assert_eq!(urls, vec!["https://upos.bilivideo.com/a".to_string(), "https://cn.bilivideo.com/c".to_string()]);
    assert!(collect_urls("file:///etc/passwd".to_string(), None).is_empty());
}

#[test]
fn audio_track_of_a_stream() {
    let t = into_audio_track(audio(30280, 1, 192000, "https://a.bilivideo.com/x"), false, false);
    assert_eq!(t.id, "audio-30280-1");
    assert_eq!(t.quality_desc, "192kbps");
    assert_eq!(t.codec, "aac");
    assert_eq!(t.urls.len(), 1);
    let t = into_audio_track(audio(30250, 0, 1, "https://a.bilivideo.com/x"), true, false);
    assert_eq!(t.quality_desc, "Dolby Atmos");
    let t = into_audio_track(audio(30251, 2, 1, "https://a.bilivideo.com/x"), false, true);
    assert_eq!(t.quality_desc, "Hi-Res");
}

#[test]
fn audio_tracks_in_order() {
    let tracks = audio_tracks(
        Some(vec![audio(30216, 1, 64000, "https://a/1"), audio(30280, 1, 192000, "https://a/2")]),
        Some(Dolby { audio: Some(vec![audio(30250, 0, 448000, "https://a/3")]) }),
        Some(Flac { audio: Some(audio(30251, 2, 900000, "https://a/4")) }),
    );
    assert_eq!(tracks.len(), 4);
    assert_eq!(tracks[0].quality, 30216);
    assert!(tracks[2].is_dolby_atmos);
    assert!(tracks[3].is_hi_res);
    assert!(audio_tracks(None, None, Some(Flac { audio: None })).is_empty());
}

#[test]
fn video_track_of_a_stream() {
    let v = DashVideoFields {
        id: 120,
        base_url: "https://upos.bilivideo.com/v".to_string(),
        backup_url: None,
        bandwidth: 8_000_000,
        codecs: "hev1.2.4.L153.HDR".to_string(),
        width: 3840,
        height: 2160,
        codecid: 12,
    };
    let t = video_track_fields(v, &vec!["超清 4K".to_string()], &None);
    assert_eq!(t.id, "video-120-12");
    assert_eq!(t.quality_desc, "超清 4K");
    assert_eq!(t.codec, "hevc");
    assert_eq!(t.resolution, "3840x2160");
    assert!(t.is_hdr);
    assert!(!t.is_dolby_vision);
    let dv = DashVideoFields { codecs: "dvh1.08.07".to_string(), codecid: 12, ..Default::default() };
    let t = video_track_fields(dv, &vec![], &None);
    assert!(t.is_dolby_vision);
    assert!(!t.is_hdr);
    assert!(t.urls.is_empty());
    assert_eq!(t.quality_desc, "Q0");
}
