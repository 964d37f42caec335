use rbd::cli::{batch_urls, load, CliConfig, ConfigError, DownloadArgs};
use rbd::manager::DownloadMode;

fn args() -> DownloadArgs {
    DownloadArgs {
        url: "BV1xx".to_string(),
        output_dir: None,
        quality: None,
        vcodec_priority: None,
        num_workers: None,
        video_only: false,
        audio_only: false,
        no_danmaku: false,
        no_subtitle: false,
        no_cover: false,
        interactive: false,
        aria2c: false,
    }
}

#[test]
fn missing_config_gives_defaults() {
    let c = load(None).unwrap();
    assert_eq!(c.quality, None);
    assert_eq!(c.download_dir, None);
    assert!(!c.danmaku && !c.subtitle && !c.cover && !c.interactive);
}

#[test]
fn config_file_result_is_passed_on() {
    let mut c = CliConfig::default();
    c.quality = Some(116);
    assert_eq!(load(Some(Ok(c))).unwrap().quality, Some(116));
    let e = load(Some(Err(ConfigError::Parse("bad".to_string())))).unwrap_err();
    assert_eq!(e, ConfigError::Parse("bad".to_string()));
}

#[test]
fn download_argument_decisions() {
    let a = args();
    assert_eq!(a.min_quality(), 80);
    assert_eq!(a.mode(), DownloadMode::Parallel);
    assert!(a.wants_video() && a.wants_audio());
    assert!(a.wants_cover("https://p/x.jpg"));
    assert!(!a.wants_cover(""));
    let b = DownloadArgs { quality: Some(120), aria2c: true, audio_only: true, no_cover: true, ..args() };
    assert_eq!(b.min_quality(), 120);
    assert_eq!(b.mode(), DownloadMode::Aria2c);
    assert!(!b.wants_video() && b.wants_audio());
    assert!(!b.wants_cover("https://p/x.jpg"));
}

#[test]
fn batch_file_lines() {
    let content = "# list\nBV1xx411c7mD\n\n  https://b23.tv/abc  \r\n#skip\nav170001";
    assert_eq!(
        batch_urls(content),
        vec!["BV1xx411c7mD".to_string(), "https://b23.tv/abc".to_string(), "av170001".to_string()]
    );
    assert!(batch_urls("\n  \n# only comments\n").is_empty());
    assert!(batch_urls("").is_empty());
}
