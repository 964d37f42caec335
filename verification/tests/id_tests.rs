use rbd::id::{parse_url, AvId, BvId, IdError, NormalizedId};

#[test]
fn test_ugc_bv() {
    match parse_url("https://www.bilibili.com/video/BV17x411w7KC").unwrap() {
        NormalizedId::UgcVideo { id, page_index } => {
            assert_eq!(id, "BV17x411w7KC");
            assert_eq!(page_index, 0);
        }
        _ => panic!("expected UgcVideo"),
    }
}

#[test]
fn test_ugc_av() {
    match parse_url("https://www.bilibili.com/video/av170001").unwrap() {
        NormalizedId::UgcVideo { id, page_index } => {
            assert_eq!(id, "av170001");
            assert_eq!(page_index, 0);
        }
        _ => panic!("expected UgcVideo"),
    }
}

#[test]
fn test_ugc_with_page() {
    match parse_url("https://www.bilibili.com/video/BV17x411w7KC?p=3").unwrap() {
        NormalizedId::UgcVideo { id, page_index } => {
            assert_eq!(id, "BV17x411w7KC");
            assert_eq!(page_index, 3);
        }
        _ => panic!("expected UgcVideo"),
    }
}

#[test]
fn test_raw_bv() {
    match parse_url("BV17x411w7KC").unwrap() {
        NormalizedId::UgcVideo { id, page_index } => {
            assert_eq!(id, "BV17x411w7KC");
            assert_eq!(page_index, 0);
        }
        _ => panic!("expected UgcVideo"),
    }
}

#[test]
fn test_bangumi_ss() {
    match parse_url("https://www.bilibili.com/bangumi/play/ss12345").unwrap() {
        NormalizedId::Bangumi { season_id, ep_id, media_id } => {
            assert_eq!(season_id, Some(12345));
            assert_eq!(ep_id, None);
            assert_eq!(media_id, None);
        }
        _ => panic!("expected Bangumi"),
    }
}

#[test]
fn test_bangumi_ep() {
    match parse_url("https://www.bilibili.com/bangumi/play/ep67890").unwrap() {
        NormalizedId::Bangumi { season_id, ep_id, media_id } => {
            assert_eq!(season_id, None);
            assert_eq!(ep_id, Some(67890));
            assert_eq!(media_id, None);
        }
        _ => panic!("expected Bangumi"),
    }
}

#[test]
fn test_bangumi_md() {
    match parse_url("https://www.bilibili.com/bangumi/media/md28234").unwrap() {
        NormalizedId::Bangumi { season_id, ep_id, media_id } => {
            assert_eq!(media_id, Some(28234));
            assert_eq!(season_id, None);
            assert_eq!(ep_id, None);
        }
        _ => panic!("expected Bangumi"),
    }
}

#[test]
fn test_cheese_ss() {
    match parse_url("https://www.bilibili.com/cheese/play/ss888").unwrap() {
        NormalizedId::Cheese { season_id, ep_id } => {
            assert_eq!(season_id, 888);
            assert_eq!(ep_id, None);
        }
        _ => panic!("expected Cheese"),
    }
}

#[test]
fn test_fav() {
    match parse_url("https://space.bilibili.com/12345/favlist?fid=67890").unwrap() {
        NormalizedId::Favourite { fid } => assert_eq!(fid, 67890),
        _ => panic!("expected Favourite"),
    }
}

#[test]
fn test_space() {
    match parse_url("https://space.bilibili.com/12345").unwrap() {
        NormalizedId::Space { mid } => assert_eq!(mid, 12345),
        _ => panic!("expected Space"),
    }
}

#[test]
fn test_media_list() {
    match parse_url("https://www.bilibili.com/list/ml12345").unwrap() {
        NormalizedId::MediaList { biz_id } => assert_eq!(biz_id, 12345),
        _ => panic!("expected MediaList"),
    }
}

#[test]
fn test_series() {
    match parse_url("https://www.bilibili.com/series/bsc12345").unwrap() {
        NormalizedId::Series { sid } => assert_eq!(sid, 12345),
        _ => panic!("expected Series"),
    }
}

#[test]
fn test_short_link() {
    match parse_url("https://b23.tv/abc123").unwrap() {
        NormalizedId::ShortLink { code } => assert_eq!(code, "abc123"),
        _ => panic!("expected ShortLink"),
    }
}

#[test]
fn test_collection() {
    match parse_url("https://space.bilibili.com/12345/collectiondetail?sid=67890").unwrap() {
        NormalizedId::Collection { mid, sid } => {
            assert_eq!(mid, 12345);
            assert_eq!(sid, 67890);
        }
        _ => panic!("expected Collection"),
    }
}

#[test]
fn test_collection_with_extra_params() {
    match parse_url("https://space.bilibili.com/777/collectiondetail?sid=888&tab=1").unwrap() {
        NormalizedId::Collection { mid, sid } => {
            assert_eq!(mid, 777);
            assert_eq!(sid, 888);
        }
        _ => panic!("expected Collection"),
    }
}

#[test]
fn test_invalid() {
    assert!(parse_url("https://example.com/").is_err());
    assert!(parse_url("not a url").is_err());
    assert!(parse_url("").is_err());
}

#[test]
fn test_url_parsing_table() {
    let cases = vec![
        ("https://www.bilibili.com/video/BV1GJ411x7h7", "UGC 视频"),
        ("https://b23.tv/av170001", "短链"),
        ("https://www.bilibili.com/bangumi/play/ss39443", "番剧"),
        ("https://www.bilibili.com/bangumi/play/ep250712", "番剧单集"),
        ("https://space.bilibili.com/477332594", "UP 主空间"),
        ("BV1xx411c7mD", "UGC 视频"),
    ];
    for (url, expected_prefix) in cases {
        let id = parse_url(url).unwrap();
        let display = id.describe();
        assert!(display.starts_with(expected_prefix), "URL '{url}': got '{display}'");
    }
}

#[test]
fn errors_and_hosts() {
    assert_eq!(parse_url("   "), Err(IdError::Empty));
    assert_eq!(
        parse_url("https://example.com/"),
        Err(IdError::Unrecognized(Some("example.com".to_string())))
    );
    assert_eq!(parse_url("not a url"), Err(IdError::Unrecognized(None)));
    assert_eq!(
        parse_url("https://www.bilibili.com/bangumi/play/ss99999999999999999999999"),
        Err(IdError::InvalidNumber)
    );
}

#[test]
fn page_index_forms() {
    let page = |u: &str| match parse_url(u).unwrap() {
        NormalizedId::UgcVideo { page_index, .. } => page_index,
        _ => panic!("expected UgcVideo"),
    };
    assert_eq!(page("https://www.bilibili.com/video/av1?x=1&p=7"), 7);
    assert_eq!(page("https://www.bilibili.com/video/av1?p=ep12.1"), 1);
    assert_eq!(page("https://www.bilibili.com/video/av1?p=x"), 0);
    assert_eq!(page("  https://www.bilibili.com/video/av1?p=99999999999  "), 0);
}

#[test]
fn bare_av_and_series_digits() {
    assert_eq!(
        parse_url(" av170001 ").unwrap(),
        NormalizedId::UgcVideo { id: "av170001".to_string(), page_index: 0 }
    );
    assert_eq!(
        parse_url("https://www.bilibili.com/series/4321").unwrap(),
        NormalizedId::Series { sid: 4321 }
    );
    assert_eq!(
        parse_url("https://www.bilibili.com/cheese/play/ep5").unwrap(),
        NormalizedId::Cheese { season_id: 0, ep_id: Some(5) }
    );
    assert_eq!(
        parse_url("https://space.bilibili.com/9/favlist?x=1&fid=3&fid=4").unwrap(),
        NormalizedId::Favourite { fid: 3 }
    );
}

#[test]
fn describe_forms() {
    let id = NormalizedId::UgcVideo { id: "BV1".to_string(), page_index: 2 };
    assert_eq!(id.describe(), "UGC 视频: BV1 (P2)");
    let id = NormalizedId::Bangumi { season_id: Some(1), ep_id: Some(2), media_id: None };
    assert_eq!(id.describe(), "番剧: ss1 ep2");
    let id = NormalizedId::Bangumi { season_id: None, ep_id: None, media_id: None };
    assert_eq!(id.describe(), "番剧");
    assert_eq!(NormalizedId::Collection { mid: 1, sid: 2 }.describe(), "合集: mid1 sid2");
    assert_eq!(AvId(170001).describe(), "av170001");
}

#[test]
fn id_parsing_helpers() {
    assert_eq!(AvId::parse("av170001"), Some(AvId(170001)));
    assert_eq!(AvId::parse("avav12"), Some(AvId(12)));
    assert_eq!(AvId::parse("av"), None);
    assert!(BvId::parse("BV17x411w7KC").is_ok());
    assert!(BvId::parse("BV17").is_err());
}

#[test]
fn av_number_reads_back_from_its_text() {
    for n in [0u64, 7, 10, 170001, u64::MAX] {
        let a = AvId(n);
        assert_eq!(AvId::parse(&a.describe()), Some(a));
    }
}

#[test]
fn bare_bv_and_av_numbers_read_as_whole_videos() {
    for id in ["BV17x411w7KC", "BV1GJ411x7h7", "av170001", "av1"] {
        match parse_url(id).unwrap() {
            NormalizedId::UgcVideo { id: got, page_index } => {
                assert_eq!(got, id);
                assert_eq!(page_index, 0);
            }
            other => panic!("unexpected {other:?}"),
        }
    }
}

#[test]
fn page_index_reads_the_episode_of_the_ep_form() {
    let idx = |s: &str| rbd::id::extract_page_index(&s.chars().collect());
    assert_eq!(idx("https://www.bilibili.com/bangumi/play/ss1?p=ep123.1"), 1);
    assert_eq!(idx("https://www.bilibili.com/video/BV17x411w7KC?p=ep77.12"), 12);
    assert_eq!(idx("https://www.bilibili.com/video/BV17x411w7KC?p=ep77"), 0);
    assert_eq!(idx("https://www.bilibili.com/video/BV17x411w7KC?p=3"), 3);
}

#[test]
fn whitespace_around_a_link_changes_nothing() {
    for s in ["BV17x411w7KC", "https://www.bilibili.com/bangumi/play/ss39443", "nonsense"] {
        let padded = format!(" \t{s}\u{3000}\n");
        assert_eq!(parse_url(&padded), parse_url(s));
    }
    assert_eq!(parse_url(" \u{3000} "), Err(IdError::Empty));
}
