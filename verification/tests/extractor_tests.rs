use rbd::extractor::{
    apply_pagelist, bangumi_request, bvid_for, format_dimension, list_pages,
    parse_bangumi_season_response, parse_cheese_season_response, parse_collection_response,
    parse_fav_list_response, parse_media_list_response, parse_pagelist_response,
    parse_publish_time, parse_series_response, parse_space_response, parse_view_response,
    BangumiPayload, BangumiRequest, CheesePayload, CollectionExtractor, EpisodePayload,
    ExtractError, ExtractorKind, ExtractorRegistry, ListItem, ListMeta, ListStyle, PagePayload,
    ViewPayload,
};
use rbd::id::NormalizedId;

#[test]
fn test_registry_with_defaults_finds_normal() {
    let registry = ExtractorRegistry::with_defaults();
    let id = NormalizedId::UgcVideo { id: "BV17x411w7KC".to_string(), page_index: 1 };
    assert_eq!(registry.find(&id).map(|e| e.name()), Some("normal"));
}

#[test]
fn test_registry_with_defaults_finds_bangumi() {
    let registry = ExtractorRegistry::with_defaults();
    let id = NormalizedId::Bangumi { season_id: Some(28234), ep_id: None, media_id: None };
    assert_eq!(registry.find(&id).map(|e| e.name()), Some("bangumi"));
}

#[test]
fn test_registry_prefers_registered_order() {
    let registry = ExtractorRegistry::with_defaults();
    let id = NormalizedId::Space { mid: 42 };
    assert_eq!(registry.find(&id).map(|e| e.name()), Some("space"));
}

#[test]
fn test_registry_with_defaults_finds_collection() {
    let registry = ExtractorRegistry::with_defaults();
    let id = NormalizedId::Collection { mid: 123, sid: 456 };
    assert_eq!(registry.find(&id).map(|e| e.name()), Some("collection"));
}

#[test]
fn test_collection_extractor_matches() {
    let extractor = CollectionExtractor;
    assert!(extractor.matches(&NormalizedId::Collection { mid: 1, sid: 2 }));
    assert!(!extractor.matches(&NormalizedId::UgcVideo { id: "BVxx".into(), page_index: 0 }));
    assert!(!extractor.matches(&NormalizedId::Favourite { fid: 1 }));
}

#[test]
fn registry_order_and_short_links() {
    let mut registry = ExtractorRegistry::new();
    assert_eq!(registry.find(&NormalizedId::Mid { mid: 1 }), None);
    registry.register(ExtractorKind::IntlBangumi);
    registry.register(ExtractorKind::Space);
    assert_eq!(registry.find(&NormalizedId::Mid { mid: 1 }), Some(ExtractorKind::Space));
    let defaults = ExtractorRegistry::with_defaults();
    assert_eq!(defaults.find(&NormalizedId::ShortLink { code: "abc".into() }), None);
    assert_eq!(
        defaults.find(&NormalizedId::IntlBangumi { season_id: 1 }).map(|e| e.name()),
        Some("intl_bangumi")
    );
    assert_eq!(
        defaults.find(&NormalizedId::Cheese { season_id: 1, ep_id: None }).map(|e| e.name()),
        Some("cheese")
    );
}

#[test]
fn test_parse_view_response() {
    let value = ViewPayload {
        code: 0,
        message: "0".to_string(),
        title: "测试视频".to_string(),
        desc: "描述".to_string(),
        pic: "https://i0.hdslb.com/test.jpg".to_string(),
        pubdate: 1710000000,
        aid: 170001,
        bvid: "BV17x411w7KC".to_string(),
        owner_mid: 123,
        owner_name: "UP主".to_string(),
        is_stein_gate: 0,
        pages: vec![PagePayload {
            page: 1,
            cid: 456,
            part: "P1".to_string(),
            duration: 120,
            width: 1920,
            height: 1080,
        }],
    };
    let info = parse_view_response(&value).unwrap();
    assert_eq!(info.title, "测试视频");
    assert_eq!(info.owner_name, "UP主");
    assert_eq!(info.bvid, "BV17x411w7KC");
    assert_eq!(info.cids, vec![456]);
}

#[test]
fn view_response_refused_on_error_code() {
    let value = ViewPayload { code: -404, message: "啥都木有".to_string(), ..Default::default() };
    assert_eq!(
        parse_view_response(&value).unwrap_err(),
        ExtractError::Api("啥都木有".to_string())
    );
}

#[test]
fn test_parse_pagelist_response() {
    let pages = vec![PagePayload {
        page: 2,
        cid: 789,
        part: "P2".to_string(),
        duration: 99,
        width: 1280,
        height: 720,
    }];
    let pages = parse_pagelist_response(0, &"0".to_string(), &pages).unwrap();
    assert_eq!(pages.len(), 1);
    assert_eq!(pages[0].page_index, 2);
    assert_eq!(pages[0].dimension, "1280x720");
}

#[test]
fn test_parse_bangumi_season_response() {
    let value = BangumiPayload {
        code: 0,
        message: "success".to_string(),
        cover: "https://i0.hdslb.com/bangumi.jpg".to_string(),
        title: "番剧标题".to_string(),
        evaluate: "番剧简介".to_string(),
        pub_time: "2024-01-02 03:04:05".to_string(),
        episodes: vec![EpisodePayload {
            aid: 1,
            cid: 1001,
            id: 2001,
            title: "第1话".to_string(),
            long_title: "启程".to_string(),
            badge: "".to_string(),
            pub_time: 1710000000,
            width: 1920,
            height: 1080,
        }],
    };
    let info = parse_bangumi_season_response(&value).unwrap();
    assert!(info.is_bangumi);
    assert_eq!(info.title, "番剧标题");
    assert_eq!(info.pages[0].title, "第1话 启程");
}

#[test]
fn bangumi_trailers_are_left_out_and_time_is_read() {
    let ep = |cid: u64, title: &str, long: &str, badge: &str| EpisodePayload {
        cid,
        title: title.to_string(),
        long_title: long.to_string(),
        badge: badge.to_string(),
        ..Default::default()
    };
    let value = BangumiPayload {
        pub_time: "2024-01-02 03:04:05".to_string(),
        episodes: vec![ep(1, "第1话", "", ""), ep(2, "PV", "", "预告"), ep(3, " ", "终", "会员")],
        ..Default::default()
    };
    let info = parse_bangumi_season_response(&value).unwrap();
    assert_eq!(info.pubdate, 1704164645);
    assert_eq!(info.cids, vec![1, 3]);
    assert_eq!(info.part_names, vec!["第1话".to_string(), "终".to_string()]);
    assert_eq!(info.pages[0].dimension, "");
    let refused = BangumiPayload { code: 1, message: "m".to_string(), ..Default::default() };
    assert!(parse_bangumi_season_response(&refused).is_err());
}

#[test]
fn publish_times() {
    assert_eq!(parse_publish_time("1970-01-01 00:00:00"), 0);
    assert_eq!(parse_publish_time("2024-01-02 03:04:05"), 1704164645);
    assert_eq!(parse_publish_time("2024-01-02"), 0);
    assert_eq!(parse_publish_time(""), 0);
}

fn archive(bvid: &str, title: &str, cid: u64, duration: u64) -> ListItem {
    ListItem {
        bvid: Some(bvid.to_string()),
        title: Some(title.to_string()),
        cid: Some(cid),
        duration: Some(duration),
        ..Default::default()
    }
}

#[test]
fn test_parse_collection_response() {
    let meta = ListMeta {
        name: Some("我的合集".to_string()),
        cover: Some("https://i0.hdslb.com/collection.jpg".to_string()),
        mid: Some(12345),
    };
    let archives = vec![
        archive("BV1xx411c7mD", "合集视频1", 111, 120),
        archive("BV2xx411c7mE", "合集视频2", 222, 180),
    ];
    let info = parse_collection_response(&meta, &archives, 12345);
    assert_eq!(info.title, "我的合集");
    assert_eq!(info.bvid, "BV1xx411c7mD");
    assert_eq!(info.owner_mid, 12345);
    assert_eq!(info.cids, vec![111, 222]);
    assert_eq!(info.pages.len(), 2);
    assert_eq!(info.pages[0].title, "合集视频1");
    assert_eq!(info.pages[1].title, "合集视频2");
    assert_eq!(info.part_names, vec!["合集视频1", "合集视频2"]);
}

#[test]
fn collections_and_series_defaults() {
    let info = parse_collection_response(&ListMeta::default(), &vec![], 9);
    assert_eq!(info.title, "合集");
    assert_eq!(info.bvid, "");
    assert!(info.pages.is_empty());
    let series = parse_series_response(
        &ListMeta { name: Some("S".to_string()), cover: None, mid: Some(5) },
        &vec![ListItem { width: Some(640), height: Some(360), ..Default::default() }],
    );
    assert_eq!(series.title, "S");
    assert_eq!(series.owner_name, "S");
    assert_eq!(series.owner_mid, 5);
    assert_eq!(series.pages[0].title, "未命名");
    assert_eq!(series.pages[0].dimension, "640x360");
    assert_eq!(series.pages[0].page_index, 0);
    let unnamed = parse_series_response(&ListMeta::default(), &vec![]);
    assert_eq!(unnamed.title, "合集");
    assert_eq!(unnamed.owner_name, "");
}

#[test]
fn favourites_and_media_lists_are_numbered() {
    let items = vec![archive("BVa", "a", 1, 10), ListItem::default()];
    let fav = parse_fav_list_response(&None, &items);
    assert_eq!(fav.title, "收藏夹");
    assert_eq!(fav.bvid, "BVa");
    assert_eq!(fav.pages[0].page_index, 1);
    assert_eq!(fav.pages[1].page_index, 2);
    assert_eq!(fav.pages[1].title, "未命名");
    assert_eq!(fav.cids, vec![1, 0]);
    let ml = parse_media_list_response(&Some("我的播单".to_string()), &items);
    assert_eq!(ml.title, "我的播单");
    assert_eq!(parse_media_list_response(&None, &vec![]).title, "播单");
}

#[test]
fn space_uploads() {
    let up = ListItem {
        author: Some("某UP".to_string()),
        length: Some("125".to_string()),
        bvid: Some("BVs".to_string()),
        ..Default::default()
    };
    let info = parse_space_response(42, &vec![up, ListItem { length: Some("3:05".to_string()), ..Default::default() }]);
    assert_eq!(info.owner_name, "某UP");
    assert_eq!(info.title, "某UP 的空间投稿");
    assert_eq!(info.owner_mid, 42);
    assert_eq!(info.pages[0].duration, 125);
    assert_eq!(info.pages[1].duration, 0);
    let empty = parse_space_response(1, &vec![]);
    assert_eq!(empty.title, "UP主 的空间投稿");
}

#[test]
fn course_pages() {
    let eps = vec![
        ListItem { aid: Some(0), width: Some(1920), height: Some(0), ..Default::default() },
        ListItem { aid: Some(77), duration: Some(30), ..Default::default() },
    ];
    let payload = CheesePayload {
        title: None,
        subtitle: Some("sub".to_string()),
        cover: None,
        pub_time: Some("1970-01-01 00:01:00".to_string()),
        episodes: eps,
    };
    let info = parse_cheese_season_response(&payload);
    assert!(info.is_cheese);
    assert_eq!(info.title, "课程");
    assert_eq!(info.desc, "sub");
    assert_eq!(info.pubdate, 60);
    assert_eq!(info.pages[0].page_index, 1);
    assert_eq!(info.pages[0].dimension, "");
    assert_eq!(info.pages[1].page_index, 77);
    assert_eq!(info.pages[1].duration, 30);
    let pages = list_pages(&vec![ListItem { duration: Some(1 << 33), ..Default::default() }], ListStyle::Plain);
    assert_eq!(pages[0].duration, 0);
}

#[test]
fn dimensions() {
    assert_eq!(format_dimension(1920, 1080), "1920x1080");
    assert_eq!(format_dimension(0, 1080), "");
    assert_eq!(format_dimension(1, 0), "");
}

#[test]
fn bvids_for_videos() {
    assert_eq!(bvid_for("BV17x411w7KC").unwrap(), "BV17x411w7KC");
    assert_eq!(bvid_for("av170001").unwrap(), "BV17x411w7KC");
    assert_eq!(bvid_for("avx"), Err(ExtractError::InvalidNumber));
    assert!(bvid_for("av0").is_err());
}

#[test]
fn bangumi_requests() {
    assert_eq!(bangumi_request(Some(1), Some(2), None), Ok(BangumiRequest::Season(1)));
    assert_eq!(bangumi_request(None, Some(2), Some(3)), Ok(BangumiRequest::Episode(2)));
    assert_eq!(bangumi_request(None, None, Some(3)), Err(ExtractError::MediaIdUnsupported));
    assert_eq!(bangumi_request(None, None, None), Err(ExtractError::MissingBangumiId));
}

#[test]
fn pagelist_replaces_pages_when_there_are_some() {
    let value = ViewPayload {
        bvid: "BVx".to_string(),
        pages: vec![PagePayload { cid: 1, part: "a".to_string(), ..Default::default() }],
        ..Default::default()
    };
    let info = parse_view_response(&value).unwrap();
    let same = apply_pagelist(info.clone(), vec![]);
    assert_eq!(same.cids, vec![1]);
    let pages = parse_pagelist_response(
        0,
        &String::new(),
        &vec![
            PagePayload { cid: 5, part: "x".to_string(), ..Default::default() },
            PagePayload { cid: 6, part: "y".to_string(), ..Default::default() },
        ],
    )
    .unwrap();
    let info = apply_pagelist(info, pages);
    assert_eq!(info.cids, vec![5, 6]);
    assert_eq!(info.part_names, vec!["x".to_string(), "y".to_string()]);
    assert_eq!(info.bvid, "BVx");
}
