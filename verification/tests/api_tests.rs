use rbd::api::{
    bangumi_ep_url, bangumi_season_url, cheese_season_url, collection_url, cookie_to_send,
    danmaku_xml_url, fav_folder_request, media_list_request, media_season_id, media_season_url,
    pagelist_url, playurl_url, random_alphanumeric, series_url, sessdata_cookie,
    space_archives_request, subtitles_request, view_url, ApiError,
};

#[test]
fn endpoint_links() {
    assert_eq!(view_url("BV1"), "https://api.bilibili.com/x/web-interface/view?bvid=BV1");
    assert_eq!(pagelist_url("BV1"), "https://api.bilibili.com/x/player/pagelist?bvid=BV1&jsonp=jsonp");
    assert_eq!(
        playurl_url("BV1", 2, 80),
        "https://api.bilibili.com/x/player/playurl?bvid=BV1&cid=2&qn=80&fnval=4048&fnver=0&fourk=1&platform=html5&high_quality=1"
    );
    assert_eq!(bangumi_season_url(28234), "https://api.bilibili.com/pgc/view/web/season?season_id=28234");
    assert_eq!(bangumi_ep_url(5), "https://api.bilibili.com/pgc/view/web/ep?ep_id=5");
    assert_eq!(
        collection_url(1, 2, 3),
        "https://api.bilibili.com/x/polymer/space/seasons_archives_list?mid=1&season_id=2&page_num=3&page_size=30"
    );
    assert_eq!(series_url(9), "https://api.bilibili.com/x/series/series?series_id=9");
    assert_eq!(cheese_season_url(7), "https://api.bilibili.com/pugv/view/web/season?season_id=7");
    assert_eq!(danmaku_xml_url(0), "https://api.bilibili.com/x/v1/dm/list.so?oid=0");
    assert_eq!(media_season_url(28), "https://api.bilibili.com/pgc/review/user/media?media_id=28");
}

#[test]
fn signed_requests() {
    let r = subtitles_request("BV1", 42);
    assert_eq!(r.base, "https://api.bilibili.com/x/player/wbi/v2");
    assert_eq!(r.params, vec![("bvid", "BV1".to_string()), ("cid", "42".to_string())]);
    let r = fav_folder_request(10, 1);
    assert_eq!(r.params[0], ("media_id", "10".to_string()));
    assert_eq!(r.params[1], ("ps", "20".to_string()));
    assert_eq!(r.params[3], ("platform", "web".to_string()));
    let r = media_list_request(3);
    assert_eq!(r.params, vec![("type", "1".to_string()), ("biz_id", "3".to_string())]);
    let r = space_archives_request(99, 2);
    assert_eq!(r.params.len(), 9);
    assert_eq!(r.params[0], ("mid", "99".to_string()));
    assert_eq!(r.params[2], ("pn", "2".to_string()));
    assert_eq!(r.params[5], ("keyword", String::new()));
    assert_eq!(r.params[7].1.len(), 32);
    assert_eq!(r.params[8].0, "dm_cover_img_str");
    assert_eq!(r.params[8].1.len(), 64);
    assert!(r.params[8].1.chars().all(|c| c.is_ascii_alphanumeric()));
}

#[test]
fn random_strings() {
    let s = random_alphanumeric(100);
    assert_eq!(s.len(), 100);
    assert!(s.chars().all(|c| c.is_ascii_alphanumeric()));
    assert_eq!(random_alphanumeric(0), "");
}

#[test]
fn media_season_replies() {
    assert_eq!(media_season_id(Some(0), None, Some(5)), Ok(5));
    assert_eq!(media_season_id(Some(0), None, None), Err(ApiError::MissingSeasonId));
    assert_eq!(
        media_season_id(Some(-404), Some("no".to_string()), Some(5)),
        Err(ApiError::Failed("no".to_string()))
    );
    assert_eq!(media_season_id(None, None, Some(5)), Err(ApiError::Failed("未知错误".to_string())));
}

#[test]
fn cookies_sent() {
    assert_eq!(sessdata_cookie("abc"), "SESSDATA=abc");
    assert_eq!(cookie_to_send(Some("a=b")), Some("a=b".to_string()));
    assert_eq!(cookie_to_send(Some("")), None);
    assert_eq!(cookie_to_send(None), None);
}
