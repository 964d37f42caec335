use rbd::cookie::CookieMap;
use rbd::profile::{buvid_from_set_cookies, login_profile, AuthProfile};

#[test]
fn test_is_logged_in_empty_sessdata() {
    let profile = AuthProfile::default();
    assert!(!profile.is_logged_in());
}

#[test]
fn test_is_logged_in_with_sessdata() {
    let profile = AuthProfile { sessdata: "token123".to_string(), ..Default::default() };
    assert!(profile.is_logged_in());
}

#[test]
fn test_cookie_header_format() {
    let profile = AuthProfile {
        sessdata: "abc".to_string(),
        bili_jct: "def".to_string(),
        ..Default::default()
    };
    let header = profile.cookie_header();
    assert!(header.contains("SESSDATA=abc"));
    assert!(header.contains("bili_jct=def"));
}

#[test]
fn test_cookie_header_with_extra_cookies() {
    let mut cookies = CookieMap::new();
    cookies.insert("sid".to_string(), "sid123".to_string());
    let profile = AuthProfile {
        sessdata: "abc".to_string(),
        bili_jct: "def".to_string(),
        cookies,
        ..Default::default()
    };
    let header = profile.cookie_header();
    assert!(header.contains("sid=sid123"));
}

#[test]
fn test_from_cookie_string_parses_known_fields() {
    let s = "SESSDATA=abc; bili_jct=def; DedeUserID=123; buvid3=b3";
    let profile = AuthProfile::from_cookie_string(s);
    assert_eq!(profile.sessdata, "abc");
    assert_eq!(profile.bili_jct, "def");
    assert_eq!(profile.dedeuserid, "123");
    assert_eq!(profile.buvid3, "b3");
}

#[test]
fn test_from_cookie_string_parses_unknown_as_map() {
    let s = "SESSDATA=abc; FEED_LIVE_VERSION=V8; bp_video_offset_123=456";
    let profile = AuthProfile::from_cookie_string(s);
    assert_eq!(profile.sessdata, "abc");
    assert_eq!(profile.cookies.get("FEED_LIVE_VERSION").map(String::as_str), Some("V8"));
}

#[test]
fn test_merge_overwrites_non_empty() {
    let mut base = AuthProfile { sessdata: "old".to_string(), mid: 1, ..Default::default() };
    let other = AuthProfile {
        sessdata: "new".to_string(),
        bili_jct: "token".to_string(),
        mid: 2,
        ..Default::default()
    };
    base.merge(&other);
    assert_eq!(base.sessdata, "new");
    assert_eq!(base.bili_jct, "token");
    assert_eq!(base.mid, 2);
}

#[test]
fn test_default_is_empty() {
    let profile = AuthProfile::default();
    assert!(!profile.is_logged_in());
    assert!(profile.cookies.is_empty());
}

#[test]
fn cookie_header_order_and_skipping_empty_fields() {
    let mut cookies = CookieMap::new();
    cookies.insert("x".to_string(), "1".to_string());
    let profile = AuthProfile {
        buvid4: "b4".to_string(),
        sessdata: "s".to_string(),
        ac_time_value: "t".to_string(),
        cookies,
        ..Default::default()
    };
    assert_eq!(profile.cookie_header(), "SESSDATA=s; ac_time_value=t; buvid4=b4; x=1");
    assert_eq!(AuthProfile::default().cookie_header(), "");
}

#[test]
fn merge_keeps_unset_fields_and_takes_ac_time_value() {
    let mut base = AuthProfile {
        uname: "me".to_string(),
        ac_time_value: "keep".to_string(),
        mid: 5,
        ..Default::default()
    };
    let other = AuthProfile { ac_time_value: "other".to_string(), ..Default::default() };
    base.merge(&other);
    assert_eq!(base.uname, "me");
    assert_eq!(base.ac_time_value, "other");
    assert_eq!(base.mid, 5);
    let empty = AuthProfile::default();
    base.merge(&empty);
    assert_eq!(base.ac_time_value, "other");
}

#[test]
fn from_cookie_string_later_value_wins() {
    let p = AuthProfile::from_cookie_string("SESSDATA=a; SESSDATA=b; k=1; k=2");
    assert_eq!(p.sessdata, "b");
    assert_eq!(p.cookies.get("k").map(String::as_str), Some("2"));
    assert_eq!(p.cookies.len(), 1);
}

#[test]
fn test_is_session_valid_with_profile() {
    let profile = AuthProfile { sessdata: "fake_sessdata".to_string(), ..Default::default() };
    assert!(profile.is_logged_in());
}

#[test]
fn login_profile_files_known_cookies() {
    let mut cookies = CookieMap::new();
    cookies.insert("SESSDATA".to_string(), "s".to_string());
    cookies.insert("buvid4".to_string(), "b4".to_string());
    cookies.insert("ac_time_value".to_string(), "t".to_string());
    cookies.insert("sessdata".to_string(), "lower".to_string());
    let p = login_profile("main".to_string(), &cookies);
    assert_eq!(p.name, "main");
    assert_eq!(p.sessdata, "s");
    assert_eq!(p.buvid4, "b4");
    assert_eq!(p.bili_jct, "");
    assert_eq!(p.ac_time_value, "");
    assert_eq!(p.cookies.get("ac_time_value").map(String::as_str), Some("t"));
    assert_eq!(p.cookies.get("sessdata").map(String::as_str), Some("lower"));
    assert_eq!(p.cookies.len(), 2);
}

#[test]
fn account_labels() {
    let p = AuthProfile { mid: 42, ..Default::default() };
    assert_eq!(p.account_label(), "mid=42");
    let p = AuthProfile { uname: "名".to_string(), mid: 42, ..Default::default() };
    assert_eq!(p.account_label(), "名");
}

#[test]
fn buvids_from_the_home_page() {
    let headers = vec![
        "buvid3=AAA-1; path=/; domain=.bilibili.com".to_string(),
        "b_nut=100; path=/".to_string(),
        " buvid4 = BBB ; path=/".to_string(),
        "buvid3=CCC; path=/".to_string(),
    ];
    assert_eq!(buvid_from_set_cookies(&headers), ("CCC".to_string(), "BBB".to_string()));
    assert_eq!(buvid_from_set_cookies(&[]), (String::new(), String::new()));
}

#[test]
fn profile_cookie_header_reads_back_as_the_same_login() {
    let mut cookies = CookieMap::new();
    cookies.insert("sid".to_string(), "x=1".to_string());
    cookies.insert("FEED_LIVE_VERSION".to_string(), "V8".to_string());
    let profile = AuthProfile {
        sessdata: "sess%2Cdata".to_string(),
        bili_jct: "jct".to_string(),
        ac_time_value: "act".to_string(),
        buvid4: "b4".to_string(),
        cookies,
        ..Default::default()
    };
    let back = AuthProfile::from_cookie_string(&profile.cookie_header());
    assert_eq!(back.sessdata, profile.sessdata);
    assert_eq!(back.bili_jct, profile.bili_jct);
    assert_eq!(back.dedeuserid, "");
    assert_eq!(back.ac_time_value, profile.ac_time_value);
    assert_eq!(back.buvid3, "");
    assert_eq!(back.buvid4, profile.buvid4);
    assert_eq!(back.cookies.len(), 2);
    assert_eq!(back.cookies.get("sid").map(String::as_str), Some("x=1"));
    assert_eq!(back.cookies.get("FEED_LIVE_VERSION").map(String::as_str), Some("V8"));
}
