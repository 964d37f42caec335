use rbd::cookie::{merge_cookies, parse_cookie_string, parse_set_cookie, to_cookie_header, CookieMap};

fn map_of(pairs: &[(&str, &str)]) -> CookieMap {
    let mut m = CookieMap::new();
    for (k, v) in pairs {
        m.insert(k.to_string(), v.to_string());
    }
    m
}

#[test]
fn test_parse_cookie_string_basic() {
    let map = parse_cookie_string("SESSDATA=abc; bili_jct=def");
    assert_eq!(map.get("SESSDATA").map(String::as_str), Some("abc"));
    assert_eq!(map.get("bili_jct").map(String::as_str), Some("def"));
}

#[test]
fn test_parse_cookie_string_handles_spaces() {
    let map = parse_cookie_string(" SESSDATA = abc ; bili_jct = def ");
    assert_eq!(map.get("SESSDATA").map(String::as_str), Some("abc"));
}

#[test]
fn test_parse_set_cookie_single() {
    let headers = &["SESSDATA=abc; Path=/; Domain=.bilibili.com".to_string()];
    let map = parse_set_cookie(headers);
    assert_eq!(map.get("SESSDATA").map(String::as_str), Some("abc"));
    assert_eq!(map.len(), 1);
}

#[test]
fn test_parse_set_cookie_multiple() {
    let headers = &[
        "buvid3=abc123; Path=/; Domain=.bilibili.com".to_string(),
        "buvid4=def456; Path=/".to_string(),
    ];
    let map = parse_set_cookie(headers);
    assert_eq!(map.len(), 2);
    assert_eq!(map.get("buvid3").map(String::as_str), Some("abc123"));
    assert_eq!(map.get("buvid4").map(String::as_str), Some("def456"));
}

#[test]
fn test_to_cookie_header() {
    let map = map_of(&[("key1", "v1"), ("key2", "v2")]);
    let header = to_cookie_header(&map);
    assert!(header.contains("key1=v1"));
    assert!(header.contains("key2=v2"));
}

#[test]
fn test_merge_cookies_b_overrides_a() {
    let mut base = map_of(&[("a", "old"), ("shared", "base")]);
    let other = map_of(&[("b", "new"), ("shared", "override")]);
    merge_cookies(&mut base, &other);
    assert_eq!(base.get("a").map(String::as_str), Some("old"));
    assert_eq!(base.get("b").map(String::as_str), Some("new"));
    assert_eq!(base.get("shared").map(String::as_str), Some("override"));
}

#[test]
fn test_parse_set_cookie_empty() {
    let map = parse_set_cookie(&[]);
    assert!(map.is_empty());
}

#[test]
fn test_to_cookie_header_empty() {
    let map = CookieMap::new();
    assert_eq!(to_cookie_header(&map), "");
}

#[test]
fn later_pair_wins_and_pieces_without_equals_are_skipped() {
    let map = parse_cookie_string("a=1; junk; a=2; b = x=y ");
    assert_eq!(map.get("a").map(String::as_str), Some("2"));
    assert_eq!(map.get("b").map(String::as_str), Some("x=y"));
    assert_eq!(map.len(), 2);
    assert_eq!(to_cookie_header(&map), "a=2; b=x=y");
}

#[test]
fn merge_then_lookup_scenario() {
    let mut base = map_of(&[("k", "1")]);
    let other = map_of(&[("k", "2"), ("z", "3")]);
    merge_cookies(&mut base, &other);
    assert_eq!(base.len(), 2);
    assert_eq!(to_cookie_header(&base), "k=2; z=3");
}

#[test]
fn cookie_header_reads_back_as_the_same_cookies() {
    let pairs = [("SESSDATA", "a,b%2C=c"), ("", "empty name"), ("bili_jct", ""), ("DedeUserID", "42")];
    let m = map_of(&pairs);
    let back = parse_cookie_string(&to_cookie_header(&m));
    assert_eq!(back.len(), m.len());
    for (k, v) in pairs {
        assert_eq!(back.get(k).map(String::as_str), Some(v));
    }
}
