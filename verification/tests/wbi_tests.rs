use rbd::codec::md5_hex;
use rbd::wbi::{build_wbi_signed_url, build_wbi_signed_url_at, compute_mixin_key, expired_after, extract_key_from_url, sign_query, WbiKey};

#[test]
fn test_extract_key() {
    let url = "https://i0.hdslb.com/bfs/wbi/49a55d49a55d49a955e2322e3666f6fe6f6f6f6f.png";
    assert_eq!(extract_key_from_url(url), "49a55d49a55d49a955e2322e3666f6fe6f6f6f6f");
}

#[test]
fn test_compute_mixin_key() {
    let img = "4939d4c0b4cc46f3b7f8a7d8b8c4f0e9";
    let sub = "9b5a6d8c1a2b3c4d5e6f7a8b9c0d1e2f";
    let mix = compute_mixin_key(img, sub);
    assert_eq!(mix.len(), 32);
}

#[test]
fn test_build_wbi_signed_url_contains_signature() {
    let wbi = WbiKey::from_urls(
        "https://i0.hdslb.com/bfs/wbi/4939d4c0b4cc46f3b7f8a7d8b8c4f0e9.png",
        "https://i0.hdslb.com/bfs/wbi/9b5a6d8c1a2b3c4d5e6f7a8b9c0d1e2f.png",
    );
    let (url, _wts) = build_wbi_signed_url(
        "https://api.bilibili.com/x/player/wbi/v2",
        &vec![("bvid", "BV1xx411c7mD".to_string()), ("cid", "123".to_string())],
        &wbi,
    )
    .unwrap();
    assert!(url.starts_with("https://api.bilibili.com/x/player/wbi/v2?"));
    assert!(url.contains("bvid=BV1xx411c7mD"));
    assert!(url.contains("cid=123"));
    assert!(url.contains("wts="));
    assert!(url.contains("w_rid="));
}

#[test]
fn mixin_key_of_short_keys_skips_missing_positions() {
    assert_eq!(compute_mixin_key("ab", "cd"), "cd");
}

#[test]
fn sign_query_sorts_and_drops_empty_values() {
    let wbi = WbiKey::from_urls("https://x/a/img.png", "https://x/b/sub.png");
    let mixin = wbi.mixin_key.clone();
    let sig = sign_query(&[("b", "2"), ("a", "1 x"), ("c", "")], &wbi);
    let expected = md5_hex(format!("a1%20xb2{mixin}").as_bytes());
    assert_eq!(sig, expected);
}

#[test]
fn signed_url_at_a_fixed_time() {
    let wbi = WbiKey::from_urls("https://x/a/img.png", "https://x/b/sub.png");
    let url = build_wbi_signed_url_at("https://h/p", &vec![("q", "a b/c".to_string())], &wbi, 1700000000);
    let sig = sign_query(&[("q", "a b/c"), ("wts", "1700000000")], &wbi);
    assert_eq!(url, format!("https://h/p?q=a%20b%2Fc&wts=1700000000&w_rid={sig}"));
}

#[test]
fn keys_from_links() {
    assert_eq!(extract_key_from_url("https://a/b/c.d.e?x=/y.z"), "c");
    assert_eq!(extract_key_from_url("plain"), "plain");
}

#[test]
fn wbi_key_expires_after_one_hour() {
    assert!(!expired_after(0));
    assert!(!expired_after(3_600_000_000_000));
    assert!(expired_after(3_600_000_000_001));
    let key = WbiKey::from_nav("https://i0.hdslb.com/bfs/wbi/a.png", "https://i0.hdslb.com/bfs/wbi/b.png");
    assert!(!key.is_expired());
}

#[test]
fn signed_url_now_is_the_signed_url_at_the_clock_reading() {
    let wbi = WbiKey::from_urls("https://i0.hdslb.com/bfs/wbi/abc.png", "https://i0.hdslb.com/bfs/wbi/def.png");
    let params = vec![("cid", "1".to_string())];
    let (url, wts) = build_wbi_signed_url("https://x/y", &params, &wbi).unwrap();
    assert!(wts > 1_600_000_000);
    assert_eq!(url, build_wbi_signed_url_at("https://x/y", &params, &wbi, wts));
}
