use rbd::cookie::CookieMap;
use rbd::login::{
    extract_cookies_from_headers, finish_login_cookies, next_login_hop, parse_auth_query_params,
    qr_from_generate, resolve_location, tv_confirm_result, tv_cookies, tv_poll_step, web_poll_step,
    LoginError, PollReply, QrGenerateResponse, QrPollResponse, QrStatus, TvCookieFields,
    TvPollAction, WebPollAction,
};

#[test]
fn test_qr_generate_response_for_tv() {
    let resp = QrGenerateResponse {
        url: "https://tv.bilibili.com/qr".to_string(),
        qrcode_key: "tv_auth_001".to_string(),
    };
    assert_eq!(resp.qrcode_key, "tv_auth_001");
}

#[test]
fn test_qr_poll_response_for_tv_confirmed() {
    let mut cookies = CookieMap::new();
    cookies.insert("sessdata".to_string(), "tv_sess".to_string());
    let resp = QrPollResponse {
        status: QrStatus::Confirmed,
        message: "确认成功".to_string(),
        cookies,
    };
    assert_eq!(resp.status, QrStatus::Confirmed);
    assert_eq!(resp.cookies.get("sessdata").map(String::as_str), Some("tv_sess"));
}

#[test]
fn test_extract_cookies_from_headers_parses_set_cookie() {
    let headers = vec!["SESSDATA=abc123; Domain=.bilibili.com; Path=/".to_string()];
    let cookies = extract_cookies_from_headers(&headers);
    assert_eq!(cookies.get("SESSDATA").map(String::as_str), Some("abc123"));
}

#[test]
fn test_extract_cookies_filters_unknown_names() {
    let headers = vec!["UNKNOWN_KEY=foo".to_string()];
    let cookies = extract_cookies_from_headers(&headers);
    assert!(cookies.is_empty());
}

#[test]
fn test_parse_auth_query_params_from_cross_domain_url() {
    let url = "https://passport.bilibili.com/x/passport-login/web/crossDomain?DedeUserID=12345&DedeUserID__ckMd5=abc&SESSDATA=deadbeef&bili_jct=xyz123&gourl=https%3A%2F%2Fwww.bilibili.com";
    let cookies = parse_auth_query_params(url);
    assert_eq!(cookies.get("SESSDATA").map(String::as_str), Some("deadbeef"));
    assert_eq!(cookies.get("bili_jct").map(String::as_str), Some("xyz123"));
    assert_eq!(cookies.get("DedeUserID").map(String::as_str), Some("12345"));
}

#[test]
fn test_parse_auth_query_params_empty() {
    let cookies = parse_auth_query_params("https://www.bilibili.com/");
    assert!(cookies.is_empty());
}

#[test]
fn auth_query_params_ignore_case_and_bad_links() {
    let cookies = parse_auth_query_params("https://a.com/?sessdata=1&BUVID3=2&other=3");
    assert_eq!(cookies.get("sessdata").map(String::as_str), Some("1"));
    assert_eq!(cookies.get("BUVID3").map(String::as_str), Some("2"));
    assert_eq!(cookies.len(), 2);
    assert!(parse_auth_query_params("not a url").is_empty());
}

#[test]
fn set_cookie_headers_keep_login_names_only() {
    let headers = vec![
        "bili_jct=j1; Path=/".to_string(),
        "foo=bar".to_string(),
        "Bili_Jct=j2".to_string(),
        "DedeUserID=7; Max-Age=10".to_string(),
    ];
    let cookies = extract_cookies_from_headers(&headers);
    assert_eq!(cookies.get("bili_jct").map(String::as_str), Some("j1"));
    assert_eq!(cookies.get("Bili_Jct").map(String::as_str), Some("j2"));
    assert_eq!(cookies.get("DedeUserID").map(String::as_str), Some("7"));
    assert_eq!(cookies.get("foo"), None);
}

#[test]
fn qr_generate_needs_a_key() {
    let q = qr_from_generate(Some("https://q".to_string()), Some("k1".to_string()), None).unwrap();
    assert_eq!(q.url, "https://q");
    assert_eq!(q.qrcode_key, "k1");
    let e = qr_from_generate(None, Some(String::new()), None).unwrap_err();
    assert_eq!(e, LoginError::NoKey("未知错误".to_string()));
    let e = qr_from_generate(None, None, Some("bad".to_string())).unwrap_err();
    assert_eq!(e, LoginError::NoKey("bad".to_string()));
}

#[test]
fn web_poll_decisions() {
    let data = |code: i64, url: Option<&str>| PollReply::Data {
        code: Some(code),
        url: url.map(|u| u.to_string()),
    };
    assert_eq!(web_poll_step(true, data(0, Some("u"))), WebPollAction::Fail(LoginError::TimedOut));
    assert_eq!(web_poll_step(false, PollReply::Unreachable), WebPollAction::Wait(QrStatus::Unknown));
    assert_eq!(web_poll_step(false, data(0, Some("u"))), WebPollAction::FollowRedirect("u".to_string()));
    assert_eq!(web_poll_step(false, data(0, None)), WebPollAction::Fail(LoginError::MissingRedirect));
    assert_eq!(web_poll_step(false, data(86038, None)), WebPollAction::Fail(LoginError::Expired));
    assert_eq!(web_poll_step(false, data(86090, None)), WebPollAction::Wait(QrStatus::Scanned));
    assert_eq!(web_poll_step(false, data(86101, None)), WebPollAction::Wait(QrStatus::NotScanned));
    assert_eq!(web_poll_step(false, data(1 << 32, Some("u"))), WebPollAction::Wait(QrStatus::Unknown));
    assert_eq!(
        web_poll_step(false, PollReply::Data { code: None, url: None }),
        WebPollAction::Wait(QrStatus::Unknown)
    );
}

fn tv_fields(sess: Option<&str>) -> TvCookieFields {
    TvCookieFields {
        sessdata: sess.map(|s| s.to_string()),
        bili_jct: None,
        dedeuserid: Some("42".to_string()),
        ac_time_value: None,
    }
}

#[test]
fn tv_poll_decisions() {
    match tv_poll_step(false, true, Some(0), tv_fields(Some("s"))) {
        TvPollAction::Done(m) => {
            assert_eq!(m.get("sessdata").map(String::as_str), Some("s"));
            assert_eq!(m.get("dedeuserid").map(String::as_str), Some("42"));
            assert_eq!(m.len(), 2);
        },
        _ => panic!("expected cookies"),
    }
    let none = TvCookieFields { sessdata: None, bili_jct: None, dedeuserid: None, ac_time_value: None };
    assert!(matches!(tv_poll_step(false, true, Some(0), none), TvPollAction::Fail(LoginError::NoCookies)));
    assert!(matches!(tv_poll_step(false, true, Some(86038), tv_fields(None)), TvPollAction::Fail(LoginError::Expired)));
    assert!(matches!(tv_poll_step(false, true, Some(86039), tv_fields(None)), TvPollAction::Wait(QrStatus::Confirmed)));
    assert!(matches!(tv_poll_step(false, true, None, tv_fields(None)), TvPollAction::Wait(QrStatus::Unknown)));
    assert!(matches!(tv_poll_step(false, false, Some(0), tv_fields(None)), TvPollAction::Wait(QrStatus::Unknown)));
    assert!(matches!(tv_poll_step(true, true, Some(0), tv_fields(None)), TvPollAction::Fail(LoginError::TimedOut)));
    assert!(matches!(tv_poll_step(false, true, Some((1i64 << 32) + 86038), tv_fields(None)), TvPollAction::Fail(LoginError::Expired)));
}

#[test]
fn tv_confirmation() {
    let m = tv_confirm_result(Some(0), None, tv_fields(Some("s"))).unwrap();
    assert_eq!(m.get("sessdata").map(String::as_str), Some("s"));
    assert_eq!(tv_cookies(tv_fields(None)).len(), 1);
    let e = tv_confirm_result(Some(-101), Some("no".to_string()), tv_fields(None)).unwrap_err();
    assert_eq!(e, LoginError::Refused("no".to_string()));
    let e = tv_confirm_result(None, None, tv_fields(None)).unwrap_err();
    assert_eq!(e, LoginError::Refused("未知错误".to_string()));
}

#[test]
fn login_redirect_chain() {
    let first = "https://passport.bilibili.com/x/crossDomain?a=1";
    assert_eq!(next_login_hop(first, false, Some("/x")), Ok(None));
    assert_eq!(next_login_hop(first, true, None), Ok(None));
    assert_eq!(
        next_login_hop(first, true, Some("https://www.bilibili.com/")),
        Ok(Some("https://www.bilibili.com/".to_string()))
    );
    assert_eq!(
        next_login_hop(first, true, Some("/done?x=1")),
        Ok(Some("https://passport.bilibili.com/done?x=1".to_string()))
    );
    assert_eq!(
        resolve_location("not a url", "/p"),
        Some("https://www.bilibili.com/p".to_string())
    );
    assert!(finish_login_cookies(CookieMap::new()).is_err());
    let mut c = CookieMap::new();
    c.insert("SESSDATA".to_string(), "x".to_string());
    assert_eq!(finish_login_cookies(c).unwrap().len(), 1);
}

#[test]
fn qr_login_images_are_drawn_and_long_links_refused() {
    let url = "https://passport.bilibili.com/h5-app/passport/login/scan?qrcode_key=abc";
    let image = rbd::login::qr_login_image(url).unwrap();
    assert_ne!(image, url);
    assert!(image.lines().count() > 10);
    assert!(image.contains('█') || image.contains('▀') || image.contains('▄'));
    assert_eq!(rbd::login::qr_login_image(url), Some(image));
    let huge = "x".repeat(8000);
    assert_eq!(rbd::login::qr_login_image(&huge), None);
}
