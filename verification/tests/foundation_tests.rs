use rbd::aria2c::{number_from_text, Aria2cClient};
use rbd::path::{join_output, pick_unique, sanitize_filename, unique_path, url_to_filename, with_default_extension};
use rbd::ratelimit::{min_interval, recommended_rps};
use rbd::template::{pattern_to_tera, render, render_path, TemplateError, DEFAULT_PATTERN};

#[test]
fn test_sanitize_filename() {
    assert_eq!(sanitize_filename("abc/def:1"), "abc\u{3000}def\u{3000}1");
    assert_eq!(sanitize_filename("..foo."), "..foo");
}

#[test]
fn test_url_to_filename() {
    assert_eq!(url_to_filename("https://x.com/a/b.flv"), Some("b.flv".into()));
    assert_eq!(url_to_filename("https://x.com/a/b.flv?token=1"), Some("b.flv".into()));
}

#[test]
fn test_recommended_rps() {
    assert_eq!(recommended_rps(false), 50);
    assert_eq!(recommended_rps(true), 200);
}

#[test]
fn test_pattern_to_tera() {
    let tpl = pattern_to_tera("{a}/{b}/{c}");
    assert_eq!(tpl, "{{ a }}/{{ b }}/{{ c }}");
}

#[test]
fn test_aria2c_client_new() {
    let client = Aria2cClient::default();
    assert_eq!(client.endpoint(), "http://localhost:6800/jsonrpc");
}

#[test]
fn aria2c_token_follows_the_secret() {
    let client = Aria2cClient::new("http://h:1/rpc");
    assert_eq!(client.token(), None);
    let client = client.with_secret("s3");
    assert_eq!(client.endpoint(), "http://h:1/rpc");
    assert_eq!(client.token(), Some("token:s3".to_string()));
    assert_eq!(number_from_text("12345"), Some(12345));
    assert_eq!(number_from_text("12a"), None);
}

#[test]
fn sanitize_edge_cases() {
    assert_eq!(sanitize_filename("  a\tb  "), "a_b");
    assert_eq!(sanitize_filename("..."), "");
    assert_eq!(sanitize_filename("x<y>|z"), "x\u{3000}y\u{3000}\u{3000}z");
}

#[test]
fn sanitized_names_hold_no_forbidden_character() {
    for title in ["a\u{7}b/c?", "\u{1}\u{2}.", "<*>: .", "re\\port\u{9f}.."] {
        let r = sanitize_filename(title);
        assert!(!r.ends_with('.'), "{r:?}");
        for c in r.chars() {
            assert!(!"\\/:*?\"<>|".contains(c), "{r:?}");
            assert!(!c.is_control(), "{r:?}");
        }
    }
}

#[test]
fn url_to_filename_edge_cases() {
    assert_eq!(url_to_filename("https://x.com/a/"), Some("a".into()));
    assert_eq!(url_to_filename("/"), None);
    assert_eq!(url_to_filename(""), None);
}

#[test]
fn join_output_cleans_each_piece() {
    assert_eq!(join_output("/base", "a:b/c?.mp4"), "/base/a\u{3000}b/c\u{3000}.mp4");
}

#[test]
fn pattern_braces() {
    assert_eq!(pattern_to_tera(DEFAULT_PATTERN), "{{ title }}/{{ p_title }}");
    assert_eq!(pattern_to_tera("{{a}}"), "{{ {a }}}");
    assert_eq!(pattern_to_tera("a}b"), "a}b");
}

#[test]
fn min_interval_by_login() {
    assert_eq!(min_interval(false).as_millis(), 20);
    assert_eq!(min_interval(true).as_millis(), 5);
}

#[test]
fn default_extensions() {
    assert_eq!(with_default_extension("abc/v", "mp4"), Some("abc/v.mp4".to_string()));
    assert_eq!(with_default_extension("abc/v.flv", "mp4"), Some("abc/v.flv".to_string()));
    assert_eq!(with_default_extension("abc/v", ""), Some("abc/v".to_string()));
    assert_eq!(with_default_extension("abc/v", "a/b"), None);
    assert_eq!(with_default_extension("abc/v", "a\\b"), None);
}

#[test]
fn unique_path_keeps_a_free_name_and_numbers_a_taken_one() {
    let free = "/no-such-dir-for-rbd/foo.mp4";
    assert_eq!(unique_path(free), free);
    let taken = unique_path("/proc");
    assert_eq!(taken, "/proc (1)");
}

#[test]
fn pick_unique_takes_the_first_free_name() {
    let mut taken = vec![false; 10000];
    assert_eq!(pick_unique("dir/foo.mp4", &taken), "dir/foo.mp4");
    taken[0] = true;
    taken[1] = true;
    assert_eq!(pick_unique("dir/foo.mp4", &taken), "dir/foo (2).mp4");
    assert_eq!(pick_unique("dir/foo", &taken), "dir/foo (2)");
    let all = vec![true; 10000];
    assert_eq!(pick_unique("dir/foo.mp4", &all), "dir/foo.mp4");
}

fn vars_of(pairs: &[(&str, &str)]) -> Vec<(String, String)> {
    pairs.iter().map(|(k, v)| (k.to_string(), v.to_string())).collect()
}

#[test]
fn test_basic_pattern() {
    let vars = vars_of(&[("title", "测试视频"), ("bvid", "BV1xx411c7mD")]);
    let out = render("{title} - {bvid}.mp4", &vars).unwrap();
    assert!(out.contains("测试视频"));
    assert!(out.contains("BV1xx411c7mD"));
    assert!(out.contains(".mp4"));
    assert_eq!(out, "测试视频 - BV1xx411c7mD.mp4");
}

#[test]
fn test_default_pattern() {
    let vars = vars_of(&[("title", "标题"), ("p_title", "第一集")]);
    let out = render(DEFAULT_PATTERN, &vars).unwrap();
    assert!(out.contains("标题"));
    assert!(out.contains("第一集"));
    assert_eq!(out, "标题/第一集");
}

#[test]
fn test_render_path() {
    let vars = vars_of(&[("title", "abc")]);
    let path = render_path("{title}/v", &vars, "mp4").unwrap();
    assert_eq!(path, "abc/v.mp4");
}

#[test]
fn render_refuses_unbound_names_and_bad_templates() {
    let vars = vars_of(&[("title", "abc")]);
    assert_eq!(render("{missing}", &vars), Err(TemplateError::Render));
    assert_eq!(render("{% if %}", &vars), Err(TemplateError::Render));
    assert_eq!(render_path("{title}", &vars, "a/b"), Err(TemplateError::BadExtension));
    let later = vars_of(&[("title", "old"), ("title", "new")]);
    assert_eq!(render("{title}", &later).unwrap(), "new");
}
