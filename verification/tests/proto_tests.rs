use rbd::proto::ApiMode;

#[test]
fn test_api_mode_roundtrip() {
    for mode in [ApiMode::Web, ApiMode::App, ApiMode::Tv, ApiMode::Intl, ApiMode::Auto] {
        assert_eq!(ApiMode::parse(mode.as_str()), mode);
    }
}

#[test]
fn test_api_mode_case_insensitive() {
    assert_eq!(ApiMode::parse("WEB"), ApiMode::Web);
    assert_eq!(ApiMode::parse("App"), ApiMode::App);
}

#[test]
fn test_api_mode_unknown_defaults_auto() {
    assert_eq!(ApiMode::parse("xyz"), ApiMode::Auto);
    assert_eq!(ApiMode::parse(""), ApiMode::Auto);
}

#[test]
fn api_mode_default_is_web() {
    assert_eq!(ApiMode::default(), ApiMode::Web);
    assert_eq!(ApiMode::parse("iNtL"), ApiMode::Intl);
}
