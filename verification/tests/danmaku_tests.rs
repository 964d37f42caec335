use rbd::danmaku::{
    effective_max_rows, elem_fields, mode_shown, parse_d_fields, rgb_to_ass_color, DanmakuElem,
    DanmakuMode,
};

#[test]
fn test_rgb_to_ass_color_pure_red() {
    assert_eq!(rgb_to_ass_color(0xFF0000), "0000FF");
}

#[test]
fn test_rgb_to_ass_color_pure_green() {
    assert_eq!(rgb_to_ass_color(0x00FF00), "00FF00");
}

#[test]
fn test_rgb_to_ass_color_pure_blue() {
    assert_eq!(rgb_to_ass_color(0x0000FF), "FF0000");
}

#[test]
fn test_rgb_to_ass_color_white() {
    assert_eq!(rgb_to_ass_color(0xFFFFFF), "FFFFFF");
}

#[test]
fn test_rgb_to_ass_color_black() {
    assert_eq!(rgb_to_ass_color(0x000000), "000000");
}

#[test]
fn test_mode_roundtrip() {
    let modes = [
        (DanmakuMode::Scroll, 1u8),
        (DanmakuMode::Bottom, 4),
        (DanmakuMode::Top, 5),
        (DanmakuMode::Reverse, 6),
        (DanmakuMode::Precise, 7),
        (DanmakuMode::Special, 8),
    ];
    for (mode, expected) in modes {
        assert_eq!(mode.as_u8(), expected);
        assert_eq!(DanmakuMode::from_u8(expected), mode);
    }
}

#[test]
fn test_unknown_mode_defaults_scroll() {
    assert_eq!(DanmakuMode::from_u8(0), DanmakuMode::Scroll);
    assert_eq!(DanmakuMode::from_u8(99), DanmakuMode::Scroll);
    assert_eq!(DanmakuMode::from_u8(2), DanmakuMode::Scroll);
    assert_eq!(DanmakuMode::from_u8(3), DanmakuMode::Scroll);
}

#[test]
fn test_effective_max_rows_1080p() {
    let rows = effective_max_rows(None, 25, 4, 1080);
    assert!(rows >= 36);
    assert!(rows <= 38);
}

#[test]
fn test_effective_max_rows_720p() {
    let rows = effective_max_rows(None, 25, 4, 720);
    assert!(rows >= 24);
    assert!(rows <= 25);
}

#[test]
fn test_effective_max_rows_custom() {
    assert_eq!(effective_max_rows(Some(5), 25, 4, 1080), 5);
}

#[test]
fn test_effective_max_rows_zero_height() {
    assert_eq!(effective_max_rows(None, 0, 0, 1080), 12);
}

#[test]
fn rows_exact_values() {
    assert_eq!(effective_max_rows(None, 25, 4, 1080), 37);
    assert_eq!(effective_max_rows(None, 25, 4, 10), 1);
}

#[test]
fn modes_shown_by_switch_and_block_list() {
    assert!(mode_shown(1, true, true, true, &[]));
    assert!(!mode_shown(1, false, true, true, &[]));
    assert!(!mode_shown(5, true, false, true, &[]));
    assert!(!mode_shown(4, true, true, false, &[]));
    assert!(mode_shown(7, false, false, false, &[]));
    assert!(!mode_shown(7, true, true, true, &[DanmakuMode::Precise]));
    assert!(!mode_shown(42, true, true, true, &[DanmakuMode::Scroll]));
}

#[test]
fn d_attribute_fields() {
    let d = parse_d_fields("12.5,1,25,16777215,1700000000,0,123456,789").unwrap();
    assert_eq!(d.time_text, "12.5");
    assert_eq!(d.mode, 1);
    assert_eq!(d.font_size, 25);
    assert_eq!(d.color, 16777215);
    assert_eq!(d.sender_id, 123456);
    assert_eq!(d.id, 789);
    assert!(parse_d_fields("1,2,3").is_none());
    assert!(parse_d_fields("1,256,25,0,0,0,0,0").is_none());
    assert!(parse_d_fields("1,1,25,0,0,0,x,0").is_none());
    assert!(parse_d_fields("1,1,25,0,0,0,0,0,extra").is_some());
}

#[test]
fn protobuf_elem_fields() {
    let e = DanmakuElem {
        id: -1,
        progress: 1500,
        mode: 300,
        fontsize: -4,
        color: 0x1_00FF_FFFF,
        mid_hash: "abc".to_string(),
        content: "hi".to_string(),
        ..Default::default()
    };
    let f = elem_fields(&e);
    assert_eq!(f.id, u64::MAX);
    assert_eq!(f.progress_ms, 1500);
    assert_eq!(f.mode, 255);
    assert_eq!(f.font_size, 0);
    assert_eq!(f.color, 0x00FF_FFFF);
    assert_eq!(f.sender_id, 0);
    assert_eq!(f.content, "hi");
    let g = elem_fields(&DanmakuElem { mid_hash: "42".to_string(), mode: 5, ..Default::default() });
    assert_eq!(g.sender_id, 42);
    assert_eq!(g.mode, 5);
}
