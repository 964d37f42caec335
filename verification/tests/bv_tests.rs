use rbd::bv::{av_to_bv, bv_to_av, validate_bv, BvError};

#[test]
fn test_known_cases() {
    assert_eq!(av_to_bv(170001).unwrap(), "BV17x411w7KC");
    assert_eq!(bv_to_av("BV17x411w7KC").unwrap(), 170001);
    assert_eq!(av_to_bv(4567890).unwrap(), "BV1gs411B7Mu");
    assert_eq!(bv_to_av("BV1gs411B7Mu").unwrap(), 4567890);
}

#[test]
fn test_round_trip() {
    for av in [1, 100, 10000, 999999, 1000000, 100000000] {
        let bv = av_to_bv(av).unwrap();
        let back = bv_to_av(&bv).unwrap();
        assert_eq!(av, back, "round-trip failed for {av}");
    }
}

#[test]
fn test_validate() {
    assert!(validate_bv("BV17x411w7KC").is_ok());
    assert!(validate_bv("BV1xx").is_err());
    assert!(validate_bv("XX17x411w7KC").is_err());
}

#[test]
fn test_bv_av_conversion_consistency() {
    let cases: Vec<(u64, &str)> = vec![(170001, "BV17x411w7KC"), (4567890, "BV1gs411B7Mu")];
    for (av, expected_bv) in cases {
        let bv = av_to_bv(av).unwrap();
        assert_eq!(bv, expected_bv, "av{av} -> {bv}, expected {expected_bv}");
    }
}

#[test]
fn av_bounds_are_refused() {
    assert_eq!(av_to_bv(0), Err(BvError::AvTooSmall));
    assert_eq!(av_to_bv(1u64 << 51), Err(BvError::AvTooLarge));
    assert!(av_to_bv((1u64 << 51) - 1).is_ok());
}

#[test]
fn round_trip_at_the_largest_av() {
    let av = (1u64 << 51) - 1;
    let bv = av_to_bv(av).unwrap();
    assert_eq!(bv_to_av(&bv).unwrap(), av);
}

#[test]
fn validate_reports_each_rule() {
    assert_eq!(validate_bv("BV1xx"), Err(BvError::BadLength));
    assert_eq!(validate_bv("XX17x411w7KC"), Err(BvError::BadPrefix));
    assert_eq!(validate_bv("BV17x411w7K0"), Err(BvError::BadChar));
    assert_eq!(bv_to_av("BV17x411w7K0"), Err(BvError::BadChar));
}

#[test]
fn bv_numbers_are_counted_in_characters() {
    // 11 characters, 12 bytes: one character too few.
    assert_eq!(validate_bv("BV17x411w7\u{e9}"), Err(BvError::BadLength));
    // 12 characters, one of them outside the table (its low byte is `F`).
    assert_eq!(validate_bv("BV17x411w7K\u{146}"), Err(BvError::BadChar));
    assert_eq!(bv_to_av("BV17x411w7K\u{146}"), Err(BvError::BadChar));
    assert_eq!(bv_to_av("BV17x411w7KC"), Ok(170001));
}
