use dnet_p2p::config::{parse_u64, setting_or};

#[test]
fn parse_plain_numbers() {
    assert_eq!(parse_u64("0"), Some(0));
    assert_eq!(parse_u64("42"), Some(42));
    assert_eq!(parse_u64("007"), Some(7));
    assert_eq!(parse_u64("+15"), Some(15));
    assert_eq!(parse_u64("18446744073709551615"), Some(u64::MAX));
}

#[test]
fn parse_rejects_like_std() {
    for s in ["", "+", "-", "-1", "1.5", " 1", "1 ", "abc", "18446744073709551616", "99999999999999999999", "++1", "٣"] {
        assert_eq!(parse_u64(s), s.parse::<u64>().ok(), "input {:?}", s);
        assert_eq!(parse_u64(s), None);
    }
}

#[test]
fn parse_agrees_with_std() {
    for s in ["1", "+0", "10", "65535", "4294967296", "1844674407370955161"] {
        assert_eq!(parse_u64(s), s.parse::<u64>().ok(), "input {:?}", s);
    }
}

#[test]
fn settings_fall_back_to_default() {
    assert_eq!(setting_or(None, 3), 3);
    assert_eq!(setting_or(Some("x"), 3), 3);
    assert_eq!(setting_or(Some("12"), 3), 12);
}
