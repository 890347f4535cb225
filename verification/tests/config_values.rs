use rusty_panel::config::{ButtonConfig, ConfigError, ConfigErrorKind, DeviceConfig};

fn button_with_range(range: Option<&str>) -> ButtonConfig {
    ButtonConfig { id: 0, on_click: None, on_rotate: None, range: range.map(String::from) }
}

fn color(text: &str) -> Result<(u8, u8, u8), ConfigError> {
    DeviceConfig { color: text.to_string() }.parse_color()
}

fn rejected(kind: ConfigErrorKind, value: &str) -> ConfigError {
    ConfigError { kind, value: value.to_string() }
}

#[test]
fn range_defaults_to_zero_to_hundred() {
    assert_eq!(button_with_range(None).parse_min_max(), Ok((0, 100)));
    assert_eq!(button_with_range(None).parse_range_offset(), Ok((100, 0)));
}

#[test]
fn range_of_one_number_starts_at_zero() {
    assert_eq!(button_with_range(Some("100")).parse_min_max(), Ok((0, 100)));
    assert_eq!(button_with_range(Some("0")).parse_min_max(), Ok((0, 0)));
    assert_eq!(button_with_range(Some("65535")).parse_min_max(), Ok((0, 65535)));
    assert_eq!(button_with_range(Some("007")).parse_min_max(), Ok((0, 7)));
}

#[test]
fn range_of_two_numbers_gives_both_bounds() {
    assert_eq!(button_with_range(Some("5-10")).parse_min_max(), Ok((5, 10)));
    assert_eq!(button_with_range(Some("7-7")).parse_min_max(), Ok((7, 7)));
    assert_eq!(button_with_range(Some("0-65535")).parse_min_max(), Ok((0, 65535)));
}

#[test]
fn range_accepts_a_plus_sign_before_a_number() {
    assert_eq!(button_with_range(Some("+5")).parse_min_max(), Ok((0, 5)));
    assert_eq!(button_with_range(Some("+5-+7")).parse_min_max(), Ok((5, 7)));
}

#[test]
fn range_offset_is_width_and_start() {
    assert_eq!(button_with_range(Some("5-10")).parse_range_offset(), Ok((5, 5)));
    assert_eq!(button_with_range(Some("20")).parse_range_offset(), Ok((20, 0)));
    assert_eq!(button_with_range(Some("100-65535")).parse_range_offset(), Ok((65435, 100)));
}

#[test]
fn inverted_range_is_rejected() {
    assert_eq!(
        button_with_range(Some("10-5")).parse_min_max(),
        Err(rejected(ConfigErrorKind::RangeInverted, "10-5"))
    );
    assert_eq!(
        button_with_range(Some("10-5")).parse_range_offset(),
        Err(rejected(ConfigErrorKind::RangeInverted, "10-5"))
    );
}

#[test]
fn range_with_too_many_parts_is_rejected() {
    assert_eq!(
        button_with_range(Some("1-2-3")).parse_min_max(),
        Err(rejected(ConfigErrorKind::RangeFormat, "1-2-3"))
    );
    assert_eq!(
        button_with_range(Some("--")).parse_min_max(),
        Err(rejected(ConfigErrorKind::RangeFormat, "--"))
    );
}

#[test]
fn range_with_a_bad_number_is_rejected() {
    for text in ["abc", "", "-5", "5-", "+", "65536", "1-99999", "1 - 2", "١٢"] {
        assert_eq!(
            button_with_range(Some(text)).parse_min_max(),
            Err(rejected(ConfigErrorKind::RangeNumber, text)),
            "range {:?}",
            text
        );
    }
}

#[test]
fn six_digit_color_gives_its_bytes() {
    assert_eq!(color("#FF8000"), Ok((255, 128, 0)));
    assert_eq!(color("ff8000"), Ok((255, 128, 0)));
    assert_eq!(color("#000000"), Ok((0, 0, 0)));
    assert_eq!(color("#12aBcD"), Ok((0x12, 0xab, 0xcd)));
    assert_eq!(color("##FFFFFF"), Ok((255, 255, 255)));
}

#[test]
fn half_alpha_premultiplies() {
    assert_eq!(color("#00FF0080"), Ok((0, 128, 0)));
}

#[test]
fn alpha_scales_each_channel_rounding_down() {
    assert_eq!(color("#FFFFFFFF"), Ok((255, 255, 255)));
    assert_eq!(color("#FFFFFF00"), Ok((0, 0, 0)));
    assert_eq!(color("#FF800040"), Ok((64, 32, 0)));
    assert_eq!(color("#0A0B0C7F"), Ok((4, 5, 5)));
}

#[test]
fn plus_sign_is_no_hex_digit() {
    for text in ["#+F+0+A", "#+1+2+3", "+1+2+3", "#FFFFFF+F", "#F+F+F+"] {
        assert_eq!(color(text), Err(rejected(ConfigErrorKind::ColorDigits, text)), "{:?}", text);
    }
}

#[test]
fn color_of_wrong_length_is_rejected() {
    for text in ["", "#", "#FFF", "#FFFFF", "#FFFFFFF", "#FFFFFFFFF", "red"] {
        assert_eq!(color(text), Err(rejected(ConfigErrorKind::ColorFormat, text)), "{:?}", text);
    }
}

#[test]
fn color_with_bad_digits_is_rejected() {
    for text in ["#GGGGGG", "#FF80 0", "#-10000", "#FFFFFFZZ", "#F+0000", "FFFFF#"] {
        assert_eq!(color(text), Err(rejected(ConfigErrorKind::ColorDigits, text)), "{:?}", text);
    }
}

#[test]
fn messages_name_the_rejected_text() {
    assert_eq!(
        rejected(ConfigErrorKind::ColorFormat, "#FFF").message(),
        "Invalid color format: #FFF"
    );
    assert_eq!(
        rejected(ConfigErrorKind::ColorDigits, "#GGGGGG").message(),
        "Invalid color digits: #GGGGGG"
    );
    assert_eq!(
        rejected(ConfigErrorKind::RangeFormat, "1-2-3").message(),
        "Invalid range format: 1-2-3"
    );
    assert_eq!(
        rejected(ConfigErrorKind::RangeNumber, "abc").message(),
        "Invalid range number: abc"
    );
    assert_eq!(
        rejected(ConfigErrorKind::RangeInverted, "10-5").message(),
        "Invalid range order: 10-5"
    );
    let e = ConfigError::new(ConfigErrorKind::RangeNumber, &"x".to_string());
    assert_eq!(e, rejected(ConfigErrorKind::RangeNumber, "x"));
}

#[test]
fn color_length_counts_bytes() {
    for text in ["#\u{e9}12345", "#12345\u{e9}", "\u{e9}\u{e9}\u{e9}\u{e9}\u{e9}\u{e9}", "#\u{1F600}"] {
        assert_eq!(color(text), Err(rejected(ConfigErrorKind::ColorFormat, text)), "{:?}", text);
    }
}

#[test]
fn color_beyond_ascii_is_rejected() {
    for text in ["#\u{e9}1234", "#1\u{e9}234", "#\u{e9}\u{e9}\u{e9}", "#\u{1F600}\u{1F600}", "FFFF\u{ff}"] {
        assert_eq!(color(text), Err(rejected(ConfigErrorKind::ColorDigits, text)), "{:?}", text);
    }
}
