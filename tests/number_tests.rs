use feedwatch::notify::Icon;
use feedwatch::number::{parse_fixed, parse_u32, read_u32, Fixed, IntErrorKind};

#[test]
fn unsigned_numbers() {
    assert_eq!(parse_u32("123"), Some(123));
    assert_eq!(parse_u32("+5"), Some(5));
    assert_eq!(parse_u32("0"), Some(0));
    assert_eq!(parse_u32("4294967295"), Some(4294967295));
    assert_eq!(parse_u32("4294967296"), None);
    assert_eq!(parse_u32(""), None);
    assert_eq!(parse_u32("+"), None);
    assert_eq!(parse_u32("-1"), None);
    assert_eq!(parse_u32("12 "), None);
}

#[test]
fn fixed_point_numbers() {
    assert_eq!(parse_fixed("0.005"), Some(Fixed::from_micros(5_000)));
    assert_eq!(parse_fixed("100"), Some(Fixed::from_micros(100_000_000)));
    assert_eq!(parse_fixed("-2.5"), Some(Fixed::from_micros(-2_500_000)));
    assert_eq!(parse_fixed(".5"), Some(Fixed::from_micros(500_000)));
    assert_eq!(parse_fixed("3."), Some(Fixed::from_micros(3_000_000)));
    assert_eq!(parse_fixed("0.0075"), Some(Fixed::from_micros(7_500)));
    assert_eq!(parse_fixed("1.2345678"), Some(Fixed::from_micros(1_234_568)));
    assert_eq!(parse_fixed("1.2345674"), Some(Fixed::from_micros(1_234_567)));
    assert_eq!(parse_fixed("1.0000005"), Some(Fixed::from_micros(1_000_001)));
    assert_eq!(parse_fixed("-0.0000005"), Some(Fixed::from_micros(-1)));
    assert_eq!(parse_fixed("1e3"), Some(Fixed::from_micros(1_000_000_000)));
    assert_eq!(parse_fixed("2.5e-3"), Some(Fixed::from_micros(2_500)));
    assert_eq!(parse_fixed("25E+1"), Some(Fixed::from_micros(250_000_000)));
    assert_eq!(parse_fixed("1e-9"), Some(Fixed::from_micros(0)));
    assert_eq!(parse_fixed("1e100"), None);
    assert_eq!(parse_fixed("5e"), None);
    assert_eq!(parse_fixed("e5"), None);
    assert_eq!(parse_fixed("1e13"), None);
    assert_eq!(parse_fixed("."), None);
    assert_eq!(parse_fixed(""), None);
    assert_eq!(parse_fixed("1.2.3"), None);
}

#[test]
fn clamping() {
    let min = Fixed::from_micros(1_000_000);
    assert_eq!(Fixed::from_micros(5).at_least(min), min);
    assert_eq!(Fixed::from_micros(1_000_000).at_least(min), min);
    assert_eq!(Fixed::from_micros(2_000_000).at_least(min), Fixed::from_micros(2_000_000));
}

#[test]
fn icon_names() {
    assert_eq!(Icon::Update.get_name(), "emblem-sound");
    assert_eq!(Icon::Error.get_name(), "dialog-error");
}

use feedwatch::feed::{Feed, State};
use feedwatch::notify::{update_body, update_title};

fn notice_feed(alert: Option<&str>) -> Feed {
    Feed {
        id: 4021,
        name: "County Fire".to_string(),
        listeners: 250,
        state: State::new(7, "XX".to_string()),
        county: "Numerous".to_string(),
        alert: alert.map(|a| a.to_string()),
    }
}

#[test]
fn notice_title() {
    assert_eq!(update_title(2, 10, &notice_feed(None)), "XX - Broadcastify Update (2 of 10)");
    assert_eq!(update_title(-1, 0, &notice_feed(None)), "XX - Broadcastify Update (-1 of 0)");
}

#[test]
fn notice_body() {
    assert_eq!(
        update_body(&notice_feed(None), 35),
        "Name: County Fire\nListeners: 250 (^35)\nLink: http://broadcastify.com/listen/feed/4021"
    );
    assert_eq!(
        update_body(&notice_feed(Some("Storm")), -3),
        "Name: County Fire\nListeners: 250 (^-3)\nAlert: Storm\nLink: http://broadcastify.com/listen/feed/4021"
    );
}

#[test]
fn unsigned_number_faults() {
    assert_eq!(read_u32("42"), Ok(42));
    assert_eq!(read_u32(""), Err(IntErrorKind::Empty));
    assert_eq!(read_u32("+"), Err(IntErrorKind::InvalidDigit));
    assert_eq!(read_u32("4x"), Err(IntErrorKind::InvalidDigit));
    assert_eq!(read_u32("-3"), Err(IntErrorKind::InvalidDigit));
    assert_eq!(read_u32("99999999999"), Err(IntErrorKind::PosOverflow));
    assert_eq!(read_u32("99999999999x"), Err(IntErrorKind::PosOverflow));
    for text in ["", "+", "4x", "99999999999", "99999999999x", "+7", "0012", "-0"] {
        let theirs = text.parse::<u32>().map_err(|e| match e.kind() {
            std::num::IntErrorKind::Empty => IntErrorKind::Empty,
            std::num::IntErrorKind::PosOverflow => IntErrorKind::PosOverflow,
            _ => IntErrorKind::InvalidDigit,
        });
        assert_eq!(read_u32(text), theirs, "{}", text);
    }
}
