use card_transfer::apdu::{
    check_authentication, check_write_response, classify, parse_read_response, status_word,
    CardKind, KeyType,
};
use card_transfer::error::{
    ReaderError, CARD_NOT_AUTHENTICATED, CARD_UNSUPPORTED, INVALID_PARAMETER, INVALID_VALUE,
};

fn card_error(message: &str, code: u32) -> ReaderError {
    ReaderError::CardError(message.to_string(), code)
}

#[test]
fn key_type_codes() {
    assert_eq!(KeyType::A.code(), 0x60);
    assert_eq!(KeyType::B.code(), 0x61);
}

#[test]
fn status_word_is_big_endian_tail() {
    assert_eq!(status_word(&[0x01, 0x02, 0x90, 0x00]), Some(0x9000));
    assert_eq!(status_word(&[0x63, 0x00]), Some(0x6300));
    assert_eq!(status_word(&[0x12, 0x34, 0x56]), Some(0x3456));
}

#[test]
fn status_word_needs_two_bytes() {
    assert_eq!(status_word(&[]), None);
    assert_eq!(status_word(&[0x90]), None);
}

#[test]
fn classify_accepts_supported_prefix() {
    let atr = [
        0x3B, 0x8F, 0x80, 0x01, 0x80, 0x4F, 0x0C, 0xA0, 0x00, 0x00, 0x03, 0x06, 0x03, 0x00, 0x01,
        0x00, 0x00, 0x00, 0x00, 0x6A,
    ];
    assert_eq!(classify(&atr), Ok(CardKind::Supported));
    assert_eq!(classify(&[0x3B, 0x8F, 0x80, 0x01, 0x80, 0x4F]), Ok(CardKind::Supported));
}

#[test]
fn classify_refuses_other_cards() {
    let unsupported = card_error("Unsupported card type.", CARD_UNSUPPORTED);
    assert_eq!(classify(&[0x3B, 0x8F, 0x80, 0x01, 0x80, 0x50, 0x0C]), Err(unsupported.clone()));
    assert_eq!(classify(&[0x3B, 0x8F, 0x80, 0x01, 0x80]), Err(unsupported.clone()));
    assert_eq!(classify(&[]), Err(unsupported.clone()));
    assert_eq!(classify(&[0x00, 0x3B, 0x8F, 0x80, 0x01, 0x80, 0x4F]), Err(unsupported));
}

#[test]
fn authentication_accepts_success_status() {
    assert_eq!(check_authentication(&[0x90, 0x00]), Ok(()));
    assert_eq!(check_authentication(&[0xAA, 0x90, 0x00]), Ok(()));
}

#[test]
fn authentication_refuses_other_status() {
    assert_eq!(
        check_authentication(&[0x63, 0x00]),
        Err(card_error("Authentication Failed.", CARD_NOT_AUTHENTICATED))
    );
    assert_eq!(
        check_authentication(&[0x90, 0x01]),
        Err(card_error("Authentication Failed.", CARD_NOT_AUTHENTICATED))
    );
}

#[test]
fn authentication_refuses_short_response() {
    assert_eq!(
        check_authentication(&[0x90]),
        Err(card_error("Invalid response.", CARD_NOT_AUTHENTICATED))
    );
    assert_eq!(
        check_authentication(&[]),
        Err(card_error("Invalid response.", CARD_NOT_AUTHENTICATED))
    );
}

#[test]
fn read_response_strips_status_word() {
    assert_eq!(parse_read_response(&[1, 2, 3, 4, 0x90, 0x00]), Ok(vec![1, 2, 3, 4]));
    assert_eq!(parse_read_response(&[0x90, 0x00]), Ok(vec![]));
}

#[test]
fn read_response_with_other_status_fails() {
    assert_eq!(
        parse_read_response(&[1, 2, 3, 4, 0x63, 0x00]),
        Err(card_error("Read failed.", INVALID_PARAMETER))
    );
    assert_eq!(
        parse_read_response(&[1, 2, 3, 4, 0x90, 0x01]),
        Err(card_error("Read failed.", INVALID_PARAMETER))
    );
    assert_eq!(
        parse_read_response(&[0x00, 0x90]),
        Err(card_error("Read failed.", INVALID_PARAMETER))
    );
}

#[test]
fn read_response_too_short_is_invalid() {
    assert_eq!(
        parse_read_response(&[0x90]),
        Err(card_error("Invalid response.", INVALID_PARAMETER))
    );
    assert_eq!(parse_read_response(&[]), Err(card_error("Invalid response.", INVALID_PARAMETER)));
}

#[test]
fn write_response_success() {
    assert_eq!(check_write_response(&[0x90, 0x00]), Ok(true));
}

#[test]
fn write_response_reports_status_in_decimal() {
    assert_eq!(
        check_write_response(&[0x69, 0x82]),
        Err(card_error("Write failed with code: 27010", INVALID_PARAMETER))
    );
    assert_eq!(
        check_write_response(&[0x63, 0x00]),
        Err(card_error("Write failed with code: 25344", INVALID_PARAMETER))
    );
    assert_eq!(
        check_write_response(&[0x00, 0x00]),
        Err(card_error("Write failed with code: 0", INVALID_PARAMETER))
    );
    assert_eq!(
        check_write_response(&[0x00, 0x07]),
        Err(card_error("Write failed with code: 7", INVALID_PARAMETER))
    );
    assert_eq!(
        check_write_response(&[0xFF, 0xFF]),
        Err(card_error("Write failed with code: 65535", INVALID_PARAMETER))
    );
    assert_eq!(
        check_write_response(&[0x03, 0xE8]),
        Err(card_error("Write failed with code: 1000", INVALID_PARAMETER))
    );
}

#[test]
fn write_response_too_short_is_invalid() {
    assert_eq!(
        check_write_response(&[0x90]),
        Err(card_error("Invalid response length.", INVALID_VALUE))
    );
    assert_eq!(
        check_write_response(&[]),
        Err(card_error("Invalid response length.", INVALID_VALUE))
    );
}
