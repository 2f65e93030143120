use card_transfer::command::{
    block_payload, confirm_written, end_read, require_valid_context, try_begin_read,
};
use card_transfer::error::{
    ReaderError, CARD_NOT_AUTHENTICATED, CARD_UNSUPPORTED, INVALID_HANDLE, INVALID_PARAMETER,
    INVALID_VALUE, SERVER_TOO_BUSY,
};
use card_transfer::reader::{select_reader, validate_reader_name};

fn pair(name: &str, value: &str) -> (String, String) {
    (name.to_string(), value.to_string())
}

#[test]
fn status_codes_of_the_driver() {
    assert_eq!(INVALID_HANDLE, 0x8010_0003);
    assert_eq!(INVALID_PARAMETER, 0x8010_0004);
    assert_eq!(INVALID_VALUE, 0x8010_0011);
    assert_eq!(CARD_UNSUPPORTED, 0x8010_001C);
    assert_eq!(SERVER_TOO_BUSY, 0x8010_0031);
    assert_eq!(CARD_NOT_AUTHENTICATED, 0x8010_006F);
}

#[test]
fn first_supported_reader_is_chosen() {
    let names = vec![b"ACS ACR122U PICC Interface 00 00".to_vec(), b"Other".to_vec()];
    assert_eq!(select_reader(&names), Ok("ACS ACR122U PICC Interface 00 00".to_string()));
    assert_eq!(select_reader(&vec![b"ACR122".to_vec()]), Ok("ACR122".to_string()));
    assert_eq!(select_reader(&vec![b"xxACR122".to_vec()]), Ok("xxACR122".to_string()));
}

#[test]
fn no_reader_listed() {
    assert_eq!(select_reader(&vec![]), Err(ReaderError::NoReadersFound));
}

#[test]
fn only_the_first_reader_counts() {
    let names = vec![b"Generic Reader 00".to_vec(), b"ACS ACR122U PICC Interface".to_vec()];
    assert_eq!(
        select_reader(&names),
        Err(ReaderError::UnsupportedReader("Generic Reader 00".to_string()))
    );
}

#[test]
fn reader_of_another_family_is_refused() {
    for name in ["ACR12", "ACR 122", "acr122", "", "ACR1222".get(1..).unwrap()] {
        assert_eq!(
            select_reader(&vec![name.as_bytes().to_vec()]),
            Err(ReaderError::UnsupportedReader(name.to_string()))
        );
    }
}

#[test]
fn reader_name_that_is_not_text_is_refused() {
    let names = vec![vec![0x41, 0x43, 0x52, 0x31, 0x32, 0x32, 0xFF]];
    assert_eq!(
        select_reader(&names),
        Err(ReaderError::UnsupportedReader("Invalid reader name".to_string()))
    );
}

#[test]
fn reader_name_in_other_script_is_kept() {
    let name = "Leitor ACR122 \u{00e9}\u{4e2d}";
    assert_eq!(select_reader(&vec![name.as_bytes().to_vec()]), Ok(name.to_string()));
}

#[test]
fn reader_name_must_hold_no_zero_byte() {
    assert_eq!(validate_reader_name("ACS ACR122U"), Ok(()));
    assert_eq!(validate_reader_name(""), Ok(()));
    assert_eq!(
        validate_reader_name("ACS\0ACR122U"),
        Err(ReaderError::UnsupportedReader("Invalid reader name".to_string()))
    );
}

#[test]
fn error_text() {
    assert_eq!(
        ReaderError::UnsupportedReader("Generic".to_string()).to_text(""),
        "Unsupported reader: Generic"
    );
    assert_eq!(
        ReaderError::PcscError(INVALID_HANDLE).to_text("Invalid handle"),
        "PCSC error: Invalid handle"
    );
    assert_eq!(ReaderError::NoReadersFound.to_text("unused"), "No readers found");
    assert_eq!(
        ReaderError::CardError("Read failed.".to_string(), INVALID_PARAMETER)
            .to_text("Invalid parameter"),
        "Card error: Read failed., Invalid parameter"
    );
    assert_eq!(
        ReaderError::OperationCancelled("Read Card".to_string()).to_text(""),
        "Operation cancelled: Read Card"
    );
}

#[test]
fn error_labels() {
    assert_eq!(ReaderError::UnsupportedReader(String::new()).label(), "Unsupported Reader");
    assert_eq!(ReaderError::PcscError(0).label(), "PCSC Error");
    assert_eq!(ReaderError::NoReadersFound.label(), "No Readers Found");
    assert_eq!(ReaderError::CardError(String::new(), 0).label(), "Card Error");
    assert_eq!(ReaderError::OperationCancelled(String::new()).label(), "Operation Cancelled");
}

#[test]
fn error_records() {
    assert_eq!(
        ReaderError::UnsupportedReader("Generic".to_string()).fields("x"),
        vec![pair("error", "Unsupported Reader"), pair("reader", "Generic")]
    );
    assert_eq!(
        ReaderError::PcscError(INVALID_HANDLE).fields("Invalid handle"),
        vec![pair("error", "PCSC Error"), pair("message", "Invalid handle")]
    );
    assert_eq!(ReaderError::NoReadersFound.fields("x"), vec![pair("error", "No Readers Found")]);
    assert_eq!(
        ReaderError::CardError("Read failed.".to_string(), INVALID_PARAMETER)
            .fields("Invalid parameter"),
        vec![
            pair("error", "Card Error"),
            pair("card", "Read failed."),
            pair("message", "Invalid parameter"),
        ]
    );
    assert_eq!(
        ReaderError::OperationCancelled("Read Card".to_string()).fields("x"),
        vec![pair("error", "Operation Cancelled"), pair("operation", "Read Card")]
    );
}

#[test]
fn error_codes() {
    assert_eq!(ReaderError::PcscError(7).code(), Some(7));
    assert_eq!(ReaderError::CardError("x".to_string(), 9).code(), Some(9));
    assert_eq!(ReaderError::NoReadersFound.code(), None);
    assert_eq!(ReaderError::UnsupportedReader("x".to_string()).code(), None);
    assert_eq!(ReaderError::OperationCancelled("x".to_string()).code(), None);
}

#[test]
fn driver_code_becomes_driver_error() {
    assert_eq!(ReaderError::from(INVALID_HANDLE), ReaderError::PcscError(INVALID_HANDLE));
    let converted: ReaderError = 0x8010_0069u32.into();
    assert_eq!(converted, ReaderError::PcscError(0x8010_0069));
}

#[test]
fn error_copies_are_equal() {
    let errors = vec![
        ReaderError::UnsupportedReader("Generic".to_string()),
        ReaderError::PcscError(3),
        ReaderError::NoReadersFound,
        ReaderError::CardError("Read failed.".to_string(), 4),
        ReaderError::OperationCancelled("Read Card".to_string()),
    ];
    for error in errors {
        assert_eq!(error.duplicate(), error);
    }
}

#[test]
fn card_error_constructor() {
    assert_eq!(
        ReaderError::card("Read failed.", INVALID_PARAMETER),
        ReaderError::CardError("Read failed.".to_string(), INVALID_PARAMETER)
    );
}

#[test]
fn text_becomes_a_block_of_sixteen() {
    let mut expected = b"Hello, World!".to_vec();
    expected.extend_from_slice(&[0, 0, 0]);
    assert_eq!(block_payload(b"Hello, World!"), expected);
    assert_eq!(block_payload(b""), vec![0u8; 16]);
    assert_eq!(block_payload(b"0123456789abcdef"), b"0123456789abcdef".to_vec());
    assert_eq!(block_payload(b"0123456789abcdefXYZ"), b"0123456789abcdef".to_vec());
}

#[test]
fn one_read_at_a_time() {
    let mut in_progress = false;
    assert_eq!(try_begin_read(&mut in_progress), Ok(()));
    assert!(in_progress);
    assert_eq!(
        try_begin_read(&mut in_progress),
        Err(ReaderError::CardError("Read already in progress.".to_string(), SERVER_TOO_BUSY))
    );
    assert!(in_progress);
    end_read(&mut in_progress);
    assert!(!in_progress);
    assert_eq!(try_begin_read(&mut in_progress), Ok(()));
}

#[test]
fn invalid_context_is_an_invalid_handle() {
    assert_eq!(require_valid_context(true), Ok(()));
    assert_eq!(require_valid_context(false), Err(ReaderError::PcscError(INVALID_HANDLE)));
}

#[test]
fn write_that_did_not_write_has_failed() {
    assert_eq!(confirm_written(true), Ok(()));
    assert_eq!(
        confirm_written(false),
        Err(ReaderError::CardError("Write failed.".to_string(), CARD_NOT_AUTHENTICATED))
    );
}
