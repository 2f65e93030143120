//! The byte framing of the three commands that the engine sends to a card,
//! the decoding of what comes back, and the test that recognises a supported
//! card by its answer to reset.

use vstd::prelude::*;
use crate::error::{
    ErrorView, ReaderError, CARD_NOT_AUTHENTICATED, CARD_UNSUPPORTED, INVALID_PARAMETER,
    INVALID_VALUE,
};
use crate::text::{decimal, push_decimal};

verus! {

/// The status word that a card puts at the end of a response to report
/// success.
pub const STATUS_SUCCESS: u16 = 0x9000;

/// The two key slots of a sector.
#[derive(Clone, Copy, Debug, PartialEq, Eq, Structural)]
pub enum KeyType {
    A,
    B,
}

impl KeyType {
    /// The key-type byte that the authentication command carries for this
    /// slot.
    pub open spec fn spec_code(self) -> u8 {
        match self {
            KeyType::A => 0x60u8,
            KeyType::B => 0x61u8,
        }
    }

    /// The key-type byte that the authentication command carries for this
    /// slot.
    pub fn code(self) -> (c: u8)
        ensures
            c == self.spec_code(),
    {
        match self {
            KeyType::A => 0x60u8,
            KeyType::B => 0x61u8,
        }
    }
}

/// What kind of card answered. Only one family is served.
#[derive(Clone, Copy, Debug, PartialEq, Eq, Structural)]
pub enum CardKind {
    /// A Mifare-Classic-style ISO 14443-3 card.
    Supported,
}

/// The bytes with which the answer to reset of a supported card begins.
pub open spec fn supported_atr_prefix() -> Seq<u8> {
    seq![0x3Bu8, 0x8Fu8, 0x80u8, 0x01u8, 0x80u8, 0x4Fu8]
}

/// Whether an answer to reset belongs to a supported card.
pub open spec fn is_supported_atr(atr: Seq<u8>) -> bool {
    supported_atr_prefix().is_prefix_of(atr)
}

/// The fault reported for a card of another family.
pub open spec fn unsupported_card_fault() -> ErrorView {
    ErrorView::CardError("Unsupported card type."@, CARD_UNSUPPORTED)
}

/// Classifies a card by its answer to reset: a card whose answer begins with
/// the supported prefix is served, any other is refused.
pub fn classify(atr: &[u8]) -> (r: Result<CardKind, ReaderError>)
    ensures
        match r {
            Ok(kind) => is_supported_atr(atr@),
            Err(e) => !is_supported_atr(atr@) && e@ == unsupported_card_fault(),
        },
{
    let prefix: [u8; 6] = [0x3B, 0x8F, 0x80, 0x01, 0x80, 0x4F];
    assert(prefix@ =~= supported_atr_prefix());
    if atr.len() < 6 {
        return Err(ReaderError::card("Unsupported card type.", CARD_UNSUPPORTED));
    }
    let mut k: usize = 0;
    while k < 6
        invariant
            k <= 6,
            atr@.len() >= 6,
            prefix@ == supported_atr_prefix(),
            forall|j: int| 0 <= j < k ==> atr@[j] == prefix@[j],
        decreases 6 - k,
    {
        if atr[k] != prefix[k] {
            assert(atr@.subrange(0, 6)[k as int] == atr@[k as int]);
            return Err(ReaderError::card("Unsupported card type.", CARD_UNSUPPORTED));
        }
        k += 1;
    }
    assert(atr@.subrange(0, 6) =~= supported_atr_prefix());
    Ok(CardKind::Supported)
}

/// The status word of a response: its last two bytes read as a big-endian
/// number. A response of fewer than two bytes has none.
pub open spec fn spec_status_word(response: Seq<u8>) -> Option<u16> {
    if response.len() >= 2 {
        Some((response[response.len() - 2] as int * 256 + response[response.len() - 1] as int) as u16)
    } else {
        None
    }
}

/// Whether a response ends in the success status word.
pub open spec fn is_success(response: Seq<u8>) -> bool {
    spec_status_word(response) == Some(STATUS_SUCCESS)
}

/// What a response carries in front of its status word.
pub open spec fn payload(response: Seq<u8>) -> Seq<u8>
    recommends
        response.len() >= 2,
{
    response.subrange(0, response.len() - 2)
}

/// The status word of a response, if it has one.
pub fn status_word(response: &[u8]) -> (r: Option<u16>)
    ensures
        r == spec_status_word(response@),
{
    let n = response.len();
    if n < 2 {
        None
    } else {
        let high: u16 = response[n - 2] as u16;
        let low: u16 = response[n - 1] as u16;
        Some(high * 256 + low)
    }
}

/// The command that authenticates the sector of `block` with the key in slot
/// zero of the reader, used as a key of the given type.
pub open spec fn authenticate_apdu(block: u8, key_type: KeyType) -> Seq<u8> {
    seq![
        0xFFu8,
        0x86u8,
        0x00u8,
        0x00u8,
        0x05u8,
        0x01u8,
        0x00u8,
        block,
        key_type.spec_code(),
        0x00u8,
    ]
}

/// The command that reads `length` bytes starting at `block`. The length
/// travels in one byte, so only its low eight bits are sent.
pub open spec fn read_apdu(block: u16, length: u16) -> Seq<u8> {
    seq![0xFFu8, 0xB0u8, (block / 256) as u8, (block % 256) as u8, (length % 256) as u8]
}

/// The command that writes `data` to `block`. Block number and block size
/// travel in one byte each, so only their low eight bits are sent.
pub open spec fn write_apdu(block: u16, block_size: u16, data: Seq<u8>) -> Seq<u8> {
    seq![0xFFu8, 0xD6u8, 0x00u8, (block % 256) as u8, (block_size % 256) as u8] + data
}

/// Builds the authentication command for `block`.
pub fn authenticate_command(block: u8, key_type: KeyType) -> (apdu: Vec<u8>)
    ensures
        apdu@ == authenticate_apdu(block, key_type),
{
    let apdu = vec![0xFFu8, 0x86u8, 0x00u8, 0x00u8, 0x05u8, 0x01u8, 0x00u8, block, key_type.code(), 0x00u8];
    assert(apdu@ =~= authenticate_apdu(block, key_type));
    apdu
}

/// Builds the read command for `length` bytes at `block`.
pub fn read_command(block: u16, length: u16) -> (apdu: Vec<u8>)
    ensures
        apdu@ == read_apdu(block, length),
{
    let apdu = vec![0xFFu8, 0xB0u8, (block / 256) as u8, (block % 256) as u8, (length % 256) as u8];
    assert(apdu@ =~= read_apdu(block, length));
    apdu
}

/// Builds the write command that stores `data` in `block`.
pub fn write_command(block: u16, block_size: u16, data: &[u8]) -> (apdu: Vec<u8>)
    ensures
        apdu@ == write_apdu(block, block_size, data@),
{
    let mut apdu = vec![0xFFu8, 0xD6u8, 0x00u8, (block % 256) as u8, (block_size % 256) as u8];
    let ghost header = apdu@;
    let mut k: usize = 0;
    while k < data.len()
        invariant
            k <= data@.len(),
            apdu@ == header + data@.subrange(0, k as int),
        decreases data@.len() - k,
    {
        apdu.push(data[k]);
        k += 1;
        assert(apdu@ =~= header + data@.subrange(0, k as int));
    }
    assert(data@.subrange(0, k as int) =~= data@);
    assert(apdu@ =~= write_apdu(block, block_size, data@));
    apdu
}

/// The fault that a response to the authentication command stands for, when
/// it does not report success.
pub open spec fn authentication_fault(response: Seq<u8>) -> ErrorView {
    if response.len() >= 2 {
        ErrorView::CardError("Authentication Failed."@, CARD_NOT_AUTHENTICATED)
    } else {
        ErrorView::CardError("Invalid response."@, CARD_NOT_AUTHENTICATED)
    }
}

/// The fault that a response to the read command stands for, when it does not
/// report success.
pub open spec fn read_fault(response: Seq<u8>) -> ErrorView {
    if response.len() >= 2 {
        ErrorView::CardError("Read failed."@, INVALID_PARAMETER)
    } else {
        ErrorView::CardError("Invalid response."@, INVALID_PARAMETER)
    }
}

/// The fault that a response to the write command stands for, when it does not
/// report success. A status word other than success is reported with its
/// decimal value.
pub open spec fn write_fault(response: Seq<u8>) -> ErrorView {
    match spec_status_word(response) {
        Some(status) => ErrorView::CardError(
            "Write failed with code: "@ + decimal(status as nat),
            INVALID_PARAMETER,
        ),
        None => ErrorView::CardError("Invalid response length."@, INVALID_VALUE),
    }
}

/// Decides whether the card accepted the authentication command: it did if
/// and only if the response ends in the success status word.
pub fn check_authentication(response: &[u8]) -> (r: Result<(), ReaderError>)
    ensures
        match r {
            Ok(_) => is_success(response@),
            Err(e) => !is_success(response@) && e@ == authentication_fault(response@),
        },
{
    match status_word(response) {
        Some(status) => {
            if status == STATUS_SUCCESS {
                Ok(())
            } else {
                Err(ReaderError::card("Authentication Failed.", CARD_NOT_AUTHENTICATED))
            }
        },
        None => Err(ReaderError::card("Invalid response.", CARD_NOT_AUTHENTICATED)),
    }
}

/// Decodes the response to a read command: on the success status word, the
/// bytes in front of it; on any other response, the read fault.
pub fn parse_read_response(response: &[u8]) -> (r: Result<Vec<u8>, ReaderError>)
    ensures
        match r {
            Ok(data) => is_success(response@) && data@ == payload(response@),
            Err(e) => !is_success(response@) && e@ == read_fault(response@),
        },
{
    match status_word(response) {
        Some(status) => {
            if status == STATUS_SUCCESS {
                let n = response.len() - 2;
                let mut data: Vec<u8> = Vec::new();
                let mut k: usize = 0;
                while k < n
                    invariant
                        k <= n,
                        n == response@.len() - 2,
                        data@ == response@.subrange(0, k as int),
                    decreases n - k,
                {
                    data.push(response[k]);
                    k += 1;
                    assert(data@ =~= response@.subrange(0, k as int));
                }
                Ok(data)
            } else {
                Err(ReaderError::card("Read failed.", INVALID_PARAMETER))
            }
        },
        None => Err(ReaderError::card("Invalid response.", INVALID_PARAMETER)),
    }
}

/// Decodes the response to a write command: `true` on the success status
/// word; on any other response, the write fault.
pub fn check_write_response(response: &[u8]) -> (r: Result<bool, ReaderError>)
    ensures
        match r {
            Ok(done) => is_success(response@) && done,
            Err(e) => !is_success(response@) && e@ == write_fault(response@),
        },
{
    match status_word(response) {
        Some(status) => {
            if status == STATUS_SUCCESS {
                Ok(true)
            } else {
                let mut message = String::from_str("Write failed with code: ");
                push_decimal(&mut message, status);
                Err(ReaderError::CardError(message, INVALID_PARAMETER))
            }
        },
        None => Err(ReaderError::card("Invalid response length.", INVALID_VALUE)),
    }
}

} // verus!
