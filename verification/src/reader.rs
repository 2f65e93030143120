//! The choice of the reader: the first one that the driver lists, if it
//! belongs to the supported family.

use vstd::prelude::*;
use vstd::utf8::{encode_utf8, valid_utf8};
use crate::error::{ErrorView, ReaderError};
use crate::text::{contains_bytes, contains_run};

verus! {

/// The bytes that the name of a supported reader contains: `ACR122`.
pub open spec fn family_tag() -> Seq<u8> {
    seq![0x41u8, 0x43u8, 0x52u8, 0x31u8, 0x32u8, 0x32u8]
}

/// The failure reported for a reader name that is not valid text.
pub open spec fn invalid_name_fault() -> ErrorView {
    ErrorView::UnsupportedReader("Invalid reader name"@)
}

/// Turns bytes into text with `String::from_utf8` of the standard library.
///
/// Trusted: the call succeeds exactly on valid UTF-8, and the text that it
/// returns is encoded by the bytes that were given.
#[verifier::external_body]
fn text_of_bytes(bytes: Vec<u8>) -> (r: Option<String>)
    ensures
        r is Some <==> valid_utf8(bytes@),
        r matches Some(text) ==> encode_utf8(text@) == bytes@,
{
    String::from_utf8(bytes).ok()
}

/// What the choice among `names` comes to, with the chosen name given by its
/// UTF-8 bytes: the first name is chosen, if there is one, if it is valid
/// text, and if it contains the family tag.
pub open spec fn selection(names: Seq<Seq<u8>>) -> Result<Seq<u8>, ErrorView> {
    if names.len() == 0 {
        Err(ErrorView::NoReadersFound)
    } else if !valid_utf8(names[0]) {
        Err(invalid_name_fault())
    } else if !contains_run(names[0], family_tag()) {
        Err(ErrorView::UnsupportedReader(vstd::utf8::decode_utf8(names[0])))
    } else {
        Ok(names[0])
    }
}

/// The names of `names` as sequences of bytes.
pub open spec fn name_bytes(names: Seq<Vec<u8>>) -> Seq<Seq<u8>> {
    names.map_values(|name: Vec<u8>| name@)
}

/// Chooses the reader among the names that the driver lists, each given by
/// its bytes. Only the first name is considered.
///
/// Fails if the list is empty, if the first name is not valid UTF-8, or if
/// it does not contain `ACR122`; in the last case the failure carries the
/// name.
pub fn select_reader(names: &Vec<Vec<u8>>) -> (r: Result<String, ReaderError>)
    ensures
        match r {
            Ok(name) => selection(name_bytes(names@)) == Ok::<Seq<u8>, ErrorView>(
                encode_utf8(name@),
            ),
            Err(e) => selection(name_bytes(names@)) == Err::<Seq<u8>, ErrorView>(e@),
        },
{
    if names.len() == 0 {
        return Err(ReaderError::NoReadersFound);
    }
    let first = &names[0];
    assert(name_bytes(names@)[0] == first@);
    let tag: [u8; 6] = [0x41, 0x43, 0x52, 0x31, 0x32, 0x32];
    assert(tag@ =~= family_tag());
    let supported = contains_bytes(first.as_slice(), tag.as_slice());
    match text_of_bytes(first.clone()) {
        None => Err(ReaderError::UnsupportedReader(String::from_str("Invalid reader name"))),
        Some(name) => {
            proof {
                vstd::utf8::encode_utf8_decode_utf8(name@);
            }
            if supported {
                Ok(name)
            } else {
                Err(ReaderError::UnsupportedReader(name))
            }
        },
    }
}

/// Accepts a reader name that can be handed to the driver, which takes it as
/// a string that ends at its first zero byte: a name that holds a zero byte
/// is refused.
pub fn validate_reader_name(name: &str) -> (r: Result<(), ReaderError>)
    ensures
        match r {
            Ok(_) => !encode_utf8(name@).contains(0u8),
            Err(e) => encode_utf8(name@).contains(0u8) && e@ == invalid_name_fault(),
        },
{
    let bytes = name.as_bytes();
    let mut k: usize = 0;
    while k < bytes.len()
        invariant
            k <= bytes@.len(),
            bytes@ == encode_utf8(name@),
            forall|j: int| 0 <= j < k ==> bytes@[j] != 0u8,
        decreases bytes@.len() - k,
    {
        if bytes[k] == 0 {
            return Err(ReaderError::UnsupportedReader(String::from_str("Invalid reader name")));
        }
        k += 1;
    }
    Ok(())
}

} // verus!
