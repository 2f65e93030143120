//! What the commands of the application decide around a transfer: the block
//! that a text becomes, the guard that lets one read run at a time, and the
//! failures of a session that is no longer valid or of a write that was not
//! done.

use vstd::prelude::*;
use crate::error::{
    ErrorView, ReaderError, CARD_NOT_AUTHENTICATED, INVALID_HANDLE, SERVER_TOO_BUSY,
};

verus! {

/// The number of bytes of the block that a text is written to.
pub const PAYLOAD_SIZE: usize = 16;

/// The block that `text` becomes: its first sixteen bytes, filled up with
/// zero bytes.
pub open spec fn spec_block_payload(text: Seq<u8>) -> Seq<u8> {
    Seq::new(
        PAYLOAD_SIZE as nat,
        |i: int|
            if i < text.len() {
                text[i]
            } else {
                0u8
            },
    )
}

/// Builds the block that `text` becomes.
pub fn block_payload(text: &[u8]) -> (block: Vec<u8>)
    ensures
        block@ == spec_block_payload(text@),
{
    let mut block: Vec<u8> = Vec::new();
    let mut i: usize = 0;
    while i < PAYLOAD_SIZE
        invariant
            i <= PAYLOAD_SIZE,
            block@.len() == i,
            forall|j: int|
                0 <= j < i ==> block@[j] == if j < text@.len() {
                    text@[j]
                } else {
                    0u8
                },
        decreases PAYLOAD_SIZE - i,
    {
        if i < text.len() {
            block.push(text[i]);
        } else {
            block.push(0u8);
        }
        i += 1;
    }
    assert(block@ =~= spec_block_payload(text@));
    block
}

/// The failure reported to a read that finds another read in progress.
pub open spec fn busy_fault() -> ErrorView {
    ErrorView::CardError("Read already in progress."@, SERVER_TOO_BUSY)
}

/// The failure reported when a write ends without having written.
pub open spec fn not_written_fault() -> ErrorView {
    ErrorView::CardError("Write failed."@, CARD_NOT_AUTHENTICATED)
}

/// Claims the one place for a read. If a read is in progress the claim is
/// refused and nothing changes; otherwise a read is in progress from now on.
pub fn try_begin_read(in_progress: &mut bool) -> (r: Result<(), ReaderError>)
    ensures
        *final(in_progress),
        match r {
            Ok(_) => !*old(in_progress),
            Err(e) => *old(in_progress) && e@ == busy_fault(),
        },
{
    if *in_progress {
        Err(ReaderError::card("Read already in progress.", SERVER_TOO_BUSY))
    } else {
        *in_progress = true;
        Ok(())
    }
}

/// Gives the place for a read back.
pub fn end_read(in_progress: &mut bool)
    ensures
        !*final(in_progress),
{
    *in_progress = false;
}

/// Lets a transfer go on only with a session that the driver still holds
/// valid.
pub fn require_valid_context(valid: bool) -> (r: Result<(), ReaderError>)
    ensures
        match r {
            Ok(_) => valid,
            Err(e) => !valid && e@ == ErrorView::PcscError(INVALID_HANDLE),
        },
{
    if valid {
        Ok(())
    } else {
        Err(ReaderError::PcscError(INVALID_HANDLE))
    }
}

/// Turns the report of a write into the outcome of the command: a write that
/// reports that it did not write has failed.
pub fn confirm_written(done: bool) -> (r: Result<(), ReaderError>)
    ensures
        match r {
            Ok(_) => done,
            Err(e) => !done && e@ == not_written_fault(),
        },
{
    if done {
        Ok(())
    } else {
        Err(ReaderError::card("Write failed.", CARD_NOT_AUTHENTICATED))
    }
}

} // verus!
