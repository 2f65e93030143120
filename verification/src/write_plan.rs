//! How a payload of many blocks is cut into writes of one block each, which
//! block each of them goes to, and how their outcomes become the outcome of
//! the whole write.

use vstd::prelude::*;
use crate::error::{
    first_error, lemma_first_error_stable, ErrorView, ReaderError, INVALID_PARAMETER,
};

verus! {

/// The number of bytes of a block, when the caller names none.
pub const DEFAULT_WRITE_BLOCK_SIZE: u16 = 16;

/// One command's worth of a write: `data` goes to `block`.
#[derive(Clone, Debug, PartialEq, Eq)]
pub struct WriteFragment {
    pub block: u16,
    pub data: Vec<u8>,
}

/// Whether `block` is the last block of its sector of four, which holds the
/// keys and access bits of the sector.
pub open spec fn is_sector_trailer(block: int) -> bool {
    block % 4 == 3
}

/// `block`, or the block after it if `block` is a sector trailer.
pub open spec fn skip_trailer(block: int) -> int {
    if is_sector_trailer(block) {
        block + 1
    } else {
        block
    }
}

/// The block that fragment `i` of a payload of several blocks goes to. The
/// first fragment goes to the block after `start`, each further one to the
/// block after its predecessor's, and a sector trailer is passed over each
/// time.
pub open spec fn write_target(start: int, i: nat) -> int
    decreases i,
{
    if i == 0 {
        skip_trailer(start + 1)
    } else {
        skip_trailer(write_target(start, (i - 1) as nat) + 1)
    }
}

/// Whether a payload of `length` bytes can be written in blocks of
/// `block_size` bytes: it must hold a whole number of blocks, and at least
/// one.
pub open spec fn valid_write_length(length: nat, block_size: u16) -> bool {
    &&& block_size > 0
    &&& length >= block_size
    &&& length % (block_size as nat) == 0
}

/// The fault reported for a payload that does not hold a whole number of
/// blocks.
pub open spec fn invalid_length_fault() -> ErrorView {
    ErrorView::CardError("Data length must be a multiple of block size."@, INVALID_PARAMETER)
}

/// The fault reported when a fragment of a write reports that it did not
/// write.
pub open spec fn write_failed_fault() -> ErrorView {
    ErrorView::CardError("Write failed."@, INVALID_PARAMETER)
}

/// Into how many fragments a payload is cut.
pub open spec fn write_fragment_count(length: nat, block_size: u16) -> nat {
    length / (block_size as nat)
}

/// The block that fragment `i` goes to. A payload of exactly one block goes
/// to `start` itself.
pub open spec fn write_fragment_block(start: u16, length: nat, block_size: u16, i: nat) -> int {
    if length == block_size {
        start as int
    } else {
        write_target(start as int, i)
    }
}

/// The bytes of fragment `i`: block `i` of the payload.
pub open spec fn write_fragment_data(data: Seq<u8>, block_size: u16, i: nat) -> Seq<u8> {
    data.subrange(i * block_size, (i + 1) * block_size)
}

/// Whether every fragment of a valid payload goes to a block whose number
/// fits sixteen bits.
pub open spec fn write_addressable(start: u16, length: nat, block_size: u16) -> bool {
    valid_write_length(length, block_size) && length > block_size ==> write_target(
        start as int,
        (write_fragment_count(length, block_size) - 1) as nat,
    ) <= u16::MAX
}

/// Whether `fragments` is the plan of the write of `data` at `start`.
pub open spec fn is_write_plan(
    fragments: Seq<WriteFragment>,
    start: u16,
    data: Seq<u8>,
    block_size: u16,
) -> bool {
    &&& fragments.len() == write_fragment_count(data.len(), block_size)
    &&& forall|i: int|
        0 <= i < fragments.len() ==> {
            &&& (#[trigger] fragments[i]).block == write_fragment_block(
                start,
                data.len(),
                block_size,
                i as nat,
            )
            &&& fragments[i].data@ == write_fragment_data(data, block_size, i as nat)
        }
}

/// A position among the blocks that are not sector trailers, counted from
/// block zero, for a block that is not a trailer.
pub open spec fn data_index(block: int) -> int {
    3 * (block / 4) + block % 4
}

/// The block that is not a sector trailer and has the given position among
/// such blocks.
pub open spec fn data_block(index: int) -> int {
    4 * (index / 3) + index % 3
}

/// The target of fragment `i` is the block `i` places after the first target,
/// counting only the blocks that are not sector trailers.
pub proof fn lemma_target_closed_form(start: int, i: nat)
    requires
        0 <= start,
    ensures
        write_target(start, i) == data_block(data_index(skip_trailer(start + 1)) + i),
        !is_sector_trailer(write_target(start, i)),
        write_target(start, i) >= start + 1 + i,
    decreases i,
{
    if i > 0 {
        lemma_target_closed_form(start, (i - 1) as nat);
    }
}

/// Successive fragments go to successive blocks that are not sector trailers:
/// no fragment goes to a trailer, each goes to a later block than the one
/// before it, and every block passed over in between is a trailer.
pub proof fn lemma_targets_sequential(start: int, i: nat)
    requires
        0 <= start,
    ensures
        !is_sector_trailer(write_target(start, i)),
        !is_sector_trailer(write_target(start, i + 1)),
        write_target(start, i) < write_target(start, i + 1) <= write_target(start, i) + 2,
        forall|b: int|
            write_target(start, i) < b < write_target(start, i + 1) ==> is_sector_trailer(b),
{
    lemma_target_closed_form(start, i);
    lemma_target_closed_form(start, i + 1);
}

/// Later fragments go to later blocks.
pub proof fn lemma_targets_ascend(start: int, i: nat, j: nat)
    requires
        0 <= start,
        i <= j,
    ensures
        write_target(start, i) <= write_target(start, j),
        i < j ==> write_target(start, i) < write_target(start, j),
    decreases j,
{
    if i < j {
        lemma_targets_ascend(start, i, (j - 1) as nat);
        lemma_targets_sequential(start, (j - 1) as nat);
    }
}

/// The fragments hold the payload, block by block: byte `k` of a valid
/// payload is byte `k % block_size` of fragment `k / block_size`, and every
/// fragment holds exactly one block.
pub proof fn lemma_fragments_hold_payload(data: Seq<u8>, block_size: u16, k: int)
    requires
        valid_write_length(data.len(), block_size),
        0 <= k < data.len(),
    ensures
        0 <= k / (block_size as int) < write_fragment_count(data.len(), block_size),
        write_fragment_data(data, block_size, (k / (block_size as int)) as nat).len()
            == block_size,
        write_fragment_data(data, block_size, (k / (block_size as int)) as nat)[k % (
        block_size as int)] == data[k],
{
    let width = block_size as int;
    let count = write_fragment_count(data.len(), block_size) as int;
    let i = k / width;
    vstd::arithmetic::div_mod::lemma_fundamental_div_mod(data.len() as int, width);
    vstd::arithmetic::div_mod::lemma_fundamental_div_mod(k, width);
    vstd::arithmetic::div_mod::lemma_mod_bound(k, width);
    vstd::arithmetic::div_mod::lemma_div_pos_is_pos(k, width);
    assert(i < count) by (nonlinear_arith)
        requires
            width * i + k % width == k,
            0 <= k % width,
            k < data.len(),
            data.len() == width * count,
            width > 0,
    ;
    assert(i * width == width * i && (i + 1) * width == width * i + width && (i + 1) * width
        <= width * count) by (nonlinear_arith)
        requires
            0 <= i,
            i + 1 <= count,
            width > 0,
    ;
}

/// The number of bytes of a block: what the caller names, or sixteen.
pub fn write_block_size(block_size: Option<u16>) -> (size: u16)
    ensures
        size == match block_size {
            Some(n) => n,
            None => DEFAULT_WRITE_BLOCK_SIZE,
        },
{
    match block_size {
        Some(n) => n,
        None => DEFAULT_WRITE_BLOCK_SIZE,
    }
}

/// Accepts a payload length that holds a whole number of blocks, at least
/// one, and refuses any other.
pub fn validate_write_length(length: usize, block_size: u16) -> (r: Result<(), ReaderError>)
    ensures
        match r {
            Ok(_) => valid_write_length(length as nat, block_size),
            Err(e) => !valid_write_length(length as nat, block_size) && e@
                == invalid_length_fault(),
        },
{
    if block_size == 0 || length < block_size as usize || length % (block_size as usize) != 0 {
        Err(ReaderError::card("Data length must be a multiple of block size.", INVALID_PARAMETER))
    } else {
        Ok(())
    }
}

/// The block that fragment `index` of a payload of several blocks goes to, or
/// `None` if its number does not fit sixteen bits.
pub fn write_target_block(start_block: u16, index: usize) -> (r: Option<u16>)
    ensures
        r == if write_target(start_block as int, index as nat) <= u16::MAX {
            Some(write_target(start_block as int, index as nat) as u16)
        } else {
            None
        },
{
    proof {
        lemma_target_closed_form(start_block as int, index as nat);
    }
    if index > 0xFFFF {
        return None;
    }
    let next: u32 = start_block as u32 + 1;
    let first: u32 = if next % 4 == 3 {
        next + 1
    } else {
        next
    };
    let place: u32 = 3 * (first / 4) + first % 4 + index as u32;
    let target: u32 = 4 * (place / 3) + place % 3;
    if target <= 0xFFFF {
        Some(target as u16)
    } else {
        None
    }
}

/// Tests whether every fragment of the write goes to a block whose number
/// fits sixteen bits.
pub fn is_write_addressable(start_block: u16, length: usize, block_size: u16) -> (r: bool)
    ensures
        r == write_addressable(start_block, length as nat, block_size),
{
    if block_size == 0 || length <= block_size as usize || length % (block_size as usize) != 0 {
        true
    } else {
        let count: usize = length / (block_size as usize);
        assert(count >= 1) by (nonlinear_arith)
            requires
                count == length / (block_size as usize),
                length > block_size > 0,
        ;
        write_target_block(start_block, count - 1).is_some()
    }
}

/// Cuts the write of `data` at `block_number` into writes of one block each.
///
/// A payload that does not hold a whole number of blocks, at least one, is
/// refused. A payload of one block goes to `block_number` itself. A longer
/// one is cut into blocks, which go to the blocks after `block_number`, one
/// after the other, passing over sector trailers.
pub fn plan_write(block_number: u16, data: &[u8], block_size: Option<u16>) -> (r: Result<
    Vec<WriteFragment>,
    ReaderError,
>)
    requires
        write_addressable(
            block_number,
            data@.len(),
            match block_size {
                Some(n) => n,
                None => DEFAULT_WRITE_BLOCK_SIZE,
            },
        ),
    ensures
        match r {
            Ok(fragments) => {
                &&& valid_write_length(
                    data@.len(),
                    match block_size {
                        Some(n) => n,
                        None => DEFAULT_WRITE_BLOCK_SIZE,
                    },
                )
                &&& is_write_plan(
                    fragments@,
                    block_number,
                    data@,
                    match block_size {
                        Some(n) => n,
                        None => DEFAULT_WRITE_BLOCK_SIZE,
                    },
                )
            },
            Err(e) => {
                &&& !valid_write_length(
                    data@.len(),
                    match block_size {
                        Some(n) => n,
                        None => DEFAULT_WRITE_BLOCK_SIZE,
                    },
                )
                &&& e@ == invalid_length_fault()
            },
        },
{
    let size = write_block_size(block_size);
    match validate_write_length(data.len(), size) {
        Err(e) => {
            return Err(e);
        },
        Ok(_) => {},
    }
    let width: usize = size as usize;
    let count: usize = data.len() / width;
    let single: bool = data.len() == width;
    proof {
        vstd::arithmetic::div_mod::lemma_fundamental_div_mod(data@.len() as int, width as int);
        assert(count * width == width * count) by (nonlinear_arith);
        if single {
            assert(count == 1) by (nonlinear_arith)
                requires
                    count * width == width,
                    width > 0,
            ;
        } else {
            assert(count >= 2) by (nonlinear_arith)
                requires
                    count * width == data@.len(),
                    data@.len() > width,
                    width > 0,
            ;
        }
    }
    let mut fragments: Vec<WriteFragment> = Vec::new();
    let mut block: u16 = block_number;
    let mut i: usize = 0;
    while i < count
        invariant
            i <= count,
            width == size,
            width > 0,
            count >= 1,
            count * width == data@.len(),
            data@.len() <= usize::MAX,
            single == (data@.len() == width),
            single ==> count == 1,
            !single ==> write_target(block_number as int, (count - 1) as nat) <= u16::MAX,
            block == if i == 0 || single {
                block_number as int
            } else {
                write_target(block_number as int, (i - 1) as nat)
            },
            fragments@.len() == i,
            forall|j: int|
                0 <= j < i ==> {
                    &&& (#[trigger] fragments@[j]).block == write_fragment_block(
                        block_number,
                        data@.len(),
                        size,
                        j as nat,
                    )
                    &&& fragments@[j].data@ == write_fragment_data(data@, size, j as nat)
                },
        decreases count - i,
    {
        if !single {
            proof {
                lemma_targets_ascend(block_number as int, i as nat, (count - 1) as nat);
                lemma_target_closed_form(block_number as int, i as nat);
            }
            block = block + 1;
            if block % 4 == 3 {
                block = block + 1;
            }
        }
        assert(0 <= i * width && i * width + width <= count * width) by (nonlinear_arith)
            requires
                0 <= i,
                i + 1 <= count,
                width > 0,
        ;
        let from: usize = i * width;
        let mut part: Vec<u8> = Vec::new();
        let mut k: usize = 0;
        while k < width
            invariant
                k <= width,
                from + width <= data@.len() <= usize::MAX,
                part@ == data@.subrange(from as int, from + k),
            decreases width - k,
        {
            part.push(data[from + k]);
            k += 1;
            assert(part@ =~= data@.subrange(from as int, from + k));
        }
        proof {
            assert((i + 1) * width == i * width + width) by (nonlinear_arith);
            assert(part@ == write_fragment_data(data@, size, i as nat));
            assert(block == write_fragment_block(block_number, data@.len(), size, i as nat));
        }
        fragments.push(WriteFragment { block, data: part });
        i += 1;
    }
    Ok(fragments)
}

/// Whether a fragment reported that it wrote.
pub open spec fn wrote(result: Result<bool, ReaderError>) -> bool {
    result matches Ok(done) && done
}

/// Whether every fragment of a write reported that it wrote.
pub open spec fn all_written(results: Seq<Result<bool, ReaderError>>) -> bool {
    forall|i: int| 0 <= i < results.len() ==> wrote(#[trigger] results[i])
}

/// Turns what the fragments of a write returned into the outcome of the
/// write. `results` holds the outcome of each fragment, in the order of the
/// plan. If a fragment failed, the failure of the earliest such fragment is
/// the outcome; if none failed but one reports that it did not write, the
/// write failed; otherwise it succeeded.
pub fn aggregate_write(results: &Vec<Result<bool, ReaderError>>) -> (r: Result<bool, ReaderError>)
    ensures
        match r {
            Ok(done) => done && first_error(results@) is None && all_written(results@),
            Err(e) => match first_error(results@) {
                Some(first) => e@ == first,
                None => !all_written(results@) && e@ == write_failed_fault(),
            },
        },
{
    let mut written: bool = true;
    let mut i: usize = 0;
    while i < results.len()
        invariant
            i <= results@.len(),
            first_error(results@.take(i as int)) is None,
            written == all_written(results@.take(i as int)),
        decreases results@.len() - i,
    {
        assert(results@.take(i + 1).drop_last() =~= results@.take(i as int));
        assert(results@.take(i + 1).last() == results@[i as int]);
        let ghost before = results@.take(i as int);
        let ghost after = results@.take(i + 1);
        match &results[i] {
            Ok(done) => {
                proof {
                    if written && *done {
                        assert forall|j: int| 0 <= j < after.len() implies wrote(
                            #[trigger] after[j],
                        ) by {
                            if j < i {
                                assert(after[j] == before[j]);
                            }
                        }
                    } else if !*done {
                        assert(!wrote(after[i as int]));
                    } else {
                        let bad = choose|j: int|
                            0 <= j < before.len() && !wrote(#[trigger] before[j]);
                        assert(after[bad] == before[bad]);
                    }
                }
                written = written && *done;
            },
            Err(e) => {
                proof {
                    lemma_first_error_stable(results@, i + 1);
                }
                return Err(e.duplicate());
            },
        }
        i += 1;
    }
    assert(results@.take(i as int) =~= results@);
    if written {
        Ok(true)
    } else {
        Err(ReaderError::card("Write failed.", INVALID_PARAMETER))
    }
}

} // verus!
