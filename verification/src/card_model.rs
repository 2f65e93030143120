//! A model of a card that behaves as the commands assume, and the proof that
//! what is written to such a card is read back.
//!
//! The model is a definition, not a claim about any real card: it says what
//! "a conforming card" means where the laws below speak of one.

use vstd::prelude::*;
use crate::apdu::{
    is_success, is_supported_atr, payload, read_apdu, unsupported_card_fault, write_apdu,
};
use crate::error::ErrorView;
use crate::session::{
    spec_step, ActionView, EventView, OutcomeView, Phase, ReaderStatus, TransferView,
};
use crate::write_plan::{
    lemma_targets_ascend, valid_write_length, write_fragment_block, write_fragment_count,
    write_fragment_data,
};

verus! {

/// What a card holds: the bytes of each block that has been written.
pub type CardMemory = Map<int, Seq<u8>>;

/// The two bytes with which the card reports success.
pub open spec fn reply_done() -> Seq<u8> {
    seq![0x90u8, 0x00u8]
}

/// The two bytes with which the card refuses a command.
pub open spec fn reply_refused() -> Seq<u8> {
    seq![0x63u8, 0x00u8]
}

/// Whether `apdu` is an authentication command.
pub open spec fn is_authenticate(apdu: Seq<u8>) -> bool {
    apdu.len() == 10 && apdu[0] == 0xFFu8 && apdu[1] == 0x86u8
}

/// Whether `apdu` is a read command.
pub open spec fn is_read(apdu: Seq<u8>) -> bool {
    apdu.len() == 5 && apdu[0] == 0xFFu8 && apdu[1] == 0xB0u8
}

/// Whether `apdu` is a write command for as many bytes as it carries.
pub open spec fn is_write(apdu: Seq<u8>) -> bool {
    apdu.len() >= 5 && apdu[0] == 0xFFu8 && apdu[1] == 0xD6u8 && apdu[2] == 0x00u8 && apdu.len()
        == 5 + apdu[4]
}

/// How a conforming card answers a command, and what it holds afterwards.
///
/// It accepts every authentication. A write stores the bytes that the
/// command carries in the block that it names. A read returns the first
/// bytes of the block that it names, as many as it asks for, if the block
/// holds that many. Anything else is refused and changes nothing.
pub open spec fn card_reply(memory: CardMemory, apdu: Seq<u8>) -> (CardMemory, Seq<u8>) {
    if is_authenticate(apdu) {
        (memory, reply_done())
    } else if is_write(apdu) {
        (memory.insert(apdu[3] as int, apdu.skip(5)), reply_done())
    } else if is_read(apdu) {
        let block = apdu[2] as int * 256 + apdu[3] as int;
        let length = apdu[4] as int;
        if memory.dom().contains(block) && length <= memory[block].len() {
            (memory, memory[block].take(length) + reply_done())
        } else {
            (memory, reply_refused())
        }
    } else {
        (memory, reply_refused())
    }
}

/// How a reader that holds a conforming card answers what a session asks
/// for, and what the card holds afterwards. A wait for a status change
/// reports the card as present, with one insertion counted; the connection
/// and the transaction succeed, and the card answers every command. A session
/// that is over, or that ignored its event, is given no answer.
pub open spec fn reader_answer(memory: CardMemory, atr: Seq<u8>, action: ActionView) -> Option<
    (CardMemory, EventView),
> {
    match action {
        ActionView::AwaitStatus { .. } => Some(
            (
                memory,
                EventView::Status(ReaderStatus { event_count: 1, changed: true, present: true }),
            ),
        ),
        ActionView::Connect => Some((memory, EventView::Connected)),
        ActionView::OpenTransaction => Some((memory, EventView::Atr(atr))),
        ActionView::Transmit(command) => {
            let (held, answer) = card_reply(memory, command);
            Some((held, EventView::Response(answer)))
        },
        ActionView::Finish(_) | ActionView::Ignore => None,
    }
}

/// What a block operation comes to when it runs, for at most `steps` steps
/// and without being cancelled, against a reader that holds a conforming
/// card: what the card holds afterwards, and the outcome of the operation if
/// it came to one.
pub open spec fn serve(
    transfer: TransferView,
    phase: Phase,
    event: EventView,
    memory: CardMemory,
    atr: Seq<u8>,
    steps: nat,
) -> (CardMemory, Option<Result<OutcomeView, ErrorView>>)
    decreases steps,
{
    if steps == 0 {
        (memory, None)
    } else {
        let (next, action) = spec_step(transfer, phase, event, false);
        match action {
            ActionView::Finish(outcome) => (memory, Some(outcome)),
            _ => match reader_answer(memory, atr, action) {
                Some((held, answer)) => serve(
                    transfer,
                    next,
                    answer,
                    held,
                    atr,
                    (steps - 1) as nat,
                ),
                None => (memory, None),
            },
        }
    }
}

/// The number of steps that a block operation takes on a card that is
/// present: start, two reports of the reader, connection, answer to reset,
/// and two responses.
pub open spec fn steps_to_finish() -> nat {
    7
}

/// A block operation, run from its start against a reader that holds a
/// conforming card.
pub open spec fn perform(transfer: TransferView, memory: CardMemory, atr: Seq<u8>) -> (
    CardMemory,
    Option<Result<OutcomeView, ErrorView>>,
) {
    serve(transfer, Phase::Idle, EventView::Started, memory, atr, steps_to_finish())
}

/// A conforming card stores what the write command carries and returns it to
/// a read command for the same block: for a block number below 256 and a
/// block of fewer than 256 bytes, reading at most as many bytes as were
/// written returns the first bytes of what was written.
pub proof fn lemma_commands_round_trip(
    memory: CardMemory,
    block: u16,
    block_size: u16,
    data: Seq<u8>,
    length: u16,
)
    requires
        block < 256,
        block_size < 256,
        data.len() == block_size,
        length <= block_size,
    ensures
        ({
            let (written, first) = card_reply(memory, write_apdu(block, block_size, data));
            let (read, second) = card_reply(written, read_apdu(block, length));
            &&& is_success(first)
            &&& is_success(second)
            &&& payload(second) == data.take(length as int)
            &&& read == written
        }),
{
    let command = write_apdu(block, block_size, data);
    assert(command.skip(5) =~= data);
    let (written, first) = card_reply(memory, command);
    let (read, second) = card_reply(written, read_apdu(block, length));
    assert(second =~= data.take(length as int) + reply_done());
    assert(payload(second) =~= data.take(length as int));
}

/// Round trip. On a conforming card of the supported kind, a write of one
/// block to `block` succeeds, and a read of at most that many bytes from
/// `block` then returns the first bytes of what was written.
///
/// The write command names the block by the low eight bits of its number and
/// the block size likewise, so this holds for block numbers and block sizes
/// below 256.
pub proof fn lemma_round_trip(
    memory: CardMemory,
    atr: Seq<u8>,
    block: u16,
    block_size: u16,
    data: Seq<u8>,
    length: u16,
)
    requires
        is_supported_atr(atr),
        block < 256,
        block_size < 256,
        data.len() == block_size,
        length <= block_size,
    ensures
        ({
            let (written, first) = perform(
                TransferView::Write { block, block_size, data },
                memory,
                atr,
            );
            let (read, second) = perform(TransferView::Read { block, length }, written, atr);
            &&& first == Some(Ok::<OutcomeView, ErrorView>(OutcomeView::Written(true)))
            &&& second == Some(
                Ok::<OutcomeView, ErrorView>(OutcomeView::Data(data.take(length as int))),
            )
            &&& read == written
        }),
{
    lemma_commands_round_trip(memory, block, block_size, data, length);
    let write = TransferView::Write { block, block_size, data };
    let read = TransferView::Read { block, length };
    let written = card_reply(memory, write.command()).0;
    lemma_performs(write, memory, atr);
    lemma_performs(read, written, atr);
}

/// On a supported card that is present, a block operation comes to the
/// outcome that the card's response to its transfer command stands for, and
/// the card has taken that command and no other that changes it.
pub proof fn lemma_performs(transfer: TransferView, memory: CardMemory, atr: Seq<u8>)
    requires
        is_supported_atr(atr),
    ensures
        perform(transfer, memory, atr) == (
            card_reply(memory, transfer.command()).0,
            Some(transfer.outcome(card_reply(memory, transfer.command()).1)),
        ),
{
    reveal_with_fuel(serve, 8);
    assert(is_authenticate(transfer.authentication()));
    assert(card_reply(memory, transfer.authentication()) == (memory, reply_done()));
    assert(is_success(reply_done()));
}

/// A card of another kind is left as it was: the operation ends with the
/// unsupported-card fault and the card has taken no command.
pub proof fn lemma_unsupported_card_untouched(
    transfer: TransferView,
    memory: CardMemory,
    atr: Seq<u8>,
)
    requires
        !is_supported_atr(atr),
    ensures
        perform(transfer, memory, atr) == (
            memory,
            Some(Err::<OutcomeView, ErrorView>(unsupported_card_fault())),
        ),
{
    reveal_with_fuel(serve, 8);
}

/// What a conforming card holds after the write commands of the first `upto`
/// fragments of a payload have reached it, in the order of the plan.
pub open spec fn after_writes(
    memory: CardMemory,
    start: u16,
    data: Seq<u8>,
    block_size: u16,
    upto: nat,
) -> CardMemory
    decreases upto,
{
    if upto == 0 {
        memory
    } else {
        let i = (upto - 1) as nat;
        card_reply(
            after_writes(memory, start, data, block_size, i),
            write_apdu(
                write_fragment_block(start, data.len(), block_size, i) as u16,
                block_size,
                write_fragment_data(data, block_size, i),
            ),
        ).0
    }
}

proof fn lemma_fragment_shape(start: u16, data: Seq<u8>, block_size: u16, i: nat, last: nat)
    requires
        valid_write_length(data.len(), block_size),
        last + 1 == write_fragment_count(data.len(), block_size),
        i <= last,
        write_fragment_block(start, data.len(), block_size, last) < 256,
    ensures
        0 <= write_fragment_block(start, data.len(), block_size, i) < 256,
        write_fragment_data(data, block_size, i).len() == block_size,
        forall|j: nat|
            j < i ==> write_fragment_block(start, data.len(), block_size, j)
                < write_fragment_block(start, data.len(), block_size, i),
{
    let width = block_size as int;
    let count = write_fragment_count(data.len(), block_size) as int;
    vstd::arithmetic::div_mod::lemma_fundamental_div_mod(data.len() as int, width);
    assert(count * width == width * count) by (nonlinear_arith);
    assert(0 <= i * width && (i + 1) * width == i * width + width && (i + 1) * width <= count
        * width) by (nonlinear_arith)
        requires
            0 <= i,
            i + 1 <= count,
            width > 0,
    ;
    if data.len() == block_size {
        assert(count == 1) by (nonlinear_arith)
            requires
                count * width == width,
                width > 0,
        ;
    } else {
        lemma_targets_ascend(start as int, i, last);
        lemma_targets_ascend(start as int, 0, i);
        assert forall|j: nat| j < i implies write_fragment_block(start, data.len(), block_size, j)
            < write_fragment_block(start, data.len(), block_size, i) by {
            lemma_targets_ascend(start as int, j, i);
        }
    }
}

proof fn lemma_writes_kept(
    memory: CardMemory,
    start: u16,
    data: Seq<u8>,
    block_size: u16,
    upto: nat,
    i: nat,
)
    requires
        valid_write_length(data.len(), block_size),
        block_size < 256,
        upto <= write_fragment_count(data.len(), block_size),
        write_fragment_block(
            start,
            data.len(),
            block_size,
            (write_fragment_count(data.len(), block_size) - 1) as nat,
        ) < 256,
        i < upto,
    ensures
        ({
            let held = after_writes(memory, start, data, block_size, upto);
            let block = write_fragment_block(start, data.len(), block_size, i);
            held.dom().contains(block) && held[block] == write_fragment_data(data, block_size, i)
        }),
    decreases upto,
{
    let last = (write_fragment_count(data.len(), block_size) - 1) as nat;
    let newest = (upto - 1) as nat;
    lemma_fragment_shape(start, data, block_size, newest, last);
    lemma_fragment_shape(start, data, block_size, i, last);
    let part = write_fragment_data(data, block_size, newest);
    let target = write_fragment_block(start, data.len(), block_size, newest) as u16;
    let command = write_apdu(target, block_size, part);
    assert(command.skip(5) =~= part);
    if i < newest {
        lemma_writes_kept(memory, start, data, block_size, newest, i);
    }
}

/// Every block of a written payload is read back. After a conforming card
/// has taken the write commands of all fragments of a payload, a read of at
/// most a block from the block that fragment `i` went to returns the first
/// bytes of block `i` of the payload.
///
/// The write command names its block by the low eight bits of the number, so
/// this holds where the last fragment goes to a block below 256, and for
/// blocks of fewer than 256 bytes.
pub proof fn lemma_fragments_round_trip(
    memory: CardMemory,
    start: u16,
    data: Seq<u8>,
    block_size: u16,
    i: nat,
    length: u16,
)
    requires
        valid_write_length(data.len(), block_size),
        block_size < 256,
        write_fragment_block(
            start,
            data.len(),
            block_size,
            (write_fragment_count(data.len(), block_size) - 1) as nat,
        ) < 256,
        i < write_fragment_count(data.len(), block_size),
        length <= block_size,
    ensures
        ({
            let held = after_writes(
                memory,
                start,
                data,
                block_size,
                write_fragment_count(data.len(), block_size),
            );
            let block = write_fragment_block(start, data.len(), block_size, i) as u16;
            let answer = card_reply(held, read_apdu(block, length)).1;
            is_success(answer) && payload(answer) == write_fragment_data(data, block_size, i).take(
                length as int,
            )
        }),
{
    let count = write_fragment_count(data.len(), block_size);
    let last = (count - 1) as nat;
    lemma_writes_kept(memory, start, data, block_size, count, i);
    lemma_fragment_shape(start, data, block_size, i, last);
    let held = after_writes(memory, start, data, block_size, count);
    let block = write_fragment_block(start, data.len(), block_size, i) as u16;
    let part = write_fragment_data(data, block_size, i);
    let answer = card_reply(held, read_apdu(block, length)).1;
    assert(answer =~= part.take(length as int) + reply_done());
    assert(payload(answer) =~= part.take(length as int));
}

} // verus!
