//! Runs of a block operation: what holds of every sequence of events that a
//! caller may hand to a session.

use vstd::prelude::*;
use crate::apdu::{
    is_success, is_supported_atr, read_fault, unsupported_card_fault, write_fault,
};
use crate::error::ErrorView;
use crate::session::{
    cancelled_fault, expects, honours_cancellation, spec_step, ActionView, EventView,
    OutcomeView, Phase, TransferView,
};

verus! {

/// One step's worth of input: the event, and the value of the cancellation
/// flag when the event is handed in.
pub struct Input {
    pub event: EventView,
    pub cancelled: bool,
}

/// The phase that a session for `transfer` is in after it has taken
/// `inputs`, one after the other, from the start.
pub open spec fn phase_after(transfer: TransferView, inputs: Seq<Input>) -> Phase
    decreases inputs.len(),
{
    if inputs.len() == 0 {
        Phase::Idle
    } else {
        spec_step(
            transfer,
            phase_after(transfer, inputs.drop_last()),
            inputs.last().event,
            inputs.last().cancelled,
        ).0
    }
}

/// The action with which a session for `transfer` answers input `k` of
/// `inputs`.
pub open spec fn action_at(transfer: TransferView, inputs: Seq<Input>, k: int) -> ActionView
    recommends
        0 <= k < inputs.len(),
{
    spec_step(
        transfer,
        phase_after(transfer, inputs.take(k)),
        inputs[k].event,
        inputs[k].cancelled,
    ).1
}

/// Whether no answer to reset among `inputs` is that of a supported card.
pub open spec fn no_supported_card(inputs: Seq<Input>) -> bool {
    forall|j: int|
        0 <= j < inputs.len() ==> match (#[trigger] inputs[j]).event {
            EventView::Atr(atr) => !is_supported_atr(atr),
            _ => true,
        }
}

/// Whether the cancellation flag is raised at every input from `from` on.
pub open spec fn cancelled_from(inputs: Seq<Input>, from: int) -> bool {
    forall|j: int| from <= j < inputs.len() ==> (#[trigger] inputs[j]).cancelled
}

/// Whether a command is with the card in `phase`.
pub open spec fn exchanging(phase: Phase) -> bool {
    phase == Phase::Authenticating || phase == Phase::Transferring
}

proof fn lemma_never_exchanging(transfer: TransferView, inputs: Seq<Input>, k: int)
    requires
        0 <= k <= inputs.len(),
        no_supported_card(inputs),
    ensures
        !exchanging(phase_after(transfer, inputs.take(k))),
    decreases k,
{
    if k > 0 {
        lemma_never_exchanging(transfer, inputs, k - 1);
        assert(inputs.take(k).drop_last() =~= inputs.take(k - 1));
        assert(inputs.take(k).last() == inputs[k - 1]);
    }
}

/// A card that is not supported is never sent a command. Whatever the
/// events, as long as no answer to reset among them is that of a supported
/// card, no step asks to transmit anything; and the step that takes the
/// answer to reset ends the operation with the unsupported-card fault.
pub proof fn lemma_unsupported_card_sends_nothing(
    transfer: TransferView,
    inputs: Seq<Input>,
    k: int,
)
    requires
        0 <= k < inputs.len(),
        no_supported_card(inputs),
    ensures
        !(action_at(transfer, inputs, k) is Transmit),
        phase_after(transfer, inputs.take(k)) == Phase::Classifying && inputs[k].event is Atr
            ==> action_at(transfer, inputs, k) == ActionView::Finish(
            Err(unsupported_card_fault()),
        ),
{
    lemma_never_exchanging(transfer, inputs, k);
    assert(inputs[k].event is Atr ==> !is_supported_atr(inputs[k].event->Atr_0));
}

proof fn lemma_stays_before_transaction(
    transfer: TransferView,
    inputs: Seq<Input>,
    from: int,
    k: int,
)
    requires
        0 <= from <= k <= inputs.len(),
        honours_cancellation(phase_after(transfer, inputs.take(from))),
        cancelled_from(inputs, from),
    ensures
        honours_cancellation(phase_after(transfer, inputs.take(k))) || phase_after(
            transfer,
            inputs.take(k),
        ) == Phase::Done,
    decreases k,
{
    if k > from {
        lemma_stays_before_transaction(transfer, inputs, from, k - 1);
        assert(inputs.take(k).drop_last() =~= inputs.take(k - 1));
        assert(inputs.take(k).last() == inputs[k - 1]);
        assert(inputs[k - 1].cancelled);
    }
}

/// Cancelling before the card is connected opens no transaction. If the flag
/// is raised while the session has not yet been told that the connection is
/// open, and stays raised, then no later step asks to connect, to open a
/// transaction or to transmit. The first event after that which answers the
/// session, unless it is a failure of the driver, ends the operation as
/// cancelled.
pub proof fn lemma_cancelled_opens_no_transaction(
    transfer: TransferView,
    inputs: Seq<Input>,
    from: int,
    k: int,
)
    requires
        0 <= from <= k < inputs.len(),
        honours_cancellation(phase_after(transfer, inputs.take(from))),
        cancelled_from(inputs, from),
    ensures
        !(action_at(transfer, inputs, k) is Connect),
        !(action_at(transfer, inputs, k) is OpenTransaction),
        !(action_at(transfer, inputs, k) is Transmit),
        expects(phase_after(transfer, inputs.take(k)), inputs[k].event) && !(inputs[k].event
            is DriverFailed) ==> action_at(transfer, inputs, k) == ActionView::Finish(
            Err(cancelled_fault()),
        ),
{
    lemma_stays_before_transaction(transfer, inputs, from, k);
    assert(inputs[k].cancelled);
}

/// A session that is over stays over: it ignores every further event.
pub proof fn lemma_done_is_final(transfer: TransferView, event: EventView, cancelled: bool)
    ensures
        spec_step(transfer, Phase::Done, event, cancelled) == (Phase::Done, ActionView::Ignore),
{
}

/// A failure of the driver ends the operation with that failure, whatever
/// the flag, in every phase in which a call to the driver is pending.
pub proof fn lemma_driver_failure_ends(
    transfer: TransferView,
    phase: Phase,
    code: u32,
    cancelled: bool,
)
    requires
        phase != Phase::Idle,
        phase != Phase::Done,
    ensures
        spec_step(transfer, phase, EventView::DriverFailed(code), cancelled) == (
            Phase::Done,
            ActionView::Finish(Err(ErrorView::PcscError(code))),
        ),
{
}

/// The status word decides. Whatever else a response to the transfer command
/// holds, if it does not end in the success status word the operation ends
/// with the read fault or the write fault, and otherwise it succeeds.
pub proof fn lemma_status_word_decides(transfer: TransferView, response: Seq<u8>, cancelled: bool)
    ensures
        spec_step(transfer, Phase::Transferring, EventView::Response(response), cancelled).0
            == Phase::Done,
        spec_step(transfer, Phase::Transferring, EventView::Response(response), cancelled).1
            == ActionView::Finish(transfer.outcome(response)),
        is_success(response) <==> transfer.outcome(response) is Ok,
        !is_success(response) ==> transfer.outcome(response) == Err::<OutcomeView, ErrorView>(
            match transfer {
                TransferView::Read { .. } => read_fault(response),
                TransferView::Write { .. } => write_fault(response),
            },
        ),
{
}

} // verus!
