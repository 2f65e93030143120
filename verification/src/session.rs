//! The life of one block operation as a state machine: watch the reader until
//! a card arrives, connect, classify the card, authenticate the sector, and
//! exchange the one transfer command.
//!
//! The machine decides; its caller acts. The caller performs the action that
//! a step returns, and hands the driver's answer to the next step as an
//! event, together with the value of the cancellation flag at that moment.

use vstd::prelude::*;
use crate::apdu::{
    authenticate_apdu, authenticate_command, authentication_fault, check_authentication,
    check_write_response, classify, is_success, is_supported_atr, parse_read_response, payload,
    read_apdu, read_command, read_fault, unsupported_card_fault, write_apdu, write_command,
    write_fault, KeyType,
};
use crate::error::{ErrorView, ReaderError, INVALID_PARAMETER};
use crate::write_plan::invalid_length_fault;

verus! {

/// How long the caller pauses before it asks the driver again, in
/// milliseconds.
pub const POLL_INTERVAL_MS: u64 = 100;

/// What one block operation transfers.
#[derive(Clone, Debug, PartialEq, Eq)]
pub enum Transfer {
    /// Read `length` bytes from `block`.
    Read { block: u16, length: u16 },
    /// Write `data`, one block of `block_size` bytes, to `block`.
    Write { block: u16, block_size: u16, data: Vec<u8> },
}

/// A [`Transfer`] as mathematical values.
pub enum TransferView {
    Read { block: u16, length: u16 },
    Write { block: u16, block_size: u16, data: Seq<u8> },
}

impl View for Transfer {
    type V = TransferView;

    open spec fn view(&self) -> TransferView {
        match self {
            Transfer::Read { block, length } => TransferView::Read {
                block: *block,
                length: *length,
            },
            Transfer::Write { block, block_size, data } => TransferView::Write {
                block: *block,
                block_size: *block_size,
                data: data@,
            },
        }
    }
}

impl TransferView {
    /// The block that the transfer is about.
    pub open spec fn block(self) -> u16 {
        match self {
            TransferView::Read { block, .. } => block,
            TransferView::Write { block, .. } => block,
        }
    }

    /// Whether the transfer fits one command: a write carries exactly one
    /// block.
    pub open spec fn well_formed(self) -> bool {
        match self {
            TransferView::Read { .. } => true,
            TransferView::Write { block_size, data, .. } => data.len() == block_size,
        }
    }

    /// The command that authenticates the sector of the block. The command
    /// carries the low eight bits of the block number, and uses key A.
    pub open spec fn authentication(self) -> Seq<u8> {
        authenticate_apdu((self.block() % 256) as u8, KeyType::A)
    }

    /// The command that performs the transfer.
    pub open spec fn command(self) -> Seq<u8> {
        match self {
            TransferView::Read { block, length } => read_apdu(block, length),
            TransferView::Write { block, block_size, data } => write_apdu(block, block_size, data),
        }
    }

    /// What the transfer comes to, given the card's response to its command.
    pub open spec fn outcome(self, response: Seq<u8>) -> Result<OutcomeView, ErrorView> {
        match self {
            TransferView::Read { .. } => if is_success(response) {
                Ok(OutcomeView::Data(payload(response)))
            } else {
                Err(read_fault(response))
            },
            TransferView::Write { .. } => if is_success(response) {
                Ok(OutcomeView::Written(true))
            } else {
                Err(write_fault(response))
            },
        }
    }
}

/// What a block operation that succeeded hands back.
#[derive(Clone, Debug, PartialEq, Eq)]
pub enum Outcome {
    /// The bytes that a read returned.
    Data(Vec<u8>),
    /// Whether a write was done.
    Written(bool),
}

/// An [`Outcome`] as mathematical values.
pub enum OutcomeView {
    Data(Seq<u8>),
    Written(bool),
}

impl View for Outcome {
    type V = OutcomeView;

    open spec fn view(&self) -> OutcomeView {
        match self {
            Outcome::Data(data) => OutcomeView::Data(data@),
            Outcome::Written(done) => OutcomeView::Written(*done),
        }
    }
}

/// What the driver reports of the reader after a wait for a status change.
#[derive(Clone, Copy, Debug, PartialEq, Eq, Structural)]
pub struct ReaderStatus {
    /// How many card insertions and removals the reader has counted.
    pub event_count: u32,
    /// Whether the state differs from the one the caller last acknowledged.
    pub changed: bool,
    /// Whether a card is in the field of the reader.
    pub present: bool,
}

/// Where a block operation stands.
#[derive(Clone, Copy, Debug, PartialEq, Eq, Structural)]
pub enum Phase {
    /// Not started.
    Idle,
    /// Started; the state of the reader has not been observed yet.
    Unaware,
    /// Waiting for a card; `baseline` is the event count last observed.
    Watching { baseline: u32 },
    /// A card is present; the connection to it has been asked for.
    Connecting,
    /// Connected; the transaction and the answer to reset have been asked
    /// for.
    Classifying,
    /// The authentication command is with the card.
    Authenticating,
    /// The transfer command is with the card.
    Transferring,
    /// Over: the outcome has been handed out.
    Done,
}

/// What happened since the last step.
#[derive(Debug, PartialEq, Eq)]
pub enum Event {
    /// The caller starts the operation.
    Started,
    /// The wait for a status change returned.
    Status(ReaderStatus),
    /// The connection to the card is open.
    Connected,
    /// The transaction is open, and this is the card's answer to reset.
    Atr(Vec<u8>),
    /// The card answered the command that was transmitted.
    Response(Vec<u8>),
    /// The driver failed the call it was asked to make, with this status
    /// code.
    DriverFailed(u32),
}

/// An [`Event`] as mathematical values.
pub enum EventView {
    Started,
    Status(ReaderStatus),
    Connected,
    Atr(Seq<u8>),
    Response(Seq<u8>),
    DriverFailed(u32),
}

impl View for Event {
    type V = EventView;

    open spec fn view(&self) -> EventView {
        match self {
            Event::Started => EventView::Started,
            Event::Status(status) => EventView::Status(*status),
            Event::Connected => EventView::Connected,
            Event::Atr(atr) => EventView::Atr(atr@),
            Event::Response(response) => EventView::Response(response@),
            Event::DriverFailed(code) => EventView::DriverFailed(*code),
        }
    }
}

/// What the caller is to do next.
#[derive(Debug, PartialEq, Eq)]
pub enum Action {
    /// Wait until the driver reports a change of the reader's state, then
    /// hand in the status. With `resync`, first acknowledge the state last
    /// reported; with `pause`, first pause for the poll interval.
    AwaitStatus { resync: bool, pause: bool },
    /// Connect to the card, shared and with any protocol.
    Connect,
    /// Open a transaction on the card and read its answer to reset.
    OpenTransaction,
    /// Send these bytes to the card and hand in the response.
    Transmit(Vec<u8>),
    /// The operation is over, with this outcome.
    Finish(Result<Outcome, ReaderError>),
    /// The event does not answer what the machine last asked for; nothing
    /// has changed.
    Ignore,
}

/// An [`Action`] as mathematical values.
pub enum ActionView {
    AwaitStatus { resync: bool, pause: bool },
    Connect,
    OpenTransaction,
    Transmit(Seq<u8>),
    Finish(Result<OutcomeView, ErrorView>),
    Ignore,
}

impl View for Action {
    type V = ActionView;

    open spec fn view(&self) -> ActionView {
        match self {
            Action::AwaitStatus { resync, pause } => ActionView::AwaitStatus {
                resync: *resync,
                pause: *pause,
            },
            Action::Connect => ActionView::Connect,
            Action::OpenTransaction => ActionView::OpenTransaction,
            Action::Transmit(bytes) => ActionView::Transmit(bytes@),
            Action::Finish(result) => ActionView::Finish(
                match result {
                    Ok(outcome) => Ok(outcome@),
                    Err(e) => Err(e@),
                },
            ),
            Action::Ignore => ActionView::Ignore,
        }
    }
}

/// The failure reported for an operation that was cancelled. It names the
/// operation `Read Card`, for a read and for a write alike.
pub open spec fn cancelled_fault() -> ErrorView {
    ErrorView::OperationCancelled("Read Card"@)
}

/// Whether `event` answers what the machine asked for when it entered
/// `phase`. A failure of the driver answers any call to it.
pub open spec fn expects(phase: Phase, event: EventView) -> bool {
    match phase {
        Phase::Idle => event is Started,
        Phase::Unaware | Phase::Watching { .. } => event is Status || event is DriverFailed,
        Phase::Connecting => event is Connected || event is DriverFailed,
        Phase::Classifying => event is Atr || event is DriverFailed,
        Phase::Authenticating | Phase::Transferring => event is Response
            || event is DriverFailed,
        Phase::Done => false,
    }
}

/// Whether the cancellation flag is looked at in `phase`: up to the moment
/// the transaction is opened, and not after.
pub open spec fn honours_cancellation(phase: Phase) -> bool {
    match phase {
        Phase::Idle | Phase::Unaware | Phase::Watching { .. } | Phase::Connecting => true,
        _ => false,
    }
}

/// What the monitor does with a status while it waits for a card.
///
/// If the event count moved, the state changed and a card is present, it
/// connects. If the event count moved otherwise, it takes the new count as
/// its baseline, acknowledges a changed state, and waits on. If the count did
/// not move it waits on.
pub open spec fn watch(baseline: u32, status: ReaderStatus) -> (Phase, ActionView) {
    if status.event_count != baseline {
        if status.changed && status.present {
            (Phase::Connecting, ActionView::Connect)
        } else {
            (
                Phase::Watching { baseline: status.event_count },
                ActionView::AwaitStatus { resync: status.changed, pause: true },
            )
        }
    } else {
        (Phase::Watching { baseline }, ActionView::AwaitStatus { resync: false, pause: true })
    }
}

/// The step of the machine: the phase it moves to and the action it asks
/// for, given the transfer, the phase it is in, the event, and the value of
/// the cancellation flag.
pub open spec fn spec_step(
    transfer: TransferView,
    phase: Phase,
    event: EventView,
    cancelled: bool,
) -> (Phase, ActionView) {
    if !expects(phase, event) {
        (phase, ActionView::Ignore)
    } else if let EventView::DriverFailed(code) = event {
        (Phase::Done, ActionView::Finish(Err(ErrorView::PcscError(code))))
    } else if honours_cancellation(phase) && cancelled {
        (Phase::Done, ActionView::Finish(Err(cancelled_fault())))
    } else {
        match (phase, event) {
            (Phase::Idle, _) => (
                Phase::Unaware,
                ActionView::AwaitStatus { resync: false, pause: false },
            ),
            (Phase::Unaware, _) => (
                Phase::Watching { baseline: 0 },
                ActionView::AwaitStatus { resync: false, pause: false },
            ),
            (Phase::Watching { baseline }, EventView::Status(status)) => watch(baseline, status),
            (Phase::Connecting, _) => (Phase::Classifying, ActionView::OpenTransaction),
            (Phase::Classifying, EventView::Atr(atr)) => if is_supported_atr(atr) {
                (Phase::Authenticating, ActionView::Transmit(transfer.authentication()))
            } else {
                (Phase::Done, ActionView::Finish(Err(unsupported_card_fault())))
            },
            (Phase::Authenticating, EventView::Response(response)) => if is_success(response) {
                (Phase::Transferring, ActionView::Transmit(transfer.command()))
            } else {
                (Phase::Done, ActionView::Finish(Err(authentication_fault(response))))
            },
            (Phase::Transferring, EventView::Response(response)) => (
                Phase::Done,
                ActionView::Finish(transfer.outcome(response)),
            ),
            _ => (phase, ActionView::Ignore),
        }
    }
}

/// One block operation in progress.
#[derive(Debug, PartialEq, Eq)]
pub struct LeafSession {
    transfer: Transfer,
    phase: Phase,
}

impl LeafSession {
    /// What the session transfers.
    pub closed spec fn transfer(&self) -> TransferView {
        self.transfer@
    }

    /// Where the session stands.
    pub closed spec fn spec_phase(&self) -> Phase {
        self.phase
    }

    /// A session for `transfer`, not yet started. A write that does not carry
    /// exactly one block is refused.
    pub fn new(transfer: Transfer) -> (r: Result<LeafSession, ReaderError>)
        ensures
            match r {
                Ok(session) => {
                    &&& transfer@.well_formed()
                    &&& session.transfer() == transfer@
                    &&& session.spec_phase() == Phase::Idle
                },
                Err(e) => !transfer@.well_formed() && e@ == invalid_length_fault(),
            },
    {
        let fits = match &transfer {
            Transfer::Read { .. } => true,
            Transfer::Write { block_size, data, .. } => data.len() == *block_size as usize,
        };
        if fits {
            Ok(LeafSession { transfer, phase: Phase::Idle })
        } else {
            Err(
                ReaderError::card(
                    "Data length must be a multiple of block size.",
                    INVALID_PARAMETER,
                ),
            )
        }
    }

    /// Where the session stands.
    pub fn phase(&self) -> (phase: Phase)
        ensures
            phase == self.spec_phase(),
    {
        self.phase
    }

    /// Whether the session is over.
    pub fn is_done(&self) -> (done: bool)
        ensures
            done == (self.spec_phase() == Phase::Done),
    {
        match self.phase {
            Phase::Done => true,
            _ => false,
        }
    }

    /// The command that authenticates the sector of the session's block.
    fn authentication_command(&self) -> (apdu: Vec<u8>)
        ensures
            apdu@ == self.transfer@.authentication(),
    {
        let block: u16 = match &self.transfer {
            Transfer::Read { block, .. } => *block,
            Transfer::Write { block, .. } => *block,
        };
        authenticate_command((block % 256) as u8, KeyType::A)
    }

    /// The command that performs the session's transfer.
    fn transfer_command(&self) -> (apdu: Vec<u8>)
        ensures
            apdu@ == self.transfer@.command(),
    {
        match &self.transfer {
            Transfer::Read { block, length } => read_command(*block, *length),
            Transfer::Write { block, block_size, data } => write_command(
                *block,
                *block_size,
                data.as_slice(),
            ),
        }
    }

    /// What the transfer comes to, given the card's response to its command.
    fn conclude(&self, response: &[u8]) -> (r: Result<Outcome, ReaderError>)
        ensures
            (match r {
                Ok(outcome) => Ok(outcome@),
                Err(e) => Err(e@),
            }) == self.transfer@.outcome(response@),
    {
        match &self.transfer {
            Transfer::Read { .. } => match parse_read_response(response) {
                Ok(data) => Ok(Outcome::Data(data)),
                Err(e) => Err(e),
            },
            Transfer::Write { .. } => match check_write_response(response) {
                Ok(done) => Ok(Outcome::Written(done)),
                Err(e) => Err(e),
            },
        }
    }

    /// Takes the event that answers the last action, and the value of the
    /// cancellation flag, and returns the next action.
    ///
    /// A failure of the driver ends the session with that failure. Up to the
    /// moment the transaction is opened, a raised flag ends it as cancelled;
    /// once the transaction is open the flag is no longer looked at. An event
    /// that does not answer the last action changes nothing.
    pub fn step(&mut self, event: Event, cancelled: bool) -> (action: Action)
        ensures
            (final(self).spec_phase(), action@) == spec_step(
                old(self).transfer(),
                old(self).spec_phase(),
                event@,
                cancelled,
            ),
            final(self).transfer() == old(self).transfer(),
    {
        let phase = self.phase;
        let expected = match (&phase, &event) {
            (Phase::Idle, Event::Started) => true,
            (Phase::Unaware, Event::Status(_)) => true,
            (Phase::Unaware, Event::DriverFailed(_)) => true,
            (Phase::Watching { .. }, Event::Status(_)) => true,
            (Phase::Watching { .. }, Event::DriverFailed(_)) => true,
            (Phase::Connecting, Event::Connected) => true,
            (Phase::Connecting, Event::DriverFailed(_)) => true,
            (Phase::Classifying, Event::Atr(_)) => true,
            (Phase::Classifying, Event::DriverFailed(_)) => true,
            (Phase::Authenticating, Event::Response(_)) => true,
            (Phase::Authenticating, Event::DriverFailed(_)) => true,
            (Phase::Transferring, Event::Response(_)) => true,
            (Phase::Transferring, Event::DriverFailed(_)) => true,
            _ => false,
        };
        if !expected {
            return Action::Ignore;
        }
        if let Event::DriverFailed(code) = event {
            self.phase = Phase::Done;
            return Action::Finish(Err(ReaderError::PcscError(code)));
        }
        let checkpoint = match phase {
            Phase::Idle | Phase::Unaware | Phase::Watching { .. } | Phase::Connecting => true,
            _ => false,
        };
        if checkpoint && cancelled {
            self.phase = Phase::Done;
            return Action::Finish(
                Err(ReaderError::OperationCancelled(String::from_str("Read Card"))),
            );
        }
        match event {
            Event::Started => {
                self.phase = Phase::Unaware;
                Action::AwaitStatus { resync: false, pause: false }
            },
            Event::Status(status) => match phase {
                Phase::Watching { baseline } => {
                    if status.event_count != baseline {
                        if status.changed && status.present {
                            self.phase = Phase::Connecting;
                            Action::Connect
                        } else {
                            self.phase = Phase::Watching { baseline: status.event_count };
                            Action::AwaitStatus { resync: status.changed, pause: true }
                        }
                    } else {
                        Action::AwaitStatus { resync: false, pause: true }
                    }
                },
                _ => {
                    self.phase = Phase::Watching { baseline: 0 };
                    Action::AwaitStatus { resync: false, pause: false }
                },
            },
            Event::Connected => {
                self.phase = Phase::Classifying;
                Action::OpenTransaction
            },
            Event::Atr(atr) => match classify(atr.as_slice()) {
                Ok(_) => {
                    self.phase = Phase::Authenticating;
                    Action::Transmit(self.authentication_command())
                },
                Err(e) => {
                    self.phase = Phase::Done;
                    Action::Finish(Err(e))
                },
            },
            Event::Response(response) => match phase {
                Phase::Authenticating => match check_authentication(response.as_slice()) {
                    Ok(_) => {
                        self.phase = Phase::Transferring;
                        Action::Transmit(self.transfer_command())
                    },
                    Err(e) => {
                        self.phase = Phase::Done;
                        Action::Finish(Err(e))
                    },
                },
                _ => {
                    let result = self.conclude(response.as_slice());
                    self.phase = Phase::Done;
                    Action::Finish(result)
                },
            },
            Event::DriverFailed(code) => {
                self.phase = Phase::Done;
                Action::Finish(Err(ReaderError::PcscError(code)))
            },
        }
    }
}

} // verus!
