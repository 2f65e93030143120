//! The failures that the engine reports.

use vstd::prelude::*;

verus! {

/// Driver status code: the handle passed to the driver is not valid.
pub const INVALID_HANDLE: u32 = 0x8010_0003;

/// Driver status code: a parameter could not be interpreted.
pub const INVALID_PARAMETER: u32 = 0x8010_0004;

/// Driver status code: a value could not be interpreted.
pub const INVALID_VALUE: u32 = 0x8010_0011;

/// Driver status code: the card is not supported.
pub const CARD_UNSUPPORTED: u32 = 0x8010_001C;

/// Driver status code: the service is too busy to take the request.
pub const SERVER_TOO_BUSY: u32 = 0x8010_0031;

/// Driver status code: the card has not been authenticated.
pub const CARD_NOT_AUTHENTICATED: u32 = 0x8010_006F;

/// A failure of the reader, the driver, the card or the request.
///
/// Driver status codes are carried as the raw 32-bit PC/SC value.
#[derive(Clone, Debug, PartialEq, Eq)]
pub enum ReaderError {
    /// The selected reader does not belong to the supported family; carries
    /// its name.
    UnsupportedReader(String),
    /// The driver refused or failed a call; carries its status code.
    PcscError(u32),
    /// The driver lists no reader.
    NoReadersFound,
    /// The card or the request is at fault; carries a message and the status
    /// code that classifies the fault.
    CardError(String, u32),
    /// The request was cancelled; carries the name of the operation.
    OperationCancelled(String),
}

/// What a [`ReaderError`] holds, as mathematical values.
pub enum ErrorView {
    UnsupportedReader(Seq<char>),
    PcscError(u32),
    NoReadersFound,
    CardError(Seq<char>, u32),
    OperationCancelled(Seq<char>),
}

impl View for ReaderError {
    type V = ErrorView;

    open spec fn view(&self) -> ErrorView {
        match self {
            ReaderError::UnsupportedReader(name) => ErrorView::UnsupportedReader(name@),
            ReaderError::PcscError(code) => ErrorView::PcscError(*code),
            ReaderError::NoReadersFound => ErrorView::NoReadersFound,
            ReaderError::CardError(message, code) => ErrorView::CardError(message@, *code),
            ReaderError::OperationCancelled(operation) => ErrorView::OperationCancelled(
                operation@,
            ),
        }
    }
}

impl ErrorView {
    /// The line that describes the failure to a reader. `driver_text` is the
    /// driver's own description of the status code that the failure carries,
    /// if it carries one.
    pub open spec fn text(self, driver_text: Seq<char>) -> Seq<char> {
        match self {
            ErrorView::UnsupportedReader(name) => "Unsupported reader: "@ + name,
            ErrorView::PcscError(_) => "PCSC error: "@ + driver_text,
            ErrorView::NoReadersFound => "No readers found"@,
            ErrorView::CardError(message, _) => "Card error: "@ + message + ", "@ + driver_text,
            ErrorView::OperationCancelled(operation) => "Operation cancelled: "@ + operation,
        }
    }

    /// The kind of the failure, as the record of it names it.
    pub open spec fn label(self) -> Seq<char> {
        match self {
            ErrorView::UnsupportedReader(_) => "Unsupported Reader"@,
            ErrorView::PcscError(_) => "PCSC Error"@,
            ErrorView::NoReadersFound => "No Readers Found"@,
            ErrorView::CardError(_, _) => "Card Error"@,
            ErrorView::OperationCancelled(_) => "Operation Cancelled"@,
        }
    }

    /// The record of the failure: its fields by name, in order. The first is
    /// always `error`, with the kind of the failure.
    pub open spec fn fields(self, driver_text: Seq<char>) -> Seq<(Seq<char>, Seq<char>)> {
        match self {
            ErrorView::UnsupportedReader(name) => seq![("error"@, self.label()), ("reader"@, name)],
            ErrorView::PcscError(_) => seq![("error"@, self.label()), ("message"@, driver_text)],
            ErrorView::NoReadersFound => seq![("error"@, self.label())],
            ErrorView::CardError(message, _) => seq![
                ("error"@, self.label()),
                ("card"@, message),
                ("message"@, driver_text),
            ],
            ErrorView::OperationCancelled(operation) => seq![
                ("error"@, self.label()),
                ("operation"@, operation),
            ],
        }
    }
}

impl From<u32> for ReaderError {
    /// The failure of a call to the driver that ended with status `code`.
    fn from(code: u32) -> (e: ReaderError) {
        ReaderError::PcscError(code)
    }
}

impl vstd::std_specs::convert::FromSpecImpl<u32> for ReaderError {
    open spec fn obeys_from_spec() -> bool {
        true
    }

    open spec fn from_spec(code: u32) -> ReaderError {
        ReaderError::PcscError(code)
    }
}

/// The fields of a record as mathematical values.
pub open spec fn field_views(fields: Seq<(String, String)>) -> Seq<(Seq<char>, Seq<char>)> {
    fields.map_values(|field: (String, String)| (field.0@, field.1@))
}

/// A field of a record.
fn field(name: &str, value: &str) -> (f: (String, String))
    ensures
        f.0@ == name@,
        f.1@ == value@,
{
    (String::from_str(name), String::from_str(value))
}

impl ReaderError {
    /// The status code of the driver that the failure carries, if any.
    pub fn code(&self) -> (code: Option<u32>)
        ensures
            code == match self@ {
                ErrorView::PcscError(c) => Some(c),
                ErrorView::CardError(_, c) => Some(c),
                _ => None,
            },
    {
        match self {
            ReaderError::PcscError(code) => Some(*code),
            ReaderError::CardError(_, code) => Some(*code),
            _ => None,
        }
    }

    /// The kind of the failure, as the record of it names it.
    pub fn label(&self) -> (label: String)
        ensures
            label@ == self@.label(),
    {
        match self {
            ReaderError::UnsupportedReader(_) => String::from_str("Unsupported Reader"),
            ReaderError::PcscError(_) => String::from_str("PCSC Error"),
            ReaderError::NoReadersFound => String::from_str("No Readers Found"),
            ReaderError::CardError(_, _) => String::from_str("Card Error"),
            ReaderError::OperationCancelled(_) => String::from_str("Operation Cancelled"),
        }
    }

    /// The line that describes the failure to a reader. `driver_text` is the
    /// driver's own description of the status code that the failure carries;
    /// it is not used where the failure carries none.
    pub fn to_text(&self, driver_text: &str) -> (text: String)
        ensures
            text@ == self@.text(driver_text@),
    {
        match self {
            ReaderError::UnsupportedReader(name) => {
                let mut text = String::from_str("Unsupported reader: ");
                text.append(name.as_str());
                text
            },
            ReaderError::PcscError(_) => {
                let mut text = String::from_str("PCSC error: ");
                text.append(driver_text);
                text
            },
            ReaderError::NoReadersFound => String::from_str("No readers found"),
            ReaderError::CardError(message, _) => {
                let mut text = String::from_str("Card error: ");
                text.append(message.as_str());
                text.append(", ");
                text.append(driver_text);
                text
            },
            ReaderError::OperationCancelled(operation) => {
                let mut text = String::from_str("Operation cancelled: ");
                text.append(operation.as_str());
                text
            },
        }
    }

    /// The record of the failure: its fields by name, in order.
    /// `driver_text` is the driver's own description of the status code that
    /// the failure carries; it is not used where the failure carries none.
    pub fn fields(&self, driver_text: &str) -> (fields: Vec<(String, String)>)
        ensures
            field_views(fields@) == self@.fields(driver_text@),
    {
        let label = self.label();
        let mut fields: Vec<(String, String)> = Vec::new();
        fields.push(field("error", label.as_str()));
        match self {
            ReaderError::UnsupportedReader(name) => {
                fields.push(field("reader", name.as_str()));
            },
            ReaderError::PcscError(_) => {
                fields.push(field("message", driver_text));
            },
            ReaderError::NoReadersFound => {},
            ReaderError::CardError(message, _) => {
                fields.push(field("card", message.as_str()));
                fields.push(field("message", driver_text));
            },
            ReaderError::OperationCancelled(operation) => {
                fields.push(field("operation", operation.as_str()));
            },
        }
        assert(field_views(fields@) =~= self@.fields(driver_text@));
        fields
    }

    /// A card fault with the given message and code.
    pub fn card(message: &str, code: u32) -> (e: ReaderError)
        ensures
            e@ == ErrorView::CardError(message@, code),
    {
        ReaderError::CardError(String::from_str(message), code)
    }

    /// An independent copy of this error.
    pub fn duplicate(&self) -> (e: ReaderError)
        ensures
            e@ == self@,
    {
        match self {
            ReaderError::UnsupportedReader(name) => ReaderError::UnsupportedReader(name.clone()),
            ReaderError::PcscError(code) => ReaderError::PcscError(*code),
            ReaderError::NoReadersFound => ReaderError::NoReadersFound,
            ReaderError::CardError(message, code) => ReaderError::CardError(
                message.clone(),
                *code,
            ),
            ReaderError::OperationCancelled(operation) => ReaderError::OperationCancelled(
                operation.clone(),
            ),
        }
    }
}

/// The failure of the earliest result that failed, if any did.
pub open spec fn first_error<T>(results: Seq<Result<T, ReaderError>>) -> Option<ErrorView>
    decreases results.len(),
{
    if results.len() == 0 {
        None
    } else {
        match first_error(results.drop_last()) {
            Some(e) => Some(e),
            None => match results.last() {
                Err(e) => Some(e@),
                Ok(_) => None,
            },
        }
    }
}

/// Results that follow a failure do not change which failure is the first.
pub proof fn lemma_first_error_stable<T>(results: Seq<Result<T, ReaderError>>, k: int)
    requires
        0 <= k <= results.len(),
        first_error(results.take(k)) is Some,
    ensures
        first_error(results) == first_error(results.take(k)),
    decreases results.len() - k,
{
    if k == results.len() {
        assert(results.take(k) =~= results);
    } else {
        assert(results.take(k + 1).drop_last() =~= results.take(k));
        lemma_first_error_stable(results, k + 1);
    }
}

/// The first failure is the failure of the result at the least index that
/// holds one; there is none exactly if every result is a success.
pub proof fn lemma_first_error_is_earliest<T>(results: Seq<Result<T, ReaderError>>)
    ensures
        first_error(results) is None <==> forall|i: int|
            0 <= i < results.len() ==> (#[trigger] results[i]) is Ok,
        first_error(results) is Some ==> exists|at: int|
            {
                &&& 0 <= at < results.len()
                &&& ((#[trigger] results[at]) matches Err(e) && first_error(results) == Some(e@))
                &&& forall|j: int| 0 <= j < at ==> (#[trigger] results[j]) is Ok
            },
    decreases results.len(),
{
    if results.len() > 0 {
        let front = results.drop_last();
        lemma_first_error_is_earliest(front);
        assert(forall|i: int| 0 <= i < front.len() ==> front[i] == results[i]);
        if first_error(front) is Some {
            let at = choose|at: int|
                {
                    &&& 0 <= at < front.len()
                    &&& ((#[trigger] front[at]) matches Err(e) && first_error(front) == Some(e@))
                    &&& forall|j: int| 0 <= j < at ==> (#[trigger] front[j]) is Ok
                };
            assert(results[at] == front[at]);
            assert(forall|j: int| 0 <= j < at ==> front[j] == results[j]);
            assert(!(results[at] is Ok));
        } else {
            if results.last() is Err {
                let at = results.len() - 1;
                assert(results[at] == results.last());
                assert(forall|j: int| 0 <= j < at ==> (#[trigger] results[j]) == front[j]);
                assert(!(results[at] is Ok));
            } else {
                assert forall|i: int| 0 <= i < results.len() implies (#[trigger] results[i]) is Ok by {
                    if i < front.len() {
                        assert(results[i] == front[i]);
                    }
                }
            }
        }
    }
}

} // verus!
