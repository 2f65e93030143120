//! The working hours of a day as they are kept for a user, and the update of
//! one of them.

use vstd::prelude::*;
use vstd::utf8::encode_utf8;
use crate::text::{lemma_same_bytes_same_text, same_bytes};

verus! {

/// The times of one working day, each as text.
#[derive(Clone, Debug, PartialEq, Eq)]
pub struct HourData {
    pub clock_in: String,
    pub lunch_break_out: String,
    pub lunch_break_return: String,
    pub clocked_out: String,
    pub total_hours: String,
}

impl HourData {
    /// A day of which nothing is known yet: every time reads `N/A`.
    pub fn not_available() -> (day: HourData)
        ensures
            day.clock_in@ == "N/A"@,
            day.lunch_break_out@ == "N/A"@,
            day.lunch_break_return@ == "N/A"@,
            day.clocked_out@ == "N/A"@,
            day.total_hours@ == "N/A"@,
    {
        HourData {
            clock_in: String::from_str("N/A"),
            lunch_break_out: String::from_str("N/A"),
            lunch_break_return: String::from_str("N/A"),
            clocked_out: String::from_str("N/A"),
            total_hours: String::from_str("N/A"),
        }
    }
}

impl Default for HourData {
    fn default() -> (day: HourData)
        ensures
            day.clock_in@.len() == 0,
            day.lunch_break_out@.len() == 0,
            day.lunch_break_return@.len() == 0,
            day.clocked_out@.len() == 0,
            day.total_hours@.len() == 0,
    {
        HourData {
            clock_in: String::new(),
            lunch_break_out: String::new(),
            lunch_break_return: String::new(),
            clocked_out: String::new(),
            total_hours: String::new(),
        }
    }
}

/// Which time of a day an update is about.
#[derive(Clone, Copy, Debug, PartialEq, Eq, Structural)]
pub enum UpdateKey {
    ClockIn,
    ClockLunchOut,
    ClockLunchReturn,
    ClockOut,
}

/// The name of a key, as it is written in text.
pub open spec fn key_name(key: UpdateKey) -> Seq<char> {
    match key {
        UpdateKey::ClockIn => "clock_in"@,
        UpdateKey::ClockLunchOut => "clock_lunch_out"@,
        UpdateKey::ClockLunchReturn => "clock_lunch_return"@,
        UpdateKey::ClockOut => "clock_out"@,
    }
}

/// The key whose name `token` is, in UTF-8; where several keys could claim
/// it, the one declared first.
pub open spec fn key_named(token: Seq<u8>) -> Option<UpdateKey> {
    if token == encode_utf8(key_name(UpdateKey::ClockIn)) {
        Some(UpdateKey::ClockIn)
    } else if token == encode_utf8(key_name(UpdateKey::ClockLunchOut)) {
        Some(UpdateKey::ClockLunchOut)
    } else if token == encode_utf8(key_name(UpdateKey::ClockLunchReturn)) {
        Some(UpdateKey::ClockLunchReturn)
    } else if token == encode_utf8(key_name(UpdateKey::ClockOut)) {
        Some(UpdateKey::ClockOut)
    } else {
        None
    }
}

impl UpdateKey {
    /// The key whose name `text` is, if it is the name of one.
    pub fn parse(text: &str) -> (r: Option<UpdateKey>)
        ensures
            r == key_named(encode_utf8(text@)),
    {
        let token = text.as_bytes();
        if same_bytes(token, "clock_in".as_bytes()) {
            Some(UpdateKey::ClockIn)
        } else if same_bytes(token, "clock_lunch_out".as_bytes()) {
            Some(UpdateKey::ClockLunchOut)
        } else if same_bytes(token, "clock_lunch_return".as_bytes()) {
            Some(UpdateKey::ClockLunchReturn)
        } else if same_bytes(token, "clock_out".as_bytes()) {
            Some(UpdateKey::ClockOut)
        } else {
            None
        }
    }
}

impl core::str::FromStr for UpdateKey {
    type Err = ();

    /// The key whose name `s` is; an error if it is the name of none.
    fn from_str(s: &str) -> (r: Result<UpdateKey, ()>)
        ensures
            r == match key_named(encode_utf8(s@)) {
                Some(key) => Ok::<UpdateKey, ()>(key),
                None => Err::<UpdateKey, ()>(()),
            },
    {
        match UpdateKey::parse(s) {
            Some(key) => Ok(key),
            None => Err(()),
        }
    }
}

/// Sets the time that `key_to_update` names to `value` and leaves the other
/// times of the day as they are.
pub fn update_hour_data(day_data: &mut HourData, key_to_update: UpdateKey, value: String)
    ensures
        final(day_data).clock_in@ == if key_to_update == UpdateKey::ClockIn {
            value@
        } else {
            old(day_data).clock_in@
        },
        final(day_data).lunch_break_out@ == if key_to_update == UpdateKey::ClockLunchOut {
            value@
        } else {
            old(day_data).lunch_break_out@
        },
        final(day_data).lunch_break_return@ == if key_to_update == UpdateKey::ClockLunchReturn {
            value@
        } else {
            old(day_data).lunch_break_return@
        },
        final(day_data).clocked_out@ == if key_to_update == UpdateKey::ClockOut {
            value@
        } else {
            old(day_data).clocked_out@
        },
        final(day_data).total_hours@ == old(day_data).total_hours@,
{
    match key_to_update {
        UpdateKey::ClockIn => day_data.clock_in = value,
        UpdateKey::ClockLunchOut => day_data.lunch_break_out = value,
        UpdateKey::ClockLunchReturn => day_data.lunch_break_return = value,
        UpdateKey::ClockOut => day_data.clocked_out = value,
    }
}

/// Whether the user at `at` is the first among `ids` with the identifier
/// `id`.
pub open spec fn first_with_id(ids: Seq<String>, id: Seq<char>, at: int) -> bool {
    &&& 0 <= at < ids.len()
    &&& ids[at]@ == id
    &&& forall|j: int| 0 <= j < at ==> (#[trigger] ids[j])@ != id
}

/// The failure reported when no user has the identifier that was asked for.
pub open spec fn user_not_found() -> Seq<char> {
    "User not found"@
}

/// Finds the user with the identifier `id` among the users whose identifiers
/// are `ids`, and gives its place; fails if there is none.
pub fn get_user(ids: &Vec<String>, id: &str) -> (r: Result<usize, String>)
    ensures
        match r {
            Ok(at) => first_with_id(ids@, id@, at as int),
            Err(message) => {
                &&& forall|j: int| 0 <= j < ids@.len() ==> (#[trigger] ids@[j])@ != id@
                &&& message@ == user_not_found()
            },
        },
{
    let wanted = String::from_str(id);
    let mut at: usize = 0;
    while at < ids.len()
        invariant
            at <= ids@.len(),
            wanted@ == id@,
            forall|j: int| 0 <= j < at ==> (#[trigger] ids@[j])@ != id@,
        decreases ids@.len() - at,
    {
        if ids[at] == wanted {
            return Ok(at);
        }
        at += 1;
    }
    Err(String::from_str("User not found"))
}

/// A text is read as a key exactly if it is the name of that key.
pub proof fn lemma_key_named_by_its_name(text: Seq<char>, key: UpdateKey)
    ensures
        key_named(encode_utf8(text)) == Some(key) <==> text == key_name(key),
{
    reveal_strlit("clock_in");
    reveal_strlit("clock_lunch_out");
    reveal_strlit("clock_lunch_return");
    reveal_strlit("clock_out");
    assert forall|other: UpdateKey| encode_utf8(text) == encode_utf8(key_name(other)) implies text
        == key_name(other) by {
        lemma_same_bytes_same_text(text, key_name(other));
    }
    assert forall|other: UpdateKey| other != key implies key_name(other).len() != key_name(
        key,
    ).len() by {}
}

} // verus!
