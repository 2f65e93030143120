//! The permission bit field of a user and the check that decides whether a
//! user may perform an action.

use vstd::prelude::*;
use vstd::utf8::encode_utf8;
use crate::text::{lemma_same_bytes_same_text, same_bytes};

verus! {

/// May read one's own records.
pub const READ_SELF: u64 = 0x1;

/// May read the records of others.
pub const READ_OTHERS: u64 = 0x2;

/// May write one's own records.
pub const WRITE_SELF: u64 = 0x4;

/// May write the records of others.
pub const WRITE_OTHERS: u64 = 0x8;

/// May delete one's own records.
pub const DELETE_SELF: u64 = 0x10;

/// May delete the records of others.
pub const DELETE_OTHERS: u64 = 0x20;

/// May edit recorded hours.
pub const EDIT_HOURS: u64 = 0x40;

/// May edit the hierarchy.
pub const EDIT_HIERARCHY: u64 = 0x80;

/// May create reports.
pub const CREATE_REPORTS: u64 = 0x100;

/// Marks a privileged user (bit 50).
pub const SUPER_USER: u64 = 0x0004_0000_0000_0000;

/// Everything a supervisor may do: read and write for all, edit hours, create
/// reports, and the privileged mark.
pub const SUPERVISOR: u64 = 0x0004_0000_0000_014F;

/// Everything an administrator may do: what a supervisor may, and delete for
/// all and edit the hierarchy.
pub const ADMINISTRATOR: u64 = 0x0004_0000_0000_01FF;

/// A set of permission flags, one bit each.
#[derive(Clone, Copy, Debug)]
pub struct Permissions {
    pub bits: u64,
}

impl Permissions {
    /// Whether every flag of `other` is in this set.
    pub open spec fn spec_contains(self, other: Permissions) -> bool {
        self.bits & other.bits == other.bits
    }

    /// The set with exactly the flags in `bits`.
    pub fn from_bits(bits: u64) -> (p: Permissions)
        ensures
            p.bits == bits,
    {
        Permissions { bits }
    }

    /// The set without any flag.
    pub fn empty() -> (p: Permissions)
        ensures
            p.bits == 0,
    {
        Permissions { bits: 0 }
    }

    /// Tests whether every flag of `other` is in this set.
    pub fn contains(&self, other: Permissions) -> (r: bool)
        ensures
            r == self.spec_contains(other),
    {
        self.bits & other.bits == other.bits
    }

    /// The set with the flags of both.
    pub fn union(self, other: Permissions) -> (p: Permissions)
        ensures
            p.bits == self.bits | other.bits,
    {
        Permissions { bits: self.bits | other.bits }
    }
}

impl Default for Permissions {
    fn default() -> (p: Permissions)
        ensures
            p.bits == 0,
    {
        Permissions { bits: 0 }
    }
}

/// The permissions that a user holds.
#[derive(Clone, Copy, Debug)]
pub struct PermissionsBitField {
    pub flags: Permissions,
}

impl Default for PermissionsBitField {
    fn default() -> (p: PermissionsBitField)
        ensures
            p.flags.bits == 0,
    {
        PermissionsBitField { flags: Permissions { bits: 0 } }
    }
}

/// What a user may ask to do.
#[derive(Clone, Copy, Debug, PartialEq, Eq, Structural)]
pub enum PermissionAction {
    ReadSelf,
    ReadOthers,
    WriteSelf,
    WriteOthers,
    DeleteSelf,
    DeleteOthers,
    EditHours,
    EditHierarchy,
    CreateReports,
    SuperUser,
    Supervisor,
    Administrator,
}

impl PermissionAction {
    /// The flags that a user must hold to perform this action.
    pub open spec fn required_bits(self) -> u64 {
        match self {
            PermissionAction::ReadSelf => READ_SELF,
            PermissionAction::ReadOthers => READ_OTHERS,
            PermissionAction::WriteSelf => WRITE_SELF,
            PermissionAction::WriteOthers => WRITE_OTHERS,
            PermissionAction::DeleteSelf => DELETE_SELF,
            PermissionAction::DeleteOthers => DELETE_OTHERS,
            PermissionAction::EditHours => EDIT_HOURS,
            PermissionAction::EditHierarchy => EDIT_HIERARCHY,
            PermissionAction::CreateReports => CREATE_REPORTS,
            PermissionAction::SuperUser => SUPER_USER,
            PermissionAction::Supervisor => SUPERVISOR,
            PermissionAction::Administrator => ADMINISTRATOR,
        }
    }

    /// The bit field that holds exactly the flags this action requires.
    pub fn to_permission_bitfield(&self) -> (field: PermissionsBitField)
        ensures
            field.flags.bits == self.required_bits(),
    {
        let bits: u64 = match self {
            PermissionAction::ReadSelf => READ_SELF,
            PermissionAction::ReadOthers => READ_OTHERS,
            PermissionAction::WriteSelf => WRITE_SELF,
            PermissionAction::WriteOthers => WRITE_OTHERS,
            PermissionAction::DeleteSelf => DELETE_SELF,
            PermissionAction::DeleteOthers => DELETE_OTHERS,
            PermissionAction::EditHours => EDIT_HOURS,
            PermissionAction::EditHierarchy => EDIT_HIERARCHY,
            PermissionAction::CreateReports => CREATE_REPORTS,
            PermissionAction::SuperUser => SUPER_USER,
            PermissionAction::Supervisor => SUPERVISOR,
            PermissionAction::Administrator => ADMINISTRATOR,
        };
        PermissionsBitField { flags: Permissions { bits } }
    }
}

/// Decides whether a user may perform an action.
pub struct PermissionChecker;

impl PermissionChecker {
    /// Whether a user with `user_permissions` may perform `action`: the user
    /// must hold every flag that the action requires.
    pub open spec fn allows(user_permissions: PermissionsBitField, action: PermissionAction) -> bool {
        user_permissions.flags.bits & action.required_bits() == action.required_bits()
    }

    /// Tests whether a user with `user_permissions` may perform `action`.
    pub fn check_permission(user_permissions: PermissionsBitField, action: PermissionAction) -> (r:
        bool)
        ensures
            r == Self::allows(user_permissions, action),
    {
        let action_permissions = action.to_permission_bitfield();
        user_permissions.flags.contains(action_permissions.flags)
    }
}

/// The name of an action, as it is written in text.
pub open spec fn action_name(action: PermissionAction) -> Seq<char> {
    match action {
        PermissionAction::ReadSelf => "ReadSelf"@,
        PermissionAction::ReadOthers => "ReadOthers"@,
        PermissionAction::WriteSelf => "WriteSelf"@,
        PermissionAction::WriteOthers => "WriteOthers"@,
        PermissionAction::DeleteSelf => "DeleteSelf"@,
        PermissionAction::DeleteOthers => "DeleteOthers"@,
        PermissionAction::EditHours => "EditHours"@,
        PermissionAction::EditHierarchy => "EditHierarchy"@,
        PermissionAction::CreateReports => "CreateReports"@,
        PermissionAction::SuperUser => "SuperUser"@,
        PermissionAction::Supervisor => "Supervisor"@,
        PermissionAction::Administrator => "Administrator"@,
    }
}

/// Whether `token` is the name of `action`, in UTF-8.
pub open spec fn names(token: Seq<u8>, action: PermissionAction) -> bool {
    token == encode_utf8(action_name(action))
}

/// The action whose name `token` is, in UTF-8; where several actions could
/// claim it, the one declared first.
pub open spec fn action_named(token: Seq<u8>) -> Option<PermissionAction> {
    if names(token, PermissionAction::ReadSelf) {
        Some(PermissionAction::ReadSelf)
    } else if names(token, PermissionAction::ReadOthers) {
        Some(PermissionAction::ReadOthers)
    } else if names(token, PermissionAction::WriteSelf) {
        Some(PermissionAction::WriteSelf)
    } else if names(token, PermissionAction::WriteOthers) {
        Some(PermissionAction::WriteOthers)
    } else if names(token, PermissionAction::DeleteSelf) {
        Some(PermissionAction::DeleteSelf)
    } else if names(token, PermissionAction::DeleteOthers) {
        Some(PermissionAction::DeleteOthers)
    } else if names(token, PermissionAction::EditHours) {
        Some(PermissionAction::EditHours)
    } else if names(token, PermissionAction::EditHierarchy) {
        Some(PermissionAction::EditHierarchy)
    } else if names(token, PermissionAction::CreateReports) {
        Some(PermissionAction::CreateReports)
    } else if names(token, PermissionAction::SuperUser) {
        Some(PermissionAction::SuperUser)
    } else if names(token, PermissionAction::Supervisor) {
        Some(PermissionAction::Supervisor)
    } else if names(token, PermissionAction::Administrator) {
        Some(PermissionAction::Administrator)
    } else {
        None
    }
}

/// The position of the first comma in `bytes`, or the length of `bytes` if
/// it holds none.
pub open spec fn first_comma(bytes: Seq<u8>) -> int
    decreases bytes.len(),
{
    if bytes.len() == 0 || bytes[0] == 0x2Cu8 {
        0
    } else {
        1 + first_comma(bytes.drop_first())
    }
}

/// The flags that a list of action names stands for, the names given in
/// UTF-8 and parted by commas: the flags of all the actions together. There
/// are none if a part of the list is not the name of an action; the empty
/// text is such a list, of one empty part.
pub open spec fn flags_listed(bytes: Seq<u8>) -> Option<u64>
    decreases bytes.len(),
{
    let end = first_comma(bytes);
    match action_named(bytes.take(end)) {
        None => None,
        Some(action) => if !(0 <= end < bytes.len()) {
            Some(action.required_bits())
        } else {
            match flags_listed(bytes.skip(end + 1)) {
                None => None,
                Some(rest) => Some(action.required_bits() | rest),
            }
        },
    }
}

/// The first comma of `bytes` is at `end` if no byte in front of `end` is a
/// comma and a comma, or the end of `bytes`, is at `end`.
pub proof fn lemma_first_comma_found(bytes: Seq<u8>, end: int)
    requires
        0 <= end <= bytes.len(),
        forall|j: int| 0 <= j < end ==> bytes[j] != 0x2Cu8,
        end < bytes.len() ==> bytes[end] == 0x2Cu8,
    ensures
        first_comma(bytes) == end,
    decreases bytes.len(),
{
    if end > 0 {
        let rest = bytes.drop_first();
        assert forall|j: int| 0 <= j < end - 1 implies rest[j] != 0x2Cu8 by {
            assert(rest[j] == bytes[j + 1]);
        }
        lemma_first_comma_found(rest, end - 1);
    }
}

impl PermissionAction {
    /// The action whose name the bytes of `token` are.
    pub fn from_name(token: &[u8]) -> (r: Option<PermissionAction>)
        ensures
            r == action_named(token@),
    {
        if same_bytes(token, "ReadSelf".as_bytes()) {
            Some(PermissionAction::ReadSelf)
        } else if same_bytes(token, "ReadOthers".as_bytes()) {
            Some(PermissionAction::ReadOthers)
        } else if same_bytes(token, "WriteSelf".as_bytes()) {
            Some(PermissionAction::WriteSelf)
        } else if same_bytes(token, "WriteOthers".as_bytes()) {
            Some(PermissionAction::WriteOthers)
        } else if same_bytes(token, "DeleteSelf".as_bytes()) {
            Some(PermissionAction::DeleteSelf)
        } else if same_bytes(token, "DeleteOthers".as_bytes()) {
            Some(PermissionAction::DeleteOthers)
        } else if same_bytes(token, "EditHours".as_bytes()) {
            Some(PermissionAction::EditHours)
        } else if same_bytes(token, "EditHierarchy".as_bytes()) {
            Some(PermissionAction::EditHierarchy)
        } else if same_bytes(token, "CreateReports".as_bytes()) {
            Some(PermissionAction::CreateReports)
        } else if same_bytes(token, "SuperUser".as_bytes()) {
            Some(PermissionAction::SuperUser)
        } else if same_bytes(token, "Supervisor".as_bytes()) {
            Some(PermissionAction::Supervisor)
        } else if same_bytes(token, "Administrator".as_bytes()) {
            Some(PermissionAction::Administrator)
        } else {
            None
        }
    }

    /// The action whose name `text` is, if it is the name of one.
    pub fn parse(text: &str) -> (r: Option<PermissionAction>)
        ensures
            r == action_named(encode_utf8(text@)),
    {
        PermissionAction::from_name(text.as_bytes())
    }
}

impl core::str::FromStr for PermissionAction {
    type Err = ();

    /// The action whose name `s` is; an error if it is the name of none.
    fn from_str(s: &str) -> (r: Result<PermissionAction, ()>)
        ensures
            r == match action_named(encode_utf8(s@)) {
                Some(action) => Ok::<PermissionAction, ()>(action),
                None => Err::<PermissionAction, ()>(()),
            },
    {
        match PermissionAction::parse(s) {
            Some(action) => Ok(action),
            None => Err(()),
        }
    }
}

/// `text`, followed by `name` if `bits` holds every flag of `flag`, with a
/// comma in between if `text` is not empty.
pub open spec fn with_name(text: Seq<char>, bits: u64, flag: u64, name: Seq<char>) -> Seq<char> {
    if bits & flag == flag {
        if text.len() == 0 {
            name
        } else {
            text + ","@ + name
        }
    } else {
        text
    }
}

/// The text of a set of flags: the names of the listed flags that the set
/// holds, in the order of the list and parted by commas. The list leaves out
/// the three flags that concern the records of others.
pub open spec fn flags_text(bits: u64) -> Seq<char> {
    let text = Seq::<char>::empty();
    let text = with_name(text, bits, READ_SELF, "ReadSelf"@);
    let text = with_name(text, bits, WRITE_SELF, "WriteSelf"@);
    let text = with_name(text, bits, DELETE_SELF, "DeleteSelf"@);
    let text = with_name(text, bits, EDIT_HOURS, "EditHours"@);
    let text = with_name(text, bits, EDIT_HIERARCHY, "EditHierarchy"@);
    let text = with_name(text, bits, CREATE_REPORTS, "CreateReports"@);
    let text = with_name(text, bits, SUPER_USER, "SuperUser"@);
    let text = with_name(text, bits, SUPERVISOR, "Supervisor"@);
    with_name(text, bits, ADMINISTRATOR, "Administrator"@)
}

/// Appends `name` to `text` if `bits` holds every flag of `flag`.
fn push_name(text: &mut String, bits: u64, flag: u64, name: &str)
    requires
        name@.len() > 0,
    ensures
        final(text)@ == with_name(old(text)@, bits, flag, name@),
{
    if bits & flag == flag {
        let empty = text.as_str().is_empty();
        if !empty {
            text.append(",");
        }
        text.append(name);
        proof {
            if empty {
                assert(text@ =~= name@);
            }
        }
    }
}

impl PermissionsBitField {
    /// The bit field that a list of action names stands for, the names parted
    /// by commas; `None` if a part of the list is not the name of an action.
    pub fn parse(text: &str) -> (r: Option<PermissionsBitField>)
        ensures
            match r {
                Some(field) => flags_listed(encode_utf8(text@)) == Some(field.flags.bits),
                None => flags_listed(encode_utf8(text@)) is None,
            },
    {
        let bytes = text.as_bytes();
        let mut bits: u64 = 0;
        let mut from: usize = 0;
        proof {
            assert(bytes@.skip(0) =~= bytes@);
            assert forall|rest: u64| (0u64 | rest) == rest by {
                assert((0u64 | rest) == rest) by (bit_vector);
            }
        }
        loop
            invariant
                from <= bytes@.len(),
                bytes@ == encode_utf8(text@),
                flags_listed(bytes@) == match flags_listed(bytes@.skip(from as int)) {
                    None => None::<u64>,
                    Some(rest) => Some(bits | rest),
                },
            decreases bytes@.len() - from,
        {
            let mut end: usize = from;
            while end < bytes.len() && bytes[end] != 0x2C
                invariant
                    from <= end <= bytes@.len(),
                    forall|j: int| from <= j < end ==> bytes@[j] != 0x2Cu8,
                decreases bytes@.len() - end,
            {
                end += 1;
            }
            let ghost rest = bytes@.skip(from as int);
            proof {
                assert forall|j: int| 0 <= j < end - from implies rest[j] != 0x2Cu8 by {
                    assert(rest[j] == bytes@[from + j]);
                }
                lemma_first_comma_found(rest, end - from);
                assert(rest.take(end - from) =~= bytes@.subrange(from as int, end as int));
                if end < bytes@.len() {
                    assert(rest.skip(end - from + 1) =~= bytes@.skip(end + 1));
                }
            }
            let token = vstd::slice::slice_subrange(bytes, from, end);
            match PermissionAction::from_name(token) {
                None => {
                    return None;
                },
                Some(action) => {
                    let flags = action.to_permission_bitfield().flags.bits;
                    let ghost before = bits;
                    bits = bits | flags;
                    proof {
                        assert forall|more: u64| (before | (flags | more)) == ((before | flags)
                            | more) by {
                            assert((before | (flags | more)) == ((before | flags) | more))
                                by (bit_vector);
                        }
                    }
                    if end >= bytes.len() {
                        return Some(PermissionsBitField { flags: Permissions { bits } });
                    }
                    from = end + 1;
                },
            }
        }
    }

    /// The names of the listed flags that the bit field holds, parted by
    /// commas.
    pub fn to_text(&self) -> (text: String)
        ensures
            text@ == flags_text(self.flags.bits),
    {
        proof {
            reveal_strlit("ReadSelf");
            reveal_strlit("WriteSelf");
            reveal_strlit("DeleteSelf");
            reveal_strlit("EditHours");
            reveal_strlit("EditHierarchy");
            reveal_strlit("CreateReports");
            reveal_strlit("SuperUser");
            reveal_strlit("Supervisor");
            reveal_strlit("Administrator");
        }
        let bits = self.flags.bits;
        let mut text = String::new();
        push_name(&mut text, bits, READ_SELF, "ReadSelf");
        push_name(&mut text, bits, WRITE_SELF, "WriteSelf");
        push_name(&mut text, bits, DELETE_SELF, "DeleteSelf");
        push_name(&mut text, bits, EDIT_HOURS, "EditHours");
        push_name(&mut text, bits, EDIT_HIERARCHY, "EditHierarchy");
        push_name(&mut text, bits, CREATE_REPORTS, "CreateReports");
        push_name(&mut text, bits, SUPER_USER, "SuperUser");
        push_name(&mut text, bits, SUPERVISOR, "Supervisor");
        push_name(&mut text, bits, ADMINISTRATOR, "Administrator");
        text
    }
}

impl core::str::FromStr for PermissionsBitField {
    type Err = ();

    /// The bit field that the list of action names `s` stands for; an error
    /// if a part of the list is not the name of an action.
    fn from_str(s: &str) -> (r: Result<PermissionsBitField, ()>)
        ensures
            match r {
                Ok(field) => flags_listed(encode_utf8(s@)) == Some(field.flags.bits),
                Err(_) => flags_listed(encode_utf8(s@)) is None,
            },
    {
        match PermissionsBitField::parse(s) {
            Some(field) => Ok(field),
            None => Err(()),
        }
    }
}

/// An administrator may perform every action.
pub proof fn lemma_administrator_may_all(action: PermissionAction)
    ensures
        PermissionChecker::allows(
            PermissionsBitField { flags: Permissions { bits: ADMINISTRATOR } },
            action,
        ),
{
    let needed = action.required_bits();
    assert(ADMINISTRATOR & needed == needed) by (bit_vector)
        requires
            needed == 0x1u64 || needed == 0x2u64 || needed == 0x4u64 || needed == 0x8u64 || needed
                == 0x10u64 || needed == 0x20u64 || needed == 0x40u64 || needed == 0x80u64 || needed
                == 0x100u64 || needed == 0x0004_0000_0000_0000u64 || needed
                == 0x0004_0000_0000_014Fu64 || needed == 0x0004_0000_0000_01FFu64,
    ;
}

/// A user who holds more may do more: whoever holds every flag of another
/// user may perform every action that the other may.
pub proof fn lemma_more_flags_allow_more(
    fewer: PermissionsBitField,
    more: PermissionsBitField,
    action: PermissionAction,
)
    requires
        more.flags.spec_contains(fewer.flags),
        PermissionChecker::allows(fewer, action),
    ensures
        PermissionChecker::allows(more, action),
{
    let a = fewer.flags.bits;
    let b = more.flags.bits;
    let needed = action.required_bits();
    assert(b & needed == needed) by (bit_vector)
        requires
            b & a == a,
            a & needed == needed,
    ;
}

/// A user without any flag may perform no action.
pub proof fn lemma_no_flags_allow_nothing(action: PermissionAction)
    ensures
        !PermissionChecker::allows(PermissionsBitField { flags: Permissions { bits: 0 } }, action),
{
    let needed = action.required_bits();
    assert(0u64 & needed == 0u64) by (bit_vector);
}

/// The names of the actions are told apart by their lengths and their ninth
/// characters.
proof fn lemma_action_names_differ(one: PermissionAction, other: PermissionAction)
    requires
        one != other,
    ensures
        action_name(one) != action_name(other),
{
    reveal_strlit("ReadSelf");
    reveal_strlit("ReadOthers");
    reveal_strlit("WriteSelf");
    reveal_strlit("WriteOthers");
    reveal_strlit("DeleteSelf");
    reveal_strlit("DeleteOthers");
    reveal_strlit("EditHours");
    reveal_strlit("EditHierarchy");
    reveal_strlit("CreateReports");
    reveal_strlit("SuperUser");
    reveal_strlit("Supervisor");
    reveal_strlit("Administrator");
    let a = action_name(one);
    let b = action_name(other);
    if a.len() == b.len() {
        assert(a[0] != b[0] || a[4] != b[4] || a[5] != b[5]);
    }
}

/// A text is read as an action exactly if it is the name of that action.
pub proof fn lemma_action_named_by_its_name(text: Seq<char>, action: PermissionAction)
    ensures
        action_named(encode_utf8(text)) == Some(action) <==> text == action_name(action),
{
    let token = encode_utf8(text);
    assert forall|other: PermissionAction| names(token, other) implies text == action_name(
        other,
    ) by {
        lemma_same_bytes_same_text(text, action_name(other));
    }
    assert forall|other: PermissionAction| other != action implies action_name(other)
        != action_name(action) by {
        lemma_action_names_differ(other, action);
    }
}

} // verus!
