use std::str::FromStr;

use card_transfer::permission::{
    PermissionAction, PermissionChecker, Permissions, PermissionsBitField, ADMINISTRATOR,
    CREATE_REPORTS, DELETE_OTHERS, DELETE_SELF, EDIT_HIERARCHY, EDIT_HOURS, READ_OTHERS,
    READ_SELF, SUPERVISOR, SUPER_USER, WRITE_OTHERS, WRITE_SELF,
};

const ACTIONS: [(PermissionAction, &str, u64); 12] = [
    (PermissionAction::ReadSelf, "ReadSelf", 1 << 0),
    (PermissionAction::ReadOthers, "ReadOthers", 1 << 1),
    (PermissionAction::WriteSelf, "WriteSelf", 1 << 2),
    (PermissionAction::WriteOthers, "WriteOthers", 1 << 3),
    (PermissionAction::DeleteSelf, "DeleteSelf", 1 << 4),
    (PermissionAction::DeleteOthers, "DeleteOthers", 1 << 5),
    (PermissionAction::EditHours, "EditHours", 1 << 6),
    (PermissionAction::EditHierarchy, "EditHierarchy", 1 << 7),
    (PermissionAction::CreateReports, "CreateReports", 1 << 8),
    (PermissionAction::SuperUser, "SuperUser", 1 << 50),
    (
        PermissionAction::Supervisor,
        "Supervisor",
        1 | 1 << 1 | 1 << 2 | 1 << 3 | 1 << 6 | 1 << 8 | 1 << 50,
    ),
    (
        PermissionAction::Administrator,
        "Administrator",
        1 | 1 << 1 | 1 << 2 | 1 << 3 | 1 << 6 | 1 << 8 | 1 << 50 | 1 << 4 | 1 << 5 | 1 << 7,
    ),
];

fn field(bits: u64) -> PermissionsBitField {
    PermissionsBitField { flags: Permissions::from_bits(bits) }
}

#[test]
fn flag_values() {
    assert_eq!(READ_SELF, 1 << 0);
    assert_eq!(READ_OTHERS, 1 << 1);
    assert_eq!(WRITE_SELF, 1 << 2);
    assert_eq!(WRITE_OTHERS, 1 << 3);
    assert_eq!(DELETE_SELF, 1 << 4);
    assert_eq!(DELETE_OTHERS, 1 << 5);
    assert_eq!(EDIT_HOURS, 1 << 6);
    assert_eq!(EDIT_HIERARCHY, 1 << 7);
    assert_eq!(CREATE_REPORTS, 1 << 8);
    assert_eq!(SUPER_USER, 1 << 50);
    assert_eq!(
        SUPERVISOR,
        READ_SELF | READ_OTHERS | WRITE_SELF | WRITE_OTHERS | EDIT_HOURS | CREATE_REPORTS
            | SUPER_USER
    );
    assert_eq!(ADMINISTRATOR, SUPERVISOR | DELETE_SELF | DELETE_OTHERS | EDIT_HIERARCHY);
}

#[test]
fn action_bit_fields() {
    for (action, _, bits) in ACTIONS {
        assert_eq!(action.to_permission_bitfield().flags.bits, bits);
    }
}

#[test]
fn default_holds_nothing() {
    assert_eq!(Permissions::default().bits, 0);
    assert_eq!(PermissionsBitField::default().flags.bits, 0);
    assert_eq!(Permissions::empty().bits, 0);
}

#[test]
fn contains_and_union() {
    let both = Permissions::from_bits(READ_SELF).union(Permissions::from_bits(WRITE_SELF));
    assert_eq!(both.bits, READ_SELF | WRITE_SELF);
    assert!(both.contains(Permissions::from_bits(READ_SELF)));
    assert!(both.contains(Permissions::from_bits(READ_SELF | WRITE_SELF)));
    assert!(both.contains(Permissions::empty()));
    assert!(!both.contains(Permissions::from_bits(READ_SELF | DELETE_SELF)));
    assert!(!Permissions::empty().contains(both));
}

#[test]
fn check_permission_needs_every_flag() {
    assert!(PermissionChecker::check_permission(field(READ_SELF), PermissionAction::ReadSelf));
    assert!(!PermissionChecker::check_permission(field(READ_SELF), PermissionAction::WriteSelf));
    assert!(!PermissionChecker::check_permission(
        field(READ_SELF | WRITE_SELF),
        PermissionAction::Supervisor
    ));
    assert!(PermissionChecker::check_permission(field(SUPERVISOR), PermissionAction::Supervisor));
    assert!(PermissionChecker::check_permission(field(SUPERVISOR), PermissionAction::EditHours));
    assert!(!PermissionChecker::check_permission(
        field(SUPERVISOR),
        PermissionAction::DeleteOthers
    ));
    assert!(!PermissionChecker::check_permission(
        field(SUPERVISOR),
        PermissionAction::Administrator
    ));
}

#[test]
fn administrator_may_do_everything() {
    for (action, _, _) in ACTIONS {
        assert!(PermissionChecker::check_permission(field(ADMINISTRATOR), action));
    }
}

#[test]
fn nobody_may_do_nothing() {
    for (action, _, _) in ACTIONS {
        assert!(!PermissionChecker::check_permission(field(0), action));
    }
}

#[test]
fn action_names_parse() {
    for (action, name, _) in ACTIONS {
        assert_eq!(PermissionAction::parse(name), Some(action));
        assert_eq!(PermissionAction::from_str(name), Ok(action));
        assert_eq!(PermissionAction::from_name(name.as_bytes()), Some(action));
    }
}

#[test]
fn other_names_do_not_parse() {
    for name in ["", "readself", "ReadSelf ", " ReadSelf", "ReadSel", "ReadSelfX", "Admin", ","] {
        assert_eq!(PermissionAction::parse(name), None);
        assert_eq!(PermissionAction::from_str(name), Err(()));
    }
}

#[test]
fn lists_of_names_parse() {
    assert_eq!(PermissionsBitField::parse("ReadSelf").unwrap().flags.bits, READ_SELF);
    assert_eq!(
        PermissionsBitField::parse("ReadSelf,WriteSelf").unwrap().flags.bits,
        READ_SELF | WRITE_SELF
    );
    assert_eq!(
        PermissionsBitField::parse("DeleteOthers,ReadSelf,EditHours,ReadSelf").unwrap().flags.bits,
        DELETE_OTHERS | READ_SELF | EDIT_HOURS
    );
    assert_eq!(
        PermissionsBitField::parse("Supervisor,DeleteSelf").unwrap().flags.bits,
        SUPERVISOR | DELETE_SELF
    );
    assert_eq!(
        PermissionsBitField::from_str("Administrator").unwrap().flags.bits,
        ADMINISTRATOR
    );
}

#[test]
fn lists_with_a_wrong_part_do_not_parse() {
    for text in ["", ",", "ReadSelf,", ",ReadSelf", "ReadSelf,,WriteSelf", "ReadSelf, WriteSelf",
        "ReadSelf,Nothing", "Nothing,ReadSelf", "ReadSelf;WriteSelf"]
    {
        assert!(PermissionsBitField::parse(text).is_none());
        assert!(PermissionsBitField::from_str(text).is_err());
    }
}

#[test]
fn text_of_flags() {
    assert_eq!(field(0).to_text(), "");
    assert_eq!(field(READ_SELF).to_text(), "ReadSelf");
    assert_eq!(field(READ_SELF | WRITE_SELF).to_text(), "ReadSelf,WriteSelf");
    assert_eq!(field(WRITE_SELF | EDIT_HOURS | CREATE_REPORTS).to_text(),
        "WriteSelf,EditHours,CreateReports");
    assert_eq!(field(SUPER_USER).to_text(), "SuperUser");
    assert_eq!(
        field(SUPERVISOR).to_text(),
        "ReadSelf,WriteSelf,EditHours,CreateReports,SuperUser,Supervisor"
    );
    assert_eq!(
        field(ADMINISTRATOR).to_text(),
        "ReadSelf,WriteSelf,DeleteSelf,EditHours,EditHierarchy,CreateReports,SuperUser,Supervisor,Administrator"
    );
}

#[test]
fn text_leaves_out_flags_about_others() {
    assert_eq!(field(READ_OTHERS | WRITE_OTHERS | DELETE_OTHERS).to_text(), "");
    assert_eq!(field(READ_OTHERS | DELETE_SELF).to_text(), "DeleteSelf");
}
