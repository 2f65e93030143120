use std::str::FromStr;

use card_transfer::hours::{get_user, update_hour_data, HourData, UpdateKey};

fn day() -> HourData {
    HourData {
        clock_in: "08:00".to_string(),
        lunch_break_out: "12:00".to_string(),
        lunch_break_return: "13:00".to_string(),
        clocked_out: "18:00".to_string(),
        total_hours: "9".to_string(),
    }
}

#[test]
fn unknown_day_reads_not_available() {
    let unknown = HourData::not_available();
    assert_eq!(unknown.clock_in, "N/A");
    assert_eq!(unknown.lunch_break_out, "N/A");
    assert_eq!(unknown.lunch_break_return, "N/A");
    assert_eq!(unknown.clocked_out, "N/A");
    assert_eq!(unknown.total_hours, "N/A");
}

#[test]
fn default_day_is_empty() {
    let empty = HourData::default();
    assert_eq!(empty.clock_in, "");
    assert_eq!(empty.lunch_break_out, "");
    assert_eq!(empty.lunch_break_return, "");
    assert_eq!(empty.clocked_out, "");
    assert_eq!(empty.total_hours, "");
}

#[test]
fn key_names_parse() {
    assert_eq!(UpdateKey::parse("clock_in"), Some(UpdateKey::ClockIn));
    assert_eq!(UpdateKey::parse("clock_lunch_out"), Some(UpdateKey::ClockLunchOut));
    assert_eq!(UpdateKey::parse("clock_lunch_return"), Some(UpdateKey::ClockLunchReturn));
    assert_eq!(UpdateKey::parse("clock_out"), Some(UpdateKey::ClockOut));
    assert_eq!(UpdateKey::from_str("clock_out"), Ok(UpdateKey::ClockOut));
}

#[test]
fn other_key_names_do_not_parse() {
    for name in ["", "ClockIn", "clock_in ", "clock", "clock_outs", "total_hours"] {
        assert_eq!(UpdateKey::parse(name), None);
        assert_eq!(UpdateKey::from_str(name), Err(()));
    }
}

#[test]
fn update_sets_one_time() {
    let mut data = day();
    update_hour_data(&mut data, UpdateKey::ClockIn, "07:45".to_string());
    assert_eq!(data, HourData { clock_in: "07:45".to_string(), ..day() });

    let mut data = day();
    update_hour_data(&mut data, UpdateKey::ClockLunchOut, "11:30".to_string());
    assert_eq!(data, HourData { lunch_break_out: "11:30".to_string(), ..day() });

    let mut data = day();
    update_hour_data(&mut data, UpdateKey::ClockLunchReturn, "12:30".to_string());
    assert_eq!(data, HourData { lunch_break_return: "12:30".to_string(), ..day() });

    let mut data = day();
    update_hour_data(&mut data, UpdateKey::ClockOut, "17:00".to_string());
    assert_eq!(data, HourData { clocked_out: "17:00".to_string(), ..day() });
}

#[test]
fn user_is_found_by_identifier() {
    let ids = vec!["a1".to_string(), "b2".to_string(), "c3".to_string(), "b2".to_string()];
    assert_eq!(get_user(&ids, "a1"), Ok(0));
    assert_eq!(get_user(&ids, "b2"), Ok(1));
    assert_eq!(get_user(&ids, "c3"), Ok(2));
}

#[test]
fn unknown_user_is_not_found() {
    let ids = vec!["a1".to_string(), "b2".to_string()];
    assert_eq!(get_user(&ids, "zz"), Err("User not found".to_string()));
    assert_eq!(get_user(&ids, "a"), Err("User not found".to_string()));
    assert_eq!(get_user(&vec![], "a1"), Err("User not found".to_string()));
}
