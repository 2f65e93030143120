use card_transfer::text::{contains_bytes, matches_at, push_decimal, same_bytes};

#[test]
fn decimal_numerals() {
    for (number, numeral) in [(0u16, "0"), (9, "9"), (10, "10"), (105, "105"), (36864, "36864"), (65535, "65535")] {
        let mut text = String::from("code: ");
        push_decimal(&mut text, number);
        assert_eq!(text, format!("code: {}", numeral));
    }
}

#[test]
fn pattern_at_a_position() {
    assert!(matches_at(b"ACS ACR122U", b"ACR122", 4));
    assert!(!matches_at(b"ACS ACR122U", b"ACR122", 3));
    assert!(!matches_at(b"ACS ACR122U", b"ACR122", 6));
    assert!(!matches_at(b"ACS ACR122U", b"ACR122", 100));
    assert!(matches_at(b"abc", b"", 3));
    assert!(!matches_at(b"abc", b"", 4));
    assert!(matches_at(b"abc", b"abc", 0));
}

#[test]
fn pattern_somewhere() {
    assert!(contains_bytes(b"ACS ACR122U PICC", b"ACR122"));
    assert!(contains_bytes(b"ACR122", b"ACR122"));
    assert!(contains_bytes(b"xACR12ACR122", b"ACR122"));
    assert!(contains_bytes(b"anything", b""));
    assert!(contains_bytes(b"", b""));
    assert!(!contains_bytes(b"ACR12", b"ACR122"));
    assert!(!contains_bytes(b"ACR1-22 ACR12 2", b"ACR122"));
    assert!(!contains_bytes(b"", b"A"));
}

#[test]
fn equal_runs_of_bytes() {
    assert!(same_bytes(b"", b""));
    assert!(same_bytes(b"ReadSelf", b"ReadSelf"));
    assert!(!same_bytes(b"ReadSelf", b"ReadSelg"));
    assert!(!same_bytes(b"ReadSelf", b"ReadSel"));
    assert!(!same_bytes(b"", b"R"));
}
