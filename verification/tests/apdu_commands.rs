use card_transfer::apdu::{authenticate_command, read_command, write_command, KeyType};

#[test]
fn authenticate_command_bytes_for_key_a() {
    assert_eq!(
        authenticate_command(4, KeyType::A),
        vec![0xFF, 0x86, 0x00, 0x00, 0x05, 0x01, 0x00, 0x04, 0x60, 0x00]
    );
}

#[test]
fn authenticate_command_bytes_for_key_b() {
    assert_eq!(
        authenticate_command(0x2A, KeyType::B),
        vec![0xFF, 0x86, 0x00, 0x00, 0x05, 0x01, 0x00, 0x2A, 0x61, 0x00]
    );
}

#[test]
fn read_command_splits_block_number() {
    assert_eq!(read_command(4, 16), vec![0xFF, 0xB0, 0x00, 0x04, 0x10]);
    assert_eq!(read_command(0x0123, 8), vec![0xFF, 0xB0, 0x01, 0x23, 0x08]);
}

#[test]
fn read_command_sends_low_byte_of_length() {
    assert_eq!(read_command(1, 0x0110), vec![0xFF, 0xB0, 0x00, 0x01, 0x10]);
}

#[test]
fn write_command_prepends_header() {
    let data: Vec<u8> = (1..=16).collect();
    let mut expected = vec![0xFF, 0xD6, 0x00, 0x05, 0x10];
    expected.extend_from_slice(&data);
    assert_eq!(write_command(5, 16, &data), expected);
}

#[test]
fn write_command_sends_low_byte_of_block() {
    let data = vec![0u8; 4];
    assert_eq!(
        write_command(0x0105, 4, &data),
        vec![0xFF, 0xD6, 0x00, 0x05, 0x04, 0, 0, 0, 0]
    );
}
