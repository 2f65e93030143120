use card_transfer::error::{ReaderError, INVALID_PARAMETER};
use card_transfer::read_plan::{
    assemble_read, ReadFragment, ReadRequest, DEFAULT_PACKET_SIZE, DEFAULT_READ_BLOCK_SIZE,
    DEFAULT_READ_LENGTH,
};

#[test]
fn request_defaults() {
    let request = ReadRequest::new(4, None, None, None);
    assert_eq!(
        request,
        ReadRequest { start_block: 4, length: 16, block_size: 4, packet_size: 16 }
    );
    assert_eq!(DEFAULT_READ_LENGTH, 16);
    assert_eq!(DEFAULT_PACKET_SIZE, 16);
    assert_eq!(DEFAULT_READ_BLOCK_SIZE, 4);
}

#[test]
fn request_overrides() {
    let request = ReadRequest::new(9, Some(40), Some(8), Some(32));
    assert_eq!(
        request,
        ReadRequest { start_block: 9, length: 40, block_size: 8, packet_size: 32 }
    );
}

#[test]
fn short_read_is_one_fragment() {
    let request = ReadRequest::new(4, None, None, None);
    assert!(request.is_addressable());
    assert_eq!(request.fragment_count(), 1);
    assert_eq!(request.plan(), vec![ReadFragment { block: 4, length: 16 }]);
}

#[test]
fn read_of_exactly_one_packet_is_one_fragment() {
    let request = ReadRequest::new(7, Some(16), Some(4), Some(16));
    assert_eq!(request.plan(), vec![ReadFragment { block: 7, length: 16 }]);
}

#[test]
fn forty_bytes_in_packets_of_sixteen() {
    let request = ReadRequest::new(4, Some(40), None, Some(16));
    assert!(request.is_addressable());
    assert_eq!(request.fragment_count(), 3);
    assert_eq!(
        request.plan(),
        vec![
            ReadFragment { block: 4, length: 16 },
            ReadFragment { block: 8, length: 16 },
            ReadFragment { block: 12, length: 8 },
        ]
    );
}

#[test]
fn whole_packets_leave_no_short_fragment() {
    let request = ReadRequest::new(0, Some(48), Some(16), Some(16));
    assert_eq!(
        request.plan(),
        vec![
            ReadFragment { block: 0, length: 16 },
            ReadFragment { block: 1, length: 16 },
            ReadFragment { block: 2, length: 16 },
        ]
    );
}

#[test]
fn block_offset_uses_integer_division() {
    let request = ReadRequest::new(10, Some(25), Some(16), Some(10));
    assert_eq!(
        request.plan(),
        vec![
            ReadFragment { block: 10, length: 10 },
            ReadFragment { block: 10, length: 10 },
            ReadFragment { block: 11, length: 5 },
        ]
    );
    assert_eq!(request.fragment(2), ReadFragment { block: 11, length: 5 });
}

#[test]
fn fragments_are_not_cut_again() {
    let request = ReadRequest::new(4, Some(40), None, Some(16));
    for fragment in request.plan() {
        let again = ReadRequest::new(
            fragment.block,
            Some(fragment.length),
            Some(request.block_size),
            Some(request.packet_size),
        );
        assert_eq!(again.fragment_count(), 1);
        assert_eq!(again.plan(), vec![fragment]);
    }
}

#[test]
fn fragment_lengths_add_up() {
    let request = ReadRequest::new(1, Some(1000), Some(4), Some(48));
    let plan = request.plan();
    assert_eq!(plan.len(), 21);
    let total: u32 = plan.iter().map(|f| f.length as u32).sum();
    assert_eq!(total, 1000);
    assert_eq!(plan[20], ReadFragment { block: 1 + 960 / 4, length: 40 });
}

#[test]
fn longest_read_does_not_overflow() {
    let request = ReadRequest::new(0, Some(65535), Some(16), Some(16));
    assert!(request.is_addressable());
    assert_eq!(request.fragment_count(), 4096);
    let plan = request.plan();
    assert_eq!(plan[4095], ReadFragment { block: 4095, length: 15 });
}

#[test]
fn empty_read_is_one_fragment() {
    let request = ReadRequest::new(3, Some(0), Some(0), Some(0));
    assert!(request.is_addressable());
    assert_eq!(request.plan(), vec![ReadFragment { block: 3, length: 0 }]);
}

#[test]
fn zero_packet_or_block_size_cannot_be_cut() {
    assert!(!ReadRequest::new(4, Some(40), Some(4), Some(0)).is_addressable());
    assert!(!ReadRequest::new(4, Some(40), Some(0), Some(16)).is_addressable());
}

#[test]
fn block_numbers_must_fit() {
    assert!(ReadRequest::new(65527, Some(40), Some(4), Some(16)).is_addressable());
    assert!(!ReadRequest::new(65528, Some(40), Some(4), Some(16)).is_addressable());
    assert!(ReadRequest::new(65535, Some(16), Some(4), Some(16)).is_addressable());
}

#[test]
fn reassembly_keeps_request_order() {
    let source: Vec<u8> = (0..40).collect();
    let results = vec![
        Ok(source[0..16].to_vec()),
        Ok(source[16..32].to_vec()),
        Ok(source[32..40].to_vec()),
    ];
    assert_eq!(assemble_read(&results), Ok(source));
}

#[test]
fn reassembly_of_nothing_is_empty() {
    let results: Vec<Result<Vec<u8>, ReaderError>> = vec![];
    assert_eq!(assemble_read(&results), Ok(vec![]));
}

#[test]
fn reassembly_reports_first_failure() {
    let results = vec![
        Ok(vec![1, 2, 3]),
        Err(ReaderError::CardError("Read failed.".to_string(), INVALID_PARAMETER)),
        Ok(vec![4, 5, 6]),
        Err(ReaderError::OperationCancelled("Read Card".to_string())),
    ];
    assert_eq!(
        assemble_read(&results),
        Err(ReaderError::CardError("Read failed.".to_string(), INVALID_PARAMETER))
    );
}

#[test]
fn reassembly_failure_in_first_place() {
    let results = vec![Err(ReaderError::PcscError(0x8010_0069)), Ok(vec![4, 5, 6])];
    assert_eq!(assemble_read(&results), Err(ReaderError::PcscError(0x8010_0069)));
}
