use confuse_module::error::HarnessError;
use confuse_module::inject::{plan_input_writes, PhysWrite, SizePolicy};

#[test]
fn two_full_chunks() {
    let w = plan_input_writes(&[0xAA; 16], 0x4000, 16, SizePolicy::Truncate).unwrap();
    assert_eq!(
        w,
        vec![
            PhysWrite { addr: 0x4000, value: 0xAAAA_AAAA_AAAA_AAAA, width: 8 },
            PhysWrite { addr: 0x4008, value: 0xAAAA_AAAA_AAAA_AAAA, width: 8 },
        ]
    );
}

#[test]
fn empty_input_gives_no_writes() {
    let w = plan_input_writes(&[], 0x4000, 16, SizePolicy::Reject).unwrap();
    assert!(w.is_empty());
}

#[test]
fn partial_last_chunk_is_padded_and_narrow() {
    let input = [1u8, 2, 3, 4, 5, 6, 7, 8, 9, 10, 11];
    let w = plan_input_writes(&input, 0x1000, 64, SizePolicy::Reject).unwrap();
    assert_eq!(w.len(), 2);
    assert_eq!(w[0], PhysWrite { addr: 0x1000, value: 0x0807_0605_0403_0201, width: 8 });
    assert_eq!(w[1], PhysWrite { addr: 0x1008, value: 0x000b_0a09, width: 3 });
}

#[test]
fn written_bytes_equal_padded_input() {
    let input: Vec<u8> = (0u8..21).collect();
    let w = plan_input_writes(&input, 0, 100, SizePolicy::Truncate).unwrap();
    let mut bytes = Vec::new();
    for x in &w {
        bytes.extend_from_slice(&x.value.to_le_bytes());
    }
    let mut padded = input.clone();
    padded.resize(24, 0);
    assert_eq!(bytes, padded);
    assert_eq!(w.last().unwrap().width, 21 % 8);
}

#[test]
fn oversize_input_is_truncated() {
    let w = plan_input_writes(&[0xCC; 20], 0x2000, 10, SizePolicy::Truncate).unwrap();
    assert_eq!(
        w,
        vec![
            PhysWrite { addr: 0x2000, value: 0xCCCC_CCCC_CCCC_CCCC, width: 8 },
            PhysWrite { addr: 0x2008, value: 0xCCCC, width: 2 },
        ]
    );
}

#[test]
fn oversize_input_is_rejected() {
    assert_eq!(
        plan_input_writes(&[0xCC; 20], 0x2000, 10, SizePolicy::Reject),
        Err(HarnessError::OutOfRange)
    );
}

#[test]
fn input_past_end_of_address_space_is_rejected() {
    assert_eq!(
        plan_input_writes(&[1; 8], u64::MAX - 3, 8, SizePolicy::Truncate),
        Err(HarnessError::OutOfRange)
    );
    assert!(plan_input_writes(&[1; 4], u64::MAX - 3, 8, SizePolicy::Truncate).is_ok());
}
