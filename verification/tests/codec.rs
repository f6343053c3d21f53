use account_demo::error::{AccountDemoError, ProcessError};
use account_demo::state::{StringPad, UserData};

fn record(owner: [u8; 32], name: &str, message: &str) -> UserData {
    UserData::new(owner, name.as_bytes().to_vec(), message.as_bytes().to_vec()).unwrap()
}

fn mismatch() -> ProcessError {
    ProcessError::Custom(AccountDemoError::DataTypeMismatch)
}

#[test]
fn size_formula_exact() {
    assert_eq!(UserData::get_size(b"alice", b"hi"), 56);
    assert_eq!(UserData::get_size(b"", b""), 49);
    assert_eq!(UserData::get_size(b"ab", b"cdef"), 55);
}

#[test]
fn encoded_length_matches_get_size() {
    for (name, message) in [("", ""), ("alice", "hi"), ("a", "bcd")] {
        let r = record([7; 32], name, message);
        assert_eq!(
            r.encode().len(),
            UserData::get_size(name.as_bytes(), message.as_bytes())
        );
    }
}

#[test]
fn round_trip_record() {
    let r = record([9; 32], "alice", "hi");
    let decoded = UserData::safe_deserialize(&r.encode()).unwrap();
    assert_eq!(decoded, r);
    assert!(decoded.is_initialized);
    assert_eq!(decoded.get_owner(), [9; 32]);
    assert_eq!(decoded.name, b"alice".to_vec());
    assert_eq!(decoded.message, b"hi".to_vec());
    assert_eq!(decoded.update_count, 1);
}

#[test]
fn round_trip_empty_fields() {
    let r = record([0; 32], "", "");
    let decoded = UserData::safe_deserialize(&r.encode()).unwrap();
    assert_eq!(decoded, r);
}

#[test]
fn encode_matches_reference_serializer() {
    let r = record([3; 32], "alice", "hi");
    let reference = borsh::to_vec(&(
        true,
        [3u8; 32],
        "alice".to_string(),
        "hi".to_string(),
        1u64,
    ))
    .unwrap();
    assert_eq!(r.encode(), reference);
}

#[test]
fn decode_matches_reference_serializer() {
    let bytes = borsh::to_vec(&(
        true,
        [5u8; 32],
        "bob".to_string(),
        "yo".to_string(),
        42u64,
    ))
    .unwrap();
    let decoded = UserData::safe_deserialize(&bytes).unwrap();
    assert_eq!(decoded.owner, [5u8; 32]);
    assert_eq!(decoded.name, b"bob".to_vec());
    assert_eq!(decoded.message, b"yo".to_vec());
    assert_eq!(decoded.update_count, 42);
}

#[test]
fn decode_rejects_empty_and_truncated() {
    assert_eq!(UserData::safe_deserialize(&[]), Err(mismatch()));
    assert_eq!(UserData::safe_deserialize(&[1u8; 36]), Err(mismatch()));
    let mut bytes = record([2; 32], "alice", "hi").encode();
    bytes.pop();
    assert_eq!(UserData::safe_deserialize(&bytes), Err(mismatch()));
}

#[test]
fn decode_rejects_bad_flag_byte() {
    let mut bytes = record([2; 32], "alice", "hi").encode();
    bytes[0] = 2;
    assert_eq!(UserData::safe_deserialize(&bytes), Err(mismatch()));
}

#[test]
fn decode_rejects_overrunning_length_prefix() {
    let mut bytes = record([2; 32], "alice", "hi").encode();
    bytes[33] = 0xff;
    bytes[34] = 0xff;
    assert_eq!(UserData::safe_deserialize(&bytes), Err(mismatch()));
}

#[test]
fn decode_ignores_trailing_capacity() {
    let r = record([2; 32], "alice", "hi");
    let mut bytes = r.encode();
    bytes.push(0);
    bytes.push(0xa5);
    assert_eq!(UserData::safe_deserialize(&bytes).unwrap(), r);
}

#[test]
fn decode_rejects_invalid_utf8_name() {
    let mut bytes = record([2; 32], "alice", "hi").encode();
    bytes[37] = 0xff;
    assert_eq!(UserData::safe_deserialize(&bytes), Err(mismatch()));
    // the reference deserializer also validates UTF-8 in string fields
    assert!(borsh::from_slice::<(bool, [u8; 32], String, String, u64)>(&bytes).is_err());
}

#[test]
fn round_trip_multibyte_text() {
    let r = record([4; 32], "caf\u{e9}", "h\u{e9}llo \u{1F680}");
    let decoded = UserData::safe_deserialize(&r.encode()).unwrap();
    assert_eq!(decoded, r);
}

#[test]
fn utf8_check_matches_std() {
    let cases: Vec<Vec<u8>> = vec![
        b"".to_vec(),
        b"hello".to_vec(),
        "h\u{e9}llo \u{1F680}".as_bytes().to_vec(),
        vec![0x80],
        vec![0xc0, 0xaf],
        vec![0xc1, 0xbf],
        vec![0xc2],
        vec![0xc2, 0x80],
        vec![0xe0, 0x80, 0x80],
        vec![0xe0, 0xa0, 0x80],
        vec![0xed, 0x9f, 0xbf],
        vec![0xed, 0xa0, 0x80],
        vec![0xf0, 0x80, 0x80, 0x80],
        vec![0xf0, 0x90, 0x80, 0x80],
        vec![0xf4, 0x8f, 0xbf, 0xbf],
        vec![0xf4, 0x90, 0x80, 0x80],
        vec![0xf5, 0x80, 0x80, 0x80],
        vec![0xfe],
        vec![0xff],
        vec![0xe2, 0x82],
        vec![0xe2, 0x82, 0xac],
    ];
    for case in cases {
        assert_eq!(
            account_demo::utf8::is_valid_utf8(&case),
            std::str::from_utf8(&case).is_ok(),
            "disagreement on {:?}",
            case
        );
    }
}

#[test]
fn new_rejects_long_name() {
    let r = UserData::new([1; 32], vec![b'a'; 65], b"hi".to_vec());
    assert_eq!(r, Err(ProcessError::Custom(AccountDemoError::NameTooLong)));
    assert!(UserData::new([1; 32], vec![b'a'; 64], b"hi".to_vec()).is_ok());
}

#[test]
fn new_rejects_long_message() {
    let r = UserData::new([1; 32], b"alice".to_vec(), vec![b'm'; 257]);
    assert_eq!(r, Err(ProcessError::Custom(AccountDemoError::MessageTooLong)));
    assert!(UserData::new([1; 32], b"alice".to_vec(), vec![b'm'; 256]).is_ok());
}

#[test]
fn error_codes_are_stable() {
    assert_eq!(AccountDemoError::NotInitialized.code(), 0);
    assert_eq!(AccountDemoError::AlreadyInitialized.code(), 1);
    assert_eq!(AccountDemoError::DataTypeMismatch.code(), 2);
    assert_eq!(AccountDemoError::NotOwner.code(), 3);
    assert_eq!(AccountDemoError::InvalidInstructionData.code(), 4);
    assert_eq!(AccountDemoError::NameTooLong.code(), 5);
    assert_eq!(AccountDemoError::MessageTooLong.code(), 6);
}

#[test]
fn process_error_from_store_error() {
    assert_eq!(
        ProcessError::from(AccountDemoError::NameTooLong),
        ProcessError::Custom(AccountDemoError::NameTooLong)
    );
}

#[test]
fn pad_right_extends_short_value() {
    let v = b"ab".to_vec();
    assert_eq!(v.pad_right(5, b'x'), b"abxxx".to_vec());
}

#[test]
fn pad_right_keeps_long_value() {
    let v = b"abcdef".to_vec();
    assert_eq!(v.pad_right(3, b'x'), b"abcdef".to_vec());
    assert_eq!(v.pad_right(6, b'x'), b"abcdef".to_vec());
}
