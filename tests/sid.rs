use ad_helper::{obj_sid_to_string, SidError};

#[test]
fn it_works() {
    let result = 2 + 2;
    assert_eq!(result, 4);
}

#[test]
fn sid_everyone() {
    let bytes = [0x01, 0x01, 0, 0, 0, 0, 0, 0x01, 0, 0, 0, 0];
    assert_eq!(obj_sid_to_string(&bytes), Ok("S-1-1-0".to_string()));
}

#[test]
fn sid_administrators() {
    let bytes = [
        0x01, 0x02, 0, 0, 0, 0, 0, 0x05, 0x20, 0, 0, 0, 0x20, 0x02, 0, 0,
    ];
    assert_eq!(obj_sid_to_string(&bytes), Ok("S-1-2-32-544".to_string()));
}

#[test]
fn sid_domain_user() {
    let bytes = [
        0x01, 0x05, 0, 0, 0, 0, 0, 0x05, 0x15, 0, 0, 0, 0xff, 0xff, 0xff, 0xff, 0x01, 0, 0, 0,
        0x00, 0x01, 0, 0, 0xf4, 0x01, 0, 0,
    ];
    assert_eq!(
        obj_sid_to_string(&bytes),
        Ok("S-1-5-21-4294967295-1-256-500".to_string())
    );
}

#[test]
fn sid_no_sub_authorities() {
    let bytes = [0x01, 0x00, 0, 0, 0, 0, 0, 0x05];
    assert_eq!(obj_sid_to_string(&bytes), Ok("S-1-0".to_string()));
}

#[test]
fn sid_shape_has_one_segment_per_sub_authority() {
    let mut bytes = vec![0x01, 0x0f, 0, 0, 0, 0, 0, 0x05];
    for k in 0..15u8 {
        bytes.extend_from_slice(&[k, 0, 0, 0]);
    }
    let s = obj_sid_to_string(&bytes).unwrap();
    let parts: Vec<&str> = s.split('-').collect();
    assert_eq!(parts.len(), 2 + 1 + 15);
    assert_eq!(parts[0], "S");
    assert!(parts[1..].iter().all(|p| !p.is_empty() && p.chars().all(|c| c.is_ascii_digit())));
    assert_eq!(parts[17], "14");
}

#[test]
fn sid_too_short() {
    assert_eq!(
        obj_sid_to_string(&[0x01, 0x02, 0x00]),
        Err(SidError::SidTooShort { actual: 3 })
    );
}

#[test]
fn sid_single_byte_is_too_short() {
    assert_eq!(
        obj_sid_to_string(&[0x01]),
        Err(SidError::SidTooShort { actual: 1 })
    );
}

#[test]
fn sid_too_many_sub_authorities() {
    let mut bytes = vec![0x01, 0x10, 0, 0, 0, 0, 0, 0x05];
    bytes.extend(std::iter::repeat(0u8).take(64));
    assert_eq!(
        obj_sid_to_string(&bytes),
        Err(SidError::SidTooManySubAuthorities { count: 16 })
    );
}

#[test]
fn sid_empty_is_malformed() {
    assert_eq!(obj_sid_to_string(&[]), Err(SidError::MalformedSid));
}

#[test]
fn sid_length_strictness() {
    let mut bytes = vec![0x01, 0x02, 0, 0, 0, 0, 0, 0x05];
    bytes.extend_from_slice(&[0x20, 0, 0, 0, 0x20, 0x02, 0, 0]);
    for len in 8..bytes.len() {
        assert_eq!(
            obj_sid_to_string(&bytes[..len]),
            Err(SidError::SidLengthMismatch { actual: len, expected: 16 })
        );
    }
    bytes.push(0);
    assert_eq!(
        obj_sid_to_string(&bytes),
        Err(SidError::SidLengthMismatch { actual: 17, expected: 16 })
    );
}

#[test]
fn sid_error_messages() {
    assert_eq!(SidError::MalformedSid.message(), "Couldn't get revision from SID");
    assert_eq!(
        SidError::SidTooShort { actual: 3 }.message(),
        "SID array doesn't meet the minimum size requirement of 8 bytes: its length is 3 bytes"
    );
    assert_eq!(
        SidError::SidTooManySubAuthorities { count: 16 }.message(),
        "SID has 16 sub authorities, more than the maximum of 15"
    );
    assert_eq!(
        SidError::SidLengthMismatch { actual: 17, expected: 16 }.message(),
        "According to byte 1 of the SID its total length should be 16 bytes, however its actual length is 17 bytes"
    );
}
