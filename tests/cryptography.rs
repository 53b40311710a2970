use catalog_access::codec::{base32hex_to_uuid, uuid_to_base32hex, DecodeError};
use catalog_access::identifier::Identifier;
use catalog_access::password::{hash_password, verify_password, PasswordError};
use uuid::Uuid;

fn string_to_uuid(uuid: &str) -> Identifier {
    Identifier::from_bytes(*Uuid::parse_str(uuid).unwrap().as_bytes())
}

#[test]
fn test_string_to_uuid() {
    let uuid_str = "018e15ba-ff46-7023-540b-bffb6d3518e4";
    let uuid = string_to_uuid(uuid_str);
    let expected_uuid =
        Identifier::from_bytes(*Uuid::parse_str("018e15ba-ff46-7023-540b-bffb6d3518e4").unwrap().as_bytes());
    assert_eq!(uuid, expected_uuid);
}

#[test]
fn test_uuid_to_base32hex() {
    let uuid_str = "018e15ba-ff46-7023-540b-bffb6d3518e4";
    let uuid = string_to_uuid(uuid_str);
    let base32hex = uuid_to_base32hex(uuid);
    assert_eq!(base32hex, "0671BENV8PO26L0BNVTMQD8OSG");
}

#[test]
fn test_base32hex_to_uuid() {
    let base32hex_str = "0671BENV8PO26L0BNVTMQD8OSG";
    let uuid = base32hex_to_uuid(&base32hex_str).unwrap();
    let expected_uuid = string_to_uuid("018e15ba-ff46-7023-540b-bffb6d3518e4");
    assert_eq!(uuid, expected_uuid);
}

#[test]
fn test_base32hex_to_uuid_invalid() {
    let base32hex_str = "0671BENV8PO26L0BNV";
    let result = base32hex_to_uuid(&base32hex_str);
    assert!(result.is_err());
}

#[test]
fn round_trip_on_sample_identifiers() {
    let samples: [[u8; 16]; 4] = [
        [0u8; 16],
        [0xffu8; 16],
        *Uuid::parse_str("018e15ba-ff46-7023-540b-bffb6d3518e4").unwrap().as_bytes(),
        [1, 2, 3, 4, 5, 6, 7, 8, 9, 10, 11, 12, 13, 14, 15, 16],
    ];
    for bytes in samples {
        let id = Identifier::from_bytes(bytes);
        let text = uuid_to_base32hex(id);
        assert_eq!(text.len(), 26);
        assert_eq!(base32hex_to_uuid(&text), Ok(id));
    }
}

#[test]
fn encoding_of_extreme_identifiers() {
    assert_eq!(uuid_to_base32hex(Identifier::from_bytes([0u8; 16])), "00000000000000000000000000");
    assert_eq!(uuid_to_base32hex(Identifier::from_bytes([0xffu8; 16])), "VVVVVVVVVVVVVVVVVVVVVVVVVS");
}

#[test]
fn short_text_is_invalid_length() {
    assert_eq!(base32hex_to_uuid("0671BENV8PO26L0BNV"), Err(DecodeError::InvalidLength));
    assert_eq!(base32hex_to_uuid(""), Err(DecodeError::InvalidLength));
    assert_eq!(base32hex_to_uuid("0671BENV8PO26L0BNVTMQD8OSG0"), Err(DecodeError::InvalidLength));
}

#[test]
fn bad_symbols_are_invalid_alphabet() {
    assert_eq!(base32hex_to_uuid("0671BENV8PO26L0BNVTMQD8OSW"), Err(DecodeError::InvalidAlphabet));
    assert_eq!(base32hex_to_uuid("0671benv8po26l0bnvtmqd8osg"), Err(DecodeError::InvalidAlphabet));
    assert_eq!(base32hex_to_uuid("0671BENV8PO26L0BNVTMQD8OS\u{e9}"), Err(DecodeError::InvalidAlphabet));
}

#[test]
fn nonzero_trailing_bits_are_invalid_alphabet() {
    assert_eq!(base32hex_to_uuid("0671BENV8PO26L0BNVTMQD8OSH"), Err(DecodeError::InvalidAlphabet));
}

#[test]
fn password_hash_checks_against_its_password() {
    let hash = hash_password("hunter2").unwrap();
    assert_eq!(verify_password("hunter2", &hash), Ok(true));
    assert_eq!(verify_password("hunter3", &hash), Ok(false));
}

#[test]
fn malformed_hash_is_a_format_error() {
    assert_eq!(verify_password("hunter2", "not a hash"), Err(PasswordError::HashFormat));
}
