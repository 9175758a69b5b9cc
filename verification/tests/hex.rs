use iec104_codec::hex::{hexstr_to_bytes, InputFormatError};

#[test]
fn plain_digits_are_read_in_pairs() {
    assert_eq!(
        hexstr_to_bytes("680401000600"),
        Ok(vec![0x68, 0x04, 0x01, 0x00, 0x06, 0x00])
    );
}

#[test]
fn spaces_are_skipped() {
    assert_eq!(
        hexstr_to_bytes("68 04 02 00 03 00"),
        Ok(vec![0x68, 0x04, 0x02, 0x00, 0x03, 0x00])
    );
}

#[test]
fn brackets_are_skipped() {
    assert_eq!(
        hexstr_to_bytes("[68] [04] [02] [00] [03] [00]"),
        Ok(vec![0x68, 0x04, 0x02, 0x00, 0x03, 0x00])
    );
}

#[test]
fn both_cases_of_letters_are_digits() {
    assert_eq!(hexstr_to_bytes("aB cD Ef"), Ok(vec![0xAB, 0xCD, 0xEF]));
    assert_eq!(hexstr_to_bytes("0f F0 9a"), Ok(vec![0x0F, 0xF0, 0x9A]));
}

#[test]
fn pairs_may_be_split_by_other_characters() {
    assert_eq!(hexstr_to_bytes("6-8,0x4"), Ok(vec![0x68, 0x04]));
}

#[test]
fn letters_beyond_f_are_skipped() {
    assert_eq!(hexstr_to_bytes("g1h2"), Ok(vec![0x12]));
    assert_eq!(hexstr_to_bytes("xyz"), Ok(vec![]));
}

#[test]
fn characters_outside_ascii_are_skipped() {
    assert_eq!(hexstr_to_bytes("报文 68 é 04"), Ok(vec![0x68, 0x04]));
    // Full-width digits are not hexadecimal digits.
    assert_eq!(hexstr_to_bytes("６８"), Ok(vec![]));
}

#[test]
fn empty_text_gives_no_bytes() {
    assert_eq!(hexstr_to_bytes(""), Ok(vec![]));
    assert_eq!(hexstr_to_bytes("   "), Ok(vec![]));
}

#[test]
fn odd_number_of_digits_is_an_error() {
    assert_eq!(hexstr_to_bytes("680"), Err(InputFormatError::OddDigitCount));
    assert_eq!(hexstr_to_bytes("6"), Err(InputFormatError::OddDigitCount));
    assert_eq!(hexstr_to_bytes("68 04 0"), Err(InputFormatError::OddDigitCount));
}

#[test]
fn every_byte_value_is_spelled_by_its_two_digits() {
    for b in 0u16..256 {
        let text = format!("{:02x}", b);
        assert_eq!(hexstr_to_bytes(&text), Ok(vec![b as u8]));
        let text = format!("{:02X}", b);
        assert_eq!(hexstr_to_bytes(&text), Ok(vec![b as u8]));
    }
}
