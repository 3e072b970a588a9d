use rome_link::codec;
use rome_link::error::Error;
use rome_link::hex;

#[test]
fn hex_round_trip_of_all_bytes() {
    let data: Vec<u8> = (0..=255u8).collect();
    let mut text: Vec<u8> = Vec::new();
    hex::push_bytes(&mut text, &data);
    assert_eq!(text.len(), 512);
    assert_eq!(hex::decode(&text), Some(data));
}

#[test]
fn hex_digits_are_upper_case_and_most_significant_first() {
    let mut text: Vec<u8> = b"x".to_vec();
    hex::push_byte(&mut text, 0xAB);
    hex::push_byte(&mut text, 0x09);
    hex::push_u16(&mut text, 0x1F0E);
    assert_eq!(text, b"xAB091F0E".to_vec());
}

#[test]
fn hex_digit_values() {
    assert_eq!(hex::decode_digit(b'0'), Some(0));
    assert_eq!(hex::decode_digit(b'9'), Some(9));
    assert_eq!(hex::decode_digit(b'A'), Some(10));
    assert_eq!(hex::decode_digit(b'F'), Some(15));
    assert_eq!(hex::decode_digit(b'a'), Some(10));
    assert_eq!(hex::decode_digit(b'f'), Some(15));
    assert_eq!(hex::decode_digit(b'G'), None);
    assert_eq!(hex::decode_digit(b'g'), None);
    assert_eq!(hex::decode_digit(b'/'), None);
    assert_eq!(hex::decode_digit(b':'), None);
    assert_eq!(hex::decode_digit(b'@'), None);
    assert_eq!(hex::decode_digit(b'`'), None);
    assert_eq!(hex::decode_digit(b'+'), None);
    assert_eq!(hex::encode_digit(0x0C), b'C');
    assert_eq!(hex::encode_digit(0x17), b'7');
}

#[test]
fn hex_decode_accepts_both_cases() {
    assert_eq!(hex::decode(b"00ff7Fa5"), Some(vec![0x00, 0xFF, 0x7F, 0xA5]));
    assert_eq!(hex::decode(b""), Some(vec![]));
}

#[test]
fn hex_decode_rejects_odd_counts_and_other_bytes() {
    assert_eq!(hex::decode(b"0"), None);
    assert_eq!(hex::decode(b"012"), None);
    assert_eq!(hex::decode(b"0G"), None);
    assert_eq!(hex::decode(b"+F"), None);
    assert_eq!(hex::decode(b"1 "), None);
    assert_eq!(hex::decode(b"\xC3\xA9"), None);
}

#[test]
fn read_command_format() {
    assert_eq!(codec::encode_read_command(0x12AB, 4), b"R12AB04\n".to_vec());
    assert_eq!(codec::encode_read_command(0, 255), b"R0000FF\n".to_vec());
    assert_eq!(codec::encode_read_command(0xFFFF, 1), b"RFFFF01\n".to_vec());
}

#[test]
fn read_response_limit_leaves_room_for_the_response() {
    assert_eq!(codec::response_limit(0), 2);
    assert_eq!(codec::response_limit(4), 10);
    assert_eq!(codec::response_limit(255), 512);
}

#[test]
fn read_response_decodes() {
    assert_eq!(codec::decode_read_response(b"R00010203", 4), Ok(vec![0, 1, 2, 3]));
    assert_eq!(codec::decode_read_response(b"Rdeadbeef", 4), Ok(vec![0xDE, 0xAD, 0xBE, 0xEF]));
    assert_eq!(codec::decode_read_response(b"R", 0), Ok(vec![]));
}

#[test]
fn read_response_with_another_tag_is_a_mismatch() {
    assert_eq!(
        codec::decode_read_response(b"W0001", 2),
        Err(Error::ProtocolMismatch { response: b"W0001".to_vec(), expected: b"R".to_vec() })
    );
    assert_eq!(
        codec::decode_read_response(b"", 2),
        Err(Error::ProtocolMismatch { response: vec![], expected: b"R".to_vec() })
    );
    assert_eq!(
        codec::decode_read_response(b"r0001", 2),
        Err(Error::ProtocolMismatch { response: b"r0001".to_vec(), expected: b"R".to_vec() })
    );
}

#[test]
fn read_response_of_another_length_is_a_mismatch() {
    assert_eq!(
        codec::decode_read_response(b"R0001", 3),
        Err(Error::ProtocolMismatch { response: b"R0001".to_vec(), expected: b"R".to_vec() })
    );
    assert_eq!(
        codec::decode_read_response(b"R00010203", 3),
        Err(Error::ProtocolMismatch { response: b"R00010203".to_vec(), expected: b"R".to_vec() })
    );
}

#[test]
fn damaged_read_payload_is_a_decode_error() {
    // One digit lost.
    assert_eq!(
        codec::decode_read_response(b"R0001020", 4),
        Err(Error::DecodeError { response: b"R0001020".to_vec() })
    );
    // One digit turned into something else, at every place in turn.
    let good = b"R00010203".to_vec();
    for place in 1..good.len() {
        for bad in [b'G', b' ', b'+', b'-', b'x', 0x00, 0xFF, b'\r'] {
            let mut response = good.clone();
            response[place] = bad;
            assert_eq!(
                codec::decode_read_response(&response, 4),
                Err(Error::DecodeError { response: response.clone() })
            );
        }
    }
}

#[test]
fn write_command_format() {
    assert_eq!(codec::encode_write_command(0x00FF, &[1, 2]), b"W00FF0102\n".to_vec());
    assert_eq!(codec::encode_write_command(0xABCD, &[]), b"WABCD\n".to_vec());
    assert_eq!(codec::encode_write_command(0, &[0xFF, 0x0A, 0xB0]), b"W0000FF0AB0\n".to_vec());
}

#[test]
fn write_response_names_both_ends() {
    assert_eq!(codec::expected_write_response(0x00FF, 2), b"W00FF0101".to_vec());
    assert_eq!(codec::expected_write_response(0x1000, 29), b"W1000101D".to_vec());
    assert_eq!(codec::expected_write_response(0, 0), b"W00000000".to_vec());
}

#[test]
fn write_response_wraps_at_the_end_of_the_address_space() {
    assert_eq!(codec::expected_write_response(0xFFFF, 1), b"WFFFF0000".to_vec());
    assert_eq!(codec::expected_write_response(0xFFFF, 2), b"WFFFF0001".to_vec());
    assert_eq!(codec::expected_write_response(0xFF80, 255), b"WFF80007F".to_vec());
}

#[test]
fn write_response_is_checked_to_the_letter() {
    assert_eq!(codec::check_write_response(b"W00FF0101", 0x00FF, 2), Ok(()));
    for response in [&b"W00FF0102"[..], b"W00ff0101", b"W00FF0101 ", b"W00FF010", b"R00FF0101", b""] {
        assert_eq!(
            codec::check_write_response(response, 0x00FF, 2),
            Err(Error::ProtocolMismatch {
                response: response.to_vec(),
                expected: b"W00FF0101".to_vec(),
            })
        );
    }
}
