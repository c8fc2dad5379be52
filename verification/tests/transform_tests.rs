//! The payload transformer on concrete inputs.

use rusty_mqtt::transform::{
    decode_binary, decode_values, parse_i16, split_device_index, tokenize, DecodeError,
};

fn chars(s: &str) -> Vec<char> {
    s.chars().collect()
}

#[test]
fn five_text_values_decode_with_temperature_offset() {
    // The documented decoder example: bytes "38 30 20 ..." arrive as the
    // string "80 30 213 35 45".
    let v = decode_values("80 30 213 35 45").unwrap();
    assert_eq!(v.temperature, 30);
    assert_eq!(v.humidity, 30);
    assert_eq!(v.rain_height, 213);
    assert_eq!(v.wind_direction, 35);
    assert_eq!(v.wind_intensity, 45);
}

#[test]
fn decoded_uplink_bytes_yield_the_example_readings() {
    // The upstream decoder hands the payload bytes through as characters:
    // "38 30 20 33 30 20 32 31 33 20 33 35 20 34 35" is the string
    // "80 30 213 35 45".
    let raw: &[u8] = &[
        0x38, 0x30, 0x20, 0x33, 0x30, 0x20, 0x32, 0x31, 0x33, 0x20, 0x33, 0x35, 0x20, 0x34, 0x35,
    ];
    let s = String::from_utf8(raw.to_vec()).unwrap();
    assert_eq!(s, "80 30 213 35 45");
    let v = decode_values(&s).unwrap();
    assert_eq!(v.temperature, 30);
    assert_eq!(v.humidity, 30);
    assert_eq!(v.rain_height, 213);
    assert_eq!(v.wind_direction, 35);
    assert_eq!(v.wind_intensity, 45);
}

#[test]
fn text_decoding_accepts_irregular_whitespace() {
    let v = decode_values("  80\t30  213\r\n35 45 ").unwrap();
    assert_eq!(v.temperature, 30);
    assert_eq!(v.wind_intensity, 45);
}

#[test]
fn negative_readings_decode() {
    let v = decode_values("-10 0 -1 +7 45").unwrap();
    assert_eq!(v.temperature, -60);
    assert_eq!(v.humidity, 0);
    assert_eq!(v.rain_height, -1);
    assert_eq!(v.wind_direction, 7);
    assert_eq!(v.wind_intensity, 45);
}

#[test]
fn wrong_token_count_is_rejected() {
    assert_eq!(decode_values("1 2 3 4"), Err(DecodeError::WrongTokenCount));
    assert_eq!(decode_values("1 2 3 4 5 6"), Err(DecodeError::WrongTokenCount));
    assert_eq!(decode_values(""), Err(DecodeError::WrongTokenCount));
}

#[test]
fn non_numeric_token_is_rejected() {
    assert_eq!(decode_values("1 2 3 4 x"), Err(DecodeError::NonNumericToken));
    assert_eq!(decode_values("80 30 2.5 35 45"), Err(DecodeError::NonNumericToken));
    assert_eq!(decode_values("99999 0 0 0 0"), Err(DecodeError::NonNumericToken));
}

#[test]
fn temperature_underflow_is_rejected() {
    // -32768 - 50 does not fit the signed range.
    assert_eq!(decode_values("-32768 0 0 0 0"), Err(DecodeError::ValueOutOfRange));
    // The smallest accepted reading is exactly offset distance above the
    // floor.
    let v = decode_values("-32718 0 0 0 0").unwrap();
    assert_eq!(v.temperature, -32768);
}

#[test]
fn parse_i16_matches_std_parsing() {
    for s in ["0", "42", "-42", "+42", "32767", "-32768", "007", "32768", "-32769", "", "-", "+",
        "1 2", "0x1", "９"]
    {
        assert_eq!(parse_i16(&chars(s)), s.parse::<i16>().ok(), "token {:?}", s);
    }
}

#[test]
fn parse_i16_rejects_huge_magnitudes() {
    assert_eq!(parse_i16(&chars("99999999999999999999999")), None);
    assert_eq!(parse_i16(&chars("-99999999999999999999999")), None);
}

#[test]
fn tokenize_splits_on_ascii_whitespace() {
    let toks = tokenize(" a  bb\tc ");
    let toks: Vec<String> = toks.iter().map(|t| t.iter().collect()).collect();
    assert_eq!(toks, vec!["a".to_string(), "bb".to_string(), "c".to_string()]);
    assert!(tokenize("   ").is_empty());
}

#[test]
fn binary_payload_decodes_positionally() {
    let v = decode_binary(&[80, 30, 213, 35, 45]).unwrap();
    assert_eq!(v.temperature, 30);
    assert_eq!(v.humidity, 30);
    assert_eq!(v.rain_height, 213);
    assert_eq!(v.wind_direction, 35);
    assert_eq!(v.wind_intensity, 45);
}

#[test]
fn binary_payload_temperature_can_be_negative() {
    let v = decode_binary(&[0, 1, 2, 3, 4]).unwrap();
    assert_eq!(v.temperature, -50);
}

#[test]
fn binary_payload_wrong_length_is_rejected() {
    assert_eq!(decode_binary(&[1, 2, 3, 4]), Err(DecodeError::WrongTokenCount));
    assert_eq!(decode_binary(&[]), Err(DecodeError::WrongTokenCount));
}

#[test]
fn device_index_byte_splits_off() {
    let (ix, rest) = split_device_index(&[7, 80, 30, 213, 35, 45]).unwrap();
    assert_eq!(ix, 7);
    assert_eq!(rest, vec![80, 30, 213, 35, 45]);
    assert!(split_device_index(&[]).is_none());
}
