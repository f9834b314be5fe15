use embedded_qr::encoder::EncodedData;
use embedded_qr::version::new_data_ecc_buf;
use embedded_qr::{EccLevel, EncodeMode, Version1};

#[test]
fn choose_mode_prefers_numeric() {
    assert_eq!(EncodeMode::detect(b"8675309"), EncodeMode::Numeric);
}

#[test]
fn choose_mode_prefers_alphanumeric_over_bytes() {
    assert_eq!(EncodeMode::detect(b"HELLO WORLD"), EncodeMode::Alphanumeric);
}

#[test]
fn choose_mode_falls_back_to_bytes() {
    assert_eq!(EncodeMode::detect("hello".as_bytes()), EncodeMode::Bytes);
}

#[test]
fn counter_bits_follow_version_ranges() {
    assert_eq!(EncodeMode::Numeric.counter_bits::<Version1>(), 10);
    assert_eq!(EncodeMode::Alphanumeric.counter_bits::<Version1>(), 9);
    assert_eq!(EncodeMode::Bytes.counter_bits::<Version1>(), 8);
}

#[test]
fn numeric_encoding_pads_to_version_capacity() {
    let mut codewords = new_data_ecc_buf::<Version1>();
    let encoded =
        EncodedData::<Version1>::encode(b"01234567", EncodeMode::Numeric, EccLevel::M, &mut codewords)
            .unwrap();
    assert_eq!(EncodeMode::detect(b"01234567"), EncodeMode::Numeric);
    assert_eq!(encoded.data_len, 16);
    assert_eq!(
        &codewords[..16],
        &[
            0x10, 0x20, 0x0C, 0x56, 0x61, 0x80, 0xEC, 0x11, 0xEC, 0x11, 0xEC, 0x11, 0xEC, 0x11,
            0xEC, 0x11
        ]
    );
}

#[test]
fn byte_encoding_rejects_overflow() {
    let mut codewords = new_data_ecc_buf::<Version1>();
    let result =
        EncodedData::<Version1>::encode(&[0xAA; 15], EncodeMode::Bytes, EccLevel::H, &mut codewords);
    assert!(result.is_err());
}
