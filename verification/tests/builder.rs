use embedded_qr::encoder::EncodedData;
use embedded_qr::helper::best_ecc_level;
use embedded_qr::version::new_data_ecc_buf;
use embedded_qr::{EccLevel, EncodeMode, QrBuilder, QrError, Version1};

#[test]
fn auto_ecc_prefers_highest_level_that_fits() {
    assert_eq!(best_ecc_level::<Version1>(EncodeMode::Alphanumeric, 5), Ok(EccLevel::H));
    assert_eq!(best_ecc_level::<Version1>(EncodeMode::Bytes, 8), Ok(EccLevel::Q));
    assert_eq!(best_ecc_level::<Version1>(EncodeMode::Bytes, 12), Ok(EccLevel::M));
    assert_eq!(best_ecc_level::<Version1>(EncodeMode::Bytes, 17), Ok(EccLevel::L));
}

#[test]
fn auto_ecc_reports_overflow_when_nothing_fits() {
    assert_eq!(best_ecc_level::<Version1>(EncodeMode::Bytes, 18), Err(QrError::Overflow));
}

#[test]
fn builder_keeps_manual_overrides() {
    let matrix = QrBuilder::<Version1>::new()
        .with_mode(EncodeMode::Alphanumeric)
        .with_ecc_level(EccLevel::L)
        .build(b"HELLO WORLD")
        .unwrap();
    assert_eq!(matrix.width(), 21);
}

#[test]
fn builder_rejects_invalid_manual_mode() {
    let result = QrBuilder::<Version1>::new().with_mode(EncodeMode::Numeric).build(b"HELLO");
    assert!(matches!(result, Err(QrError::DataInvalid)));
}

#[test]
fn best_encoding_returns_encoded_payload_once() {
    let mut codewords = new_data_ecc_buf::<Version1>();
    let ecc_level = best_ecc_level::<Version1>(EncodeMode::Bytes, 12).unwrap();
    let encoded =
        EncodedData::<Version1>::encode(b"abcdefgh1234", EncodeMode::Bytes, ecc_level, &mut codewords)
            .unwrap();
    assert_eq!(ecc_level, EccLevel::M);
    assert_eq!(encoded.data_len, 16);
}
