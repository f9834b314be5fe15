use embedded_qr::helper::best_ecc_level;
use embedded_qr::{EccLevel, EncodeMode, QrError, Version1};

#[test]
fn best_ecc_level_prefers_highest_fitting_level() {
    assert_eq!(best_ecc_level::<Version1>(EncodeMode::Alphanumeric, 5), Ok(EccLevel::H));
    assert_eq!(best_ecc_level::<Version1>(EncodeMode::Bytes, 8), Ok(EccLevel::Q));
    assert_eq!(best_ecc_level::<Version1>(EncodeMode::Bytes, 12), Ok(EccLevel::M));
    assert_eq!(best_ecc_level::<Version1>(EncodeMode::Bytes, 17), Ok(EccLevel::L));
}

#[test]
fn best_ecc_level_reports_overflow() {
    assert_eq!(best_ecc_level::<Version1>(EncodeMode::Bytes, 18), Err(QrError::Overflow));
}
