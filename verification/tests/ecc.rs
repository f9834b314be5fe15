use embedded_qr::ecc::{ReedSolomon, VersionGeneratorTable};
use embedded_qr::encoder::EncodedData;
use embedded_qr::helper::ecc_codewords;
use embedded_qr::version::new_data_ecc_buf;
use embedded_qr::{EccLevel, EncodeMode, Version1, Version17};

#[test]
fn zero_data_produces_zero_ecc() {
    let rs = ReedSolomon::new();
    let mut ecc = vec![0u8; 7];
    rs.generate_ecc_into(&[0; 19], &mut ecc);
    assert_eq!(&ecc[..], &[0; 7]);
}

#[test]
fn lookup_tables_encode_generator_powers() {
    let exp_table = ReedSolomon::build_exp_table();
    let log_table = ReedSolomon::build_log_table();
    assert_eq!(exp_table[0], 1);
    assert_eq!(exp_table[1], 2);
    assert_eq!(exp_table[8], 29);
    assert_eq!(log_table[1], 0);
    assert_eq!(log_table[2], 1);
    assert_eq!(log_table[29], 8);
    assert_eq!(
        &ReedSolomon::new().build_generator_coefficients(7)[..7],
        &[127, 122, 154, 164, 11, 68, 117]
    );
}

#[test]
fn version_bound_generator_tables_store_only_used_degrees() {
    let version1 = VersionGeneratorTable::build::<Version1>();
    assert_eq!(version1.unique_degree_count(), 4);
    assert_eq!(version1.for_level(EccLevel::L), &[127, 122, 154, 164, 11, 68, 117]);

    let version17 = VersionGeneratorTable::build::<Version17>();
    assert_eq!(version17.unique_degree_count(), 1);
    assert_eq!(version17.for_level(EccLevel::L), version17.for_level(EccLevel::H));
}

fn append_ecc(codewords: &mut Vec<u8>, data_len: usize, ecc_len: usize) {
    let rs = ReedSolomon::new();
    let data = codewords[..data_len].to_vec();
    let mut ecc = vec![0u8; ecc_len];
    rs.generate_ecc_into(&data, &mut ecc);
    codewords[data_len..data_len + ecc_len].copy_from_slice(&ecc);
}

#[test]
fn append_ecc_writes_expected_length() {
    let mut codewords = new_data_ecc_buf::<Version1>();
    let encoded = EncodedData::<Version1>::encode(
        b"HELLO WORLD",
        EncodeMode::Alphanumeric,
        EccLevel::L,
        &mut codewords,
    )
    .unwrap();
    let ecc_len = ecc_codewords::<Version1>(EccLevel::L);
    append_ecc(&mut codewords, encoded.data_len, ecc_len);
    assert_eq!(codewords.len(), 26);
    assert_ne!(&codewords[19..26], &[0; 7]);
}

#[test]
fn ecc_matches_reference_for_all_version1_levels() {
    let cases = [
        (EccLevel::L, &[110, 57, 221, 152, 142, 219, 31][..]),
        (EccLevel::M, &[77, 221, 133, 19, 219, 95, 71, 115, 154, 101][..]),
        (EccLevel::Q, &[197, 126, 205, 39, 143, 18, 53, 138, 62, 172, 29, 19, 74][..]),
        (
            EccLevel::H,
            &[109, 149, 156, 18, 217, 41, 246, 36, 42, 84, 46, 225, 190, 218, 251, 27, 196][..],
        ),
    ];

    for (level, expected) in cases {
        let mut codewords = new_data_ecc_buf::<Version1>();
        let encoded =
            EncodedData::<Version1>::encode(b"HELLO", EncodeMode::Alphanumeric, level, &mut codewords)
                .unwrap();
        let ecc_len = ecc_codewords::<Version1>(level);
        append_ecc(&mut codewords, encoded.data_len, ecc_len);
        assert_eq!(&codewords[encoded.data_len..], expected);
    }
}
