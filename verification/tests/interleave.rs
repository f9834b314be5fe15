use embedded_qr::ecc::ReedSolomon;
use embedded_qr::encoder::EncodedData;
use embedded_qr::helper::ecc_codewords;
use embedded_qr::interleave::{interleave, BlockLayout};
use embedded_qr::version::new_data_ecc_buf;
use embedded_qr::{EccLevel, EncodeMode, Version1, Version5};

#[test]
fn version1_interleave_matches_single_block_append() {
    let mut actual = new_data_ecc_buf::<Version1>();
    let encoded = EncodedData::<Version1>::encode(
        b"HELLO WORLD",
        EncodeMode::Alphanumeric,
        EccLevel::L,
        &mut actual,
    )
    .unwrap();
    let rs = ReedSolomon::new();
    let mut expected = actual.clone();
    let ecc_len = ecc_codewords::<Version1>(EccLevel::L);
    let data = expected[..encoded.data_len].to_vec();
    let mut ecc = vec![0u8; ecc_len];
    rs.generate_ecc_into(&data, &mut ecc);
    expected[encoded.data_len..encoded.data_len + ecc_len].copy_from_slice(&ecc);

    let generator = rs.build_generator_coefficients(ecc_len);
    interleave::<Version1>(&mut actual, encoded, EccLevel::L, &rs, &generator[..ecc_len]);
    assert_eq!(actual, expected);
}

#[test]
fn block_layout_matches_known_multi_block_distribution() {
    let layout = BlockLayout::<Version5>::new(EccLevel::Q);
    assert_eq!(layout.block_count, 4);
    assert_eq!(layout.short_block_count, 2);
    assert_eq!(layout.short_data_codewords, 15);
    assert_eq!(layout.max_data_codewords, 16);
    assert_eq!(layout.ecc_codewords_per_block, 18);
    assert_eq!(layout.data_codewords(0), 15);
    assert_eq!(layout.data_codewords(1), 15);
    assert_eq!(layout.data_codewords(2), 16);
    assert_eq!(layout.data_codewords(3), 16);
}
