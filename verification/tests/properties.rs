use embedded_qr::capacity::{fits, info, max_payload_len};
use embedded_qr::ecc::{ReedSolomon, VersionGeneratorTable};
use embedded_qr::encoder::EncodedData;
use embedded_qr::helper::{max_ecc_codewords_per_block, payload_bits, total_codewords};
use embedded_qr::interleave::BlockLayout;
use embedded_qr::matrix_template::{alignment_pattern_positions, version_bits};
use embedded_qr::{
    EccLevel, EncodeMode, Mask, QrBuilder, QrDrawable, QrError, QrMatrix, Version1, Version4,
    Version40, Version5, Version7,
};

#[test]
fn readme_quick_start_builds_version1() {
    let qr = QrBuilder::<Version1>::new().build(b"HELLO WORLD").unwrap();
    assert_eq!(qr.width(), 21);
    let mut iter = qr.iter();
    let mut any_dark = false;
    while let Some((_, _, dark)) = iter.next() {
        any_dark |= dark;
    }
    assert!(any_dark);
}

#[test]
fn readme_pinned_mode_and_level_are_kept() {
    let qr = QrBuilder::<Version4>::new()
        .with_mode(EncodeMode::Bytes)
        .with_ecc_level(EccLevel::M)
        .build(b"hello from embedded")
        .unwrap();
    assert_eq!(qr.ecc_level(), EccLevel::M);
    assert_eq!(qr.width(), 33);
}

#[test]
fn readme_capacity_queries() {
    assert!(fits::<Version1>(EncodeMode::Bytes, 17, EccLevel::L));
    assert!(!fits::<Version1>(EncodeMode::Bytes, 18, EccLevel::L));
    assert_eq!(max_payload_len::<Version1>(EncodeMode::Alphanumeric, EccLevel::M), 20);
    let capacity = info::<Version1>(EccLevel::Q);
    assert_eq!(capacity.data_codewords, 13);
    assert_eq!(capacity.ecc_codewords, 13);
}

#[test]
fn build_succeeds_exactly_when_payload_fits() {
    let seventeen = [b'a'; 17];
    let eighteen = [b'a'; 18];
    let fitting = QrBuilder::<Version1>::new().build(&seventeen).unwrap();
    assert_eq!(fitting.ecc_level(), EccLevel::L);
    assert!(matches!(QrBuilder::<Version1>::new().build(&eighteen), Err(QrError::Overflow)));
    let eleven = [b'a'; 11];
    let twelve = [b'a'; 12];
    assert!(QrBuilder::<Version1>::new().with_ecc_level(EccLevel::Q).build(&eleven).is_ok());
    assert!(matches!(
        QrBuilder::<Version1>::new().with_ecc_level(EccLevel::Q).build(&twelve),
        Err(QrError::Overflow)
    ));
}

#[test]
fn automatic_mode_never_rejects_data() {
    for data in [&b"0123"[..], &b"AB-CD"[..], &b"lower case"[..], &[0xFFu8, 0x00, 0x7F][..], &[][..]] {
        let result = QrBuilder::<Version1>::new().build(data);
        assert!(result.is_ok());
    }
}

#[test]
fn pinned_mode_reports_overflow_before_invalid_data() {
    let long_text = [b'x'; 60];
    let result = QrBuilder::<Version1>::new().with_mode(EncodeMode::Numeric).build(&long_text);
    assert!(matches!(result, Err(QrError::Overflow)));
}

#[test]
fn iterator_walks_rows_in_order() {
    let matrix = QrBuilder::<Version1>::new().build(b"01234567").unwrap();
    let mut iter = matrix.iter();
    let mut expected = 0usize;
    while let Some((x, y, dark)) = iter.next() {
        assert_eq!(x, expected % 21);
        assert_eq!(y, expected / 21);
        assert_eq!(dark, matrix.get(x, y));
        expected += 1;
    }
    assert_eq!(expected, 441);
    assert_eq!(iter.next(), None);
}

#[test]
fn function_patterns_survive_data_and_mask() {
    let matrix = QrBuilder::<Version5>::new().build(b"function patterns stay put").unwrap();
    let width = matrix.width();
    assert_eq!(width, 37);
    for (ox, oy) in [(0usize, 0usize), (width - 7, 0), (0, width - 7)] {
        for d in 0..7 {
            assert!(matrix.get(ox + d, oy));
            assert!(matrix.get(ox + d, oy + 6));
            assert!(matrix.get(ox, oy + d));
            assert!(matrix.get(ox + 6, oy + d));
        }
        assert!(matrix.get(ox + 3, oy + 3));
        assert!(!matrix.get(ox + 1, oy + 1));
    }
    for index in 8..(width - 8) {
        assert_eq!(matrix.get(index, 6), index % 2 == 0);
        assert_eq!(matrix.get(6, index), index % 2 == 0);
    }
    assert!(matrix.get(8, width - 8));
}

#[test]
fn format_information_matches_level_and_mask() {
    let matrix = QrBuilder::<Version1>::new().build(b"HELLO").unwrap();
    let bits = matrix.mask().format_bits(matrix.ecc_level());
    for index in 0..=5 {
        assert_eq!(matrix.get(8, index), (bits >> index) & 1 == 1);
    }
    assert_eq!(matrix.get(8, 7), (bits >> 6) & 1 == 1);
    assert_eq!(matrix.get(8, 8), (bits >> 7) & 1 == 1);
    assert_eq!(matrix.get(7, 8), (bits >> 8) & 1 == 1);
    for index in 0..=7 {
        assert_eq!(matrix.get(20 - index, 8), (bits >> index) & 1 == 1);
    }
    for index in 8..=14 {
        assert_eq!(matrix.get(8, 21 - 15 + index), (bits >> index) & 1 == 1);
    }
}

#[test]
fn masks_follow_the_standard_conditions() {
    assert!(Mask::M0.applies(1, 1));
    assert!(!Mask::M0.applies(1, 2));
    assert!(Mask::M1.applies(5, 4));
    assert!(Mask::M2.applies(3, 1));
    assert!(!Mask::M3.applies(1, 1));
    assert!(Mask::M4.applies(0, 0));
    assert!(!Mask::M4.applies(3, 0));
    assert!(Mask::M5.applies(2, 3));
    assert!(Mask::M6.applies(1, 1));
    assert!(!Mask::M6.applies(1, 3));
    assert!(Mask::M7.applies(0, 0));
    for index in 0..8 {
        assert_eq!(Mask::from_index(index).index(), index);
    }
}

#[test]
fn field_multiplication_matches_table() {
    let rs = ReedSolomon::new();
    assert_eq!(rs.gf_mul(2, 128), 29);
    assert_eq!(rs.gf_mul(0, 77), 0);
    assert_eq!(rs.gf_mul(1, 77), 77);
    assert_eq!(ReedSolomon::xtime(0x80), 0x1D);
    assert_eq!(ReedSolomon::xtime(0x41), 0x82);
}

#[test]
fn table_formulas_give_exact_values() {
    assert_eq!(total_codewords::<Version40>(), 3706);
    assert_eq!(max_ecc_codewords_per_block::<Version1>(), 17);
    assert_eq!(payload_bits(EncodeMode::Numeric, 41), Some(137));
    assert_eq!(payload_bits(EncodeMode::Alphanumeric, 5), Some(28));
    assert_eq!(payload_bits(EncodeMode::Bytes, 3), Some(24));
    assert_eq!(version_bits(7), 0x07C94);
    assert_eq!(alignment_pattern_positions(1), ([0; 7], 0));
}

#[test]
fn interleaving_maps_blocks_round_robin() {
    let layout = BlockLayout::<Version5>::new(EccLevel::Q);
    assert_eq!(layout.block_offset(0), 0);
    assert_eq!(layout.block_offset(2), 30);
    assert_eq!(layout.block_offset(3), 46);
    assert_eq!(layout.source_to_interleaved_index(0), 0);
    assert_eq!(layout.source_to_interleaved_index(1), 4);
    assert_eq!(layout.source_to_interleaved_index(15), 1);
    assert_eq!(layout.source_to_interleaved_index(45), 60);
    assert_eq!(layout.source_to_interleaved_index(61), 61);
}

#[test]
fn version7_alignment_patterns_are_drawn() {
    let matrix = QrBuilder::<Version7>::new().build(b"HELLO WORLD").unwrap();
    assert!(matrix.get(22, 22));
    assert!(!matrix.get(23, 22));
    assert!(matrix.get(24, 22));
    assert!(matrix.get(22, 38));
    assert!(matrix.get(38, 22));
    assert!(matrix.get(38, 38));
    assert!(!matrix.get(37, 38));
}

#[test]
fn drawable_defaults_are_one_pixel_without_border() {
    let matrix = QrBuilder::<Version1>::new().build(b"HELLO WORLD").unwrap();
    let drawable = QrDrawable::new(&matrix, 1u8, 0u8);
    assert_eq!(drawable.module_size(), 1);
    assert_eq!(drawable.border(), 0);
    assert_eq!(drawable.pixel_size(), 21);
    assert_eq!(drawable.dark_color(), 1);
    assert_eq!(drawable.light_color(), 0);
}

#[test]
fn drawable_scales_modules_and_offsets_by_border() {
    let matrix = QrBuilder::<Version1>::new().build(b"HELLO WORLD").unwrap();
    let drawable = QrDrawable::new(&matrix, 1u8, 0u8).with_module_size(2).with_border(1);
    assert_eq!(drawable.pixel_size(), 46);
    let origins = drawable.dark_module_origins();
    assert_eq!(origins[0], (2, 2));
    assert!(!origins.contains(&(16, 16)));
    let mut dark = 0usize;
    let mut iter = matrix.iter();
    while let Some((_, _, is_dark)) = iter.next() {
        if is_dark {
            dark += 1;
        }
    }
    assert_eq!(origins.len(), dark);
    assert!(!drawable.matrix().get(7, 7));
}

#[test]
fn drawable_size_saturates() {
    let matrix = QrBuilder::<Version1>::new().build(b"HELLO WORLD").unwrap();
    let drawable = QrDrawable::new(&matrix, 1u8, 0u8).with_border(u32::MAX);
    assert_eq!(drawable.pixel_size(), u32::MAX);
    assert!(drawable.dark_module_origins().is_empty());
    let alignment = QrMatrix::<Version7>::alignment_pattern_positions();
    assert_eq!(alignment.1, 3);
}

#[test]
fn failed_encoding_leaves_the_bits_written_so_far() {
    let mut codewords = vec![0xFFu8; 26];
    let result =
        EncodedData::<Version1>::encode(&[0xAA; 15], EncodeMode::Bytes, EccLevel::H, &mut codewords);
    assert!(matches!(result, Err(QrError::Overflow)));
    assert_eq!(&codewords[..9], &[0x40, 0xFA, 0xAA, 0xAA, 0xAA, 0xAA, 0xAA, 0xAA, 0xA0]);
    assert_eq!(&codewords[9..], &[0xFF; 17]);

    let mut codewords = vec![0xFFu8; 26];
    let result =
        EncodedData::<Version1>::encode(b"12a", EncodeMode::Numeric, EccLevel::L, &mut codewords);
    assert!(matches!(result, Err(QrError::DataInvalid)));
    assert_eq!(&codewords[..2], &[0x10, 0x0C]);
    assert_eq!(&codewords[2..19], &[0; 17]);
    assert_eq!(&codewords[19..], &[0xFF; 7]);
}

#[test]
fn unrepresentable_data_that_fits_is_invalid() {
    let pinned = QrBuilder::<Version1>::new()
        .with_mode(EncodeMode::Alphanumeric)
        .with_ecc_level(EccLevel::L)
        .build(b"lower");
    assert!(matches!(pinned, Err(QrError::DataInvalid)));
    let too_long = QrBuilder::<Version1>::new()
        .with_mode(EncodeMode::Alphanumeric)
        .with_ecc_level(EccLevel::H)
        .build(&[b'a'; 40]);
    assert!(too_long.is_err());
}

#[test]
fn generator_tables_store_each_used_degree_once() {
    let version5 = VersionGeneratorTable::build::<Version5>();
    assert_eq!(version5.unique_degree_count(), 4);
    let copy = version5;
    assert_eq!(copy, version5);
    assert_eq!(version5.for_level(EccLevel::Q).len(), 18);
}

#[test]
fn builders_and_matrices_can_be_copied() {
    let builder = QrBuilder::<Version1>::new().with_ecc_level(EccLevel::M);
    let copy = builder;
    let from_copy = copy.build(b"COPY").unwrap();
    let from_original = builder.clone().build(b"COPY").unwrap();
    assert_eq!(from_copy.ecc_level(), EccLevel::M);
    let cloned = from_original.clone();
    assert_eq!(cloned.mask(), from_copy.mask());
    for y in 0..21 {
        for x in 0..21 {
            assert_eq!(cloned.get(x, y), from_copy.get(x, y));
        }
    }
    let drawable = QrDrawable::new(&cloned, 1u8, 0u8).with_border(2);
    let other = drawable;
    assert_eq!(other.clone().pixel_size(), drawable.pixel_size());
}
