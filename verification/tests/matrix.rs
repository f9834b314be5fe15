use embedded_qr::{
    EccLevel, Mask, QrBuilder, QrMatrix, Version1, Version14, Version2, Version32, Version36,
    Version40, Version7,
};

fn matrix_to_string(matrix: &QrMatrix<Version1>) -> String {
    let mut output = String::new();
    for y in 0..matrix.width() {
        for x in 0..matrix.width() {
            output.push(if matrix.get(x, y) { '#' } else { '.' });
        }
        output.push('\n');
    }
    output
}

fn rows_to_string(rows: &[&str]) -> String {
    let mut output = String::new();
    for row in rows {
        output.push_str(row);
        output.push('\n');
    }
    output
}

#[test]
fn format_bits_match_known_reference() {
    assert_eq!(Mask::M0.format_bits(EccLevel::M), 0x5412);
    assert_eq!(Mask::M7.format_bits(EccLevel::H), 0x083B);
    assert!(!QrMatrix::<Version1>::get_format_bit(Mask::M0.format_bits(EccLevel::M), 0));
    assert!(QrMatrix::<Version1>::get_format_bit(Mask::M0.format_bits(EccLevel::M), 1));
}

#[test]
fn matrix_iter_covers_every_module() {
    let matrix = QrBuilder::<Version1>::new().build(b"HELLO WORLD").unwrap();
    let mut iter = matrix.iter();
    let mut count = 0usize;
    while iter.next().is_some() {
        count += 1;
    }
    assert_eq!(count, 21 * 21);
    assert_eq!(matrix.iter().next(), Some((0, 0, true)));
}

#[test]
fn matrix_width_matches_version() {
    let matrix = QrBuilder::<Version1>::new()
        .with_ecc_level(EccLevel::L)
        .build(b"HELLO WORLD")
        .unwrap();
    assert_eq!(matrix.width(), 21);
    assert_eq!(matrix.ecc_level(), EccLevel::L);
}

#[test]
fn finder_patterns_land_in_expected_positions() {
    let matrix = QrBuilder::<Version1>::new().build(b"HELLO WORLD").unwrap();
    assert!(matrix.get(0, 0));
    assert!(matrix.get(6, 0));
    assert!(matrix.get(0, 6));
    assert!(matrix.get(20, 0));
    assert!(matrix.get(0, 20));
    assert!(!matrix.get(7, 7));
}

#[test]
fn auto_mask_is_reproducible() {
    let left = QrBuilder::<Version1>::new().build(b"01234567").unwrap();
    let right = QrBuilder::<Version1>::new().build(b"01234567").unwrap();
    assert_eq!(left.mask(), right.mask());
    let mut iter = left.iter();
    while let Some((x, y, dark)) = iter.next() {
        assert_eq!(dark, right.get(x, y));
    }
}

#[test]
fn auto_mask_builds_matrix() {
    let matrix = QrBuilder::<Version1>::new().build(b"HELLO WORLD").unwrap();
    let mut iter = matrix.iter();
    let mut any_dark = false;
    while let Some((_, _, dark)) = iter.next() {
        if dark {
            any_dark = true;
        }
    }
    assert!(any_dark);
    assert_eq!(matrix.ecc_level(), EccLevel::Q);
    assert_eq!(matrix.mask(), Mask::M6);
}

#[test]
fn auto_selection_is_exposed_on_result() {
    let short = QrBuilder::<Version1>::new().build(b"HELLO").unwrap();
    let longer = QrBuilder::<Version1>::new().build(b"abcdefgh1234").unwrap();
    assert_eq!(short.ecc_level(), EccLevel::H);
    assert_eq!(short.mask(), Mask::M3);
    assert_eq!(longer.ecc_level(), EccLevel::M);
}

#[test]
fn alignment_pattern_positions_match_known_versions() {
    assert_eq!(QrMatrix::<Version2>::alignment_pattern_positions(), ([6, 18, 0, 0, 0, 0, 0], 2));
    assert_eq!(QrMatrix::<Version7>::alignment_pattern_positions(), ([6, 22, 38, 0, 0, 0, 0], 3));
    assert_eq!(
        QrMatrix::<Version14>::alignment_pattern_positions(),
        ([6, 26, 46, 66, 0, 0, 0], 4)
    );
    assert_eq!(
        QrMatrix::<Version32>::alignment_pattern_positions(),
        ([6, 34, 60, 86, 112, 138, 0], 6)
    );
    assert_eq!(
        QrMatrix::<Version36>::alignment_pattern_positions(),
        ([6, 24, 50, 76, 102, 128, 154], 7)
    );
    assert_eq!(
        QrMatrix::<Version40>::alignment_pattern_positions(),
        ([6, 30, 58, 86, 114, 142, 170], 7)
    );
}

#[test]
fn version2_draws_alignment_pattern() {
    let matrix = QrBuilder::<Version2>::new()
        .with_ecc_level(EccLevel::L)
        .build(b"HELLO WORLD")
        .unwrap();

    assert_eq!(matrix.width(), 25);
    assert!(matrix.get(18, 18));
    assert!(matrix.get(16, 18));
    assert!(matrix.get(20, 18));
    assert!(matrix.get(18, 16));
    assert!(matrix.get(18, 20));
    assert!(!matrix.get(17, 18));
    assert!(!matrix.get(18, 17));
    assert!(!matrix.get(17, 17));
}

#[test]
fn version7_draws_known_version_info_bits() {
    const VERSION7_BITS: u32 = 0x07C94;

    let matrix = QrBuilder::<Version7>::new()
        .with_ecc_level(EccLevel::L)
        .build(b"HELLO WORLD")
        .unwrap();

    assert_eq!(matrix.width(), 45);
    for index in 0..18 {
        let expected = ((VERSION7_BITS >> index) & 1) != 0;
        let x = 45 - 11 + (index % 3);
        let y = index / 3;
        assert_eq!(matrix.get(x, y), expected);
        assert_eq!(matrix.get(y, x), expected);
    }
}

#[test]
fn hello_world_matrix_matches_reference_snapshot() {
    let matrix = QrBuilder::<Version1>::new()
        .with_ecc_level(EccLevel::L)
        .build(b"HELLO WORLD")
        .unwrap();
    assert_eq!(
        matrix_to_string(&matrix),
        rows_to_string(&[
            "#######...#.#.#######",
            "#.....#.#.#.#.#.....#",
            "#.###.#.#.##..#.###.#",
            "#.###.#.....#.#.###.#",
            "#.###.#.#####.#.###.#",
            "#.....#.###...#.....#",
            "#######.#.#.#.#######",
            "........#............",
            "##.#..##..###.###.##.",
            "###.##..#.##....#...#",
            "#.#...#..#.#.##..#.#.",
            "#.####.###..####..###",
            "...#####.###..###.#.#",
            "........#....##.#.###",
            "#######.#..##.##..#.#",
            "#.....#...#...##.#...",
            "#.###.#..##.####.##.#",
            "#.###.#.#.#..###.#.##",
            "#.###.#...##.###.#..#",
            "#.....#.#.###...##..#",
            "#######.#.#..#.#.#...",
        ])
    );
}

#[test]
fn numeric_matrix_matches_reference_snapshot() {
    let matrix = QrBuilder::<Version1>::new()
        .with_ecc_level(EccLevel::M)
        .build(b"01234567")
        .unwrap();
    assert_eq!(
        matrix_to_string(&matrix),
        rows_to_string(&[
            "#######...###.#######",
            "#.....#.###...#.....#",
            "#.###.#..##...#.###.#",
            "#.###.#..#.##.#.###.#",
            "#.###.#.##.##.#.###.#",
            "#.....#....#..#.....#",
            "#######.#.#.#.#######",
            ".....................",
            "#.#.#.#...#.#...#..#.",
            "##.#....#.##.#.#...#.",
            "...##.###.##.###.###.",
            "##..##.#.#.###.##..#.",
            "..#..###.###.###....#",
            "........#.#...#....#.",
            "#######.....#...#...#",
            "#.....#...#...#..#.##",
            "#.###.#.###.#.#.###.#",
            "#.###.#..#.#.#.#.###.",
            "#.###.#.##.#.###..#.#",
            "#.....#....###.###...",
            "#######.#..#.###..#.#",
        ])
    );
}
