//! Basic QR vocabulary: errors, encoding modes, ECC levels, masks and the
//! per-version capacity tables of the QR standard.

use vstd::prelude::*;

use crate::version::Version;

verus! {

/// Errors that can occur while building a QR code.
#[derive(Debug, Clone, Copy, PartialEq, Eq, Structural)]
pub enum QrError {
    /// The input could not be represented in a supported mode.
    DataInvalid,
    /// The encoded payload does not fit in the selected QR version.
    Overflow,
}

/// The data encoding modes supported by this crate.
#[derive(Debug, Clone, Copy, PartialEq, Eq, Structural)]
pub enum EncodeMode {
    Numeric,
    Alphanumeric,
    Bytes,
}

/// The 4-bit mode indicator of a mode.
pub open spec fn mode_indicator(mode: EncodeMode) -> u16 {
    match mode {
        EncodeMode::Numeric => 0b0001,
        EncodeMode::Alphanumeric => 0b0010,
        EncodeMode::Bytes => 0b0100,
    }
}

/// Width of the character-count field of `mode` in QR version `version`.
pub open spec fn count_bits(mode: EncodeMode, version: int) -> usize {
    match mode {
        EncodeMode::Numeric => if version <= 9 {
            10
        } else if version <= 26 {
            12
        } else {
            14
        },
        EncodeMode::Alphanumeric => if version <= 9 {
            9
        } else if version <= 26 {
            11
        } else {
            13
        },
        EncodeMode::Bytes => if version <= 9 {
            8
        } else {
            16
        },
    }
}

impl EncodeMode {
    /// Returns the 4-bit mode indicator.
    pub fn mode_bits(self) -> (r: u16)
        ensures
            r == mode_indicator(self),
    {
        match self {
            Self::Numeric => 0b0001,
            Self::Alphanumeric => 0b0010,
            Self::Bytes => 0b0100,
        }
    }

    /// Returns the width of the character-count field for version `T`.
    pub fn counter_bits<T: Version>(self) -> (r: usize)
        ensures
            r == count_bits(self, T::spec_version() as int),
    {
        self.counter_bits_for(T::version())
    }

    /// Returns the width of the character-count field for QR version `version`.
    pub fn counter_bits_for(self, version: usize) -> (r: usize)
        ensures
            r == count_bits(self, version as int),
            8 <= r <= 16,
    {
        match self {
            Self::Numeric => {
                if version <= 9 {
                    10
                } else if version <= 26 {
                    12
                } else {
                    14
                }
            },
            Self::Alphanumeric => {
                if version <= 9 {
                    9
                } else if version <= 26 {
                    11
                } else {
                    13
                }
            },
            Self::Bytes => {
                if version <= 9 {
                    8
                } else {
                    16
                }
            },
        }
    }
}

/// QR Code error-correction level.
///
/// Higher levels recover better from damage, but reduce usable payload
/// capacity for a fixed version.
#[derive(Debug, Clone, Copy, PartialEq, Eq, Structural)]
pub enum EccLevel {
    L,
    M,
    Q,
    H,
}

/// The position of a level in the per-version tables (L, M, Q, H).
pub open spec fn level_index(level: EccLevel) -> int {
    match level {
        EccLevel::L => 0,
        EccLevel::M => 1,
        EccLevel::Q => 2,
        EccLevel::H => 3,
    }
}

/// The level at a table position.
pub open spec fn level_at(index: int) -> EccLevel {
    if index == 0 {
        EccLevel::L
    } else if index == 1 {
        EccLevel::M
    } else if index == 2 {
        EccLevel::Q
    } else {
        EccLevel::H
    }
}

/// The two ECC bits of the format information.
pub open spec fn level_format_bits(level: EccLevel) -> u16 {
    match level {
        EccLevel::L => 0b01,
        EccLevel::M => 0b00,
        EccLevel::Q => 0b11,
        EccLevel::H => 0b10,
    }
}

impl EccLevel {
    /// Returns the position of the level in the per-version tables.
    pub fn index(self) -> (r: usize)
        ensures
            r == level_index(self),
    {
        match self {
            Self::L => 0,
            Self::M => 1,
            Self::Q => 2,
            Self::H => 3,
        }
    }

    /// Returns the two ECC bits of the format information.
    pub fn format_bits(self) -> (r: u16)
        ensures
            r == level_format_bits(self),
    {
        match self {
            Self::L => 0b01,
            Self::M => 0b00,
            Self::Q => 0b11,
            Self::H => 0b10,
        }
    }
}

/// One of the eight QR Code mask patterns.
#[derive(Debug, Clone, Copy, PartialEq, Eq, Structural)]
pub enum Mask {
    M0,
    M1,
    M2,
    M3,
    M4,
    M5,
    M6,
    M7,
}

/// The number of a mask pattern.
pub open spec fn mask_index(mask: Mask) -> int {
    match mask {
        Mask::M0 => 0,
        Mask::M1 => 1,
        Mask::M2 => 2,
        Mask::M3 => 3,
        Mask::M4 => 4,
        Mask::M5 => 5,
        Mask::M6 => 6,
        Mask::M7 => 7,
    }
}

/// The mask pattern with number `index`.
pub open spec fn mask_at(index: int) -> Mask {
    if index == 0 {
        Mask::M0
    } else if index == 1 {
        Mask::M1
    } else if index == 2 {
        Mask::M2
    } else if index == 3 {
        Mask::M3
    } else if index == 4 {
        Mask::M4
    } else if index == 5 {
        Mask::M5
    } else if index == 6 {
        Mask::M6
    } else {
        Mask::M7
    }
}

/// The mask condition of the QR standard: the module at column `x`, row `y`
/// is inverted when this holds.
pub open spec fn mask_condition(mask: Mask, x: int, y: int) -> bool {
    match mask {
        Mask::M0 => (x + y) % 2 == 0,
        Mask::M1 => y % 2 == 0,
        Mask::M2 => x % 3 == 0,
        Mask::M3 => (x + y) % 3 == 0,
        Mask::M4 => ((y / 2) + (x / 3)) % 2 == 0,
        Mask::M5 => ((x * y) % 2) + ((x * y) % 3) == 0,
        Mask::M6 => ((((x * y) % 2) + ((x * y) % 3)) % 2) == 0,
        Mask::M7 => ((((x + y) % 2) + ((x * y) % 3)) % 2) == 0,
    }
}

/// The coordinates for which the mask condition can be evaluated in `usize`.
pub open spec fn mask_computable(mask: Mask, x: int, y: int) -> bool {
    match mask {
        Mask::M0 | Mask::M3 => x + y <= usize::MAX,
        Mask::M5 | Mask::M6 => x * y <= usize::MAX,
        Mask::M7 => x + y <= usize::MAX && x * y <= usize::MAX,
        _ => true,
    }
}

/// One step of the BCH(15, 5) remainder computation of the format information.
pub open spec fn format_step(r: u16) -> u16 {
    if (r >> 9u16) & 1 == 1 {
        (r << 1u16) ^ 0x537u16
    } else {
        r << 1u16
    }
}

/// `n` steps of the BCH remainder computation starting from `r`.
pub open spec fn format_remainder(r: u16, n: nat) -> u16
    decreases n,
{
    if n == 0 {
        r
    } else {
        format_step(format_remainder(r, (n - 1) as nat))
    }
}

/// The 5 data bits of the format information.
pub open spec fn format_data(level: EccLevel, mask: Mask) -> u16 {
    (level_format_bits(level) << 3u16) | (mask_index(mask) as u16)
}

/// The 15-bit masked format information word of the QR standard.
pub open spec fn format_word(level: EccLevel, mask: Mask) -> u16 {
    let data = format_data(level, mask);
    ((data << 10u16) | format_remainder(data, 10)) ^ 0x5412u16
}

impl Mask {
    /// Returns the mask with number `index` (0 through 7).
    pub fn from_index(index: usize) -> (r: Mask)
        requires
            index < 8,
        ensures
            r == mask_at(index as int),
            mask_index(r) == index,
    {
        match index {
            0 => Mask::M0,
            1 => Mask::M1,
            2 => Mask::M2,
            3 => Mask::M3,
            4 => Mask::M4,
            5 => Mask::M5,
            6 => Mask::M6,
            _ => Mask::M7,
        }
    }

    /// Returns the number of the mask pattern.
    pub fn index(self) -> (r: usize)
        ensures
            r == mask_index(self),
    {
        match self {
            Self::M0 => 0,
            Self::M1 => 1,
            Self::M2 => 2,
            Self::M3 => 3,
            Self::M4 => 4,
            Self::M5 => 5,
            Self::M6 => 6,
            Self::M7 => 7,
        }
    }

    /// Returns whether the mask inverts the module at column `x`, row `y`.
    pub fn applies(self, x: usize, y: usize) -> (r: bool)
        requires
            mask_computable(self, x as int, y as int),
        ensures
            r == mask_condition(self, x as int, y as int),
    {
        match self {
            Self::M0 => (x + y) % 2 == 0,
            Self::M1 => y % 2 == 0,
            Self::M2 => x % 3 == 0,
            Self::M3 => (x + y) % 3 == 0,
            Self::M4 => ((y / 2) + (x / 3)) % 2 == 0,
            Self::M5 => ((x * y) % 2) + ((x * y) % 3) == 0,
            Self::M6 => ((((x * y) % 2) + ((x * y) % 3)) % 2) == 0,
            Self::M7 => ((((x + y) % 2) + ((x * y) % 3)) % 2) == 0,
        }
    }

    /// Returns the 15-bit format information word for this mask and `level`.
    pub fn format_bits(self, level: EccLevel) -> (r: u16)
        ensures
            r == format_word(level, self),
    {
        let data = (level.format_bits() << 3) | self.index() as u16;
        let mut remainder = data;
        let mut step: usize = 0;
        while step < 10
            invariant
                step <= 10,
                remainder == format_remainder(data, step as nat),
            decreases 10 - step,
        {
            let high: u16 = (remainder >> 9) & 1;
            assert(high <= 1) by (bit_vector)
                requires
                    high == (remainder >> 9u16) & 1,
            ;
            let next = (remainder << 1) ^ (high * 0x537);
            assert(next == format_step(remainder)) by (bit_vector)
                requires
                    high == (remainder >> 9u16) & 1,
                    next == (remainder << 1u16) ^ (high * 0x537u16) as u16,
            ;
            remainder = next;
            step = step + 1;
        }
        ((data << 10) | remainder) ^ 0x5412
    }
}

/// The mask patterns of the QR standard, by their shape: mask 0 is a
/// checkerboard of single modules, mask 1 alternates rows, mask 2 darkens
/// every third column, mask 3 every third anti-diagonal, and mask 4 is a
/// checkerboard of blocks three modules wide and two tall whose top-left
/// block is inverted.
pub proof fn lemma_mask_shapes(x: int, y: int)
    requires
        0 <= x,
        0 <= y,
    ensures
        mask_condition(Mask::M0, 0, 0),
        mask_condition(Mask::M0, x + 1, y) == !mask_condition(Mask::M0, x, y),
        mask_condition(Mask::M0, x, y + 1) == !mask_condition(Mask::M0, x, y),
        mask_condition(Mask::M1, 0, 0),
        mask_condition(Mask::M1, x + 1, y) == mask_condition(Mask::M1, x, y),
        mask_condition(Mask::M1, x, y + 1) == !mask_condition(Mask::M1, x, y),
        mask_condition(Mask::M2, 0, 0),
        !mask_condition(Mask::M2, 1, 0),
        !mask_condition(Mask::M2, 2, 0),
        mask_condition(Mask::M2, x + 3, y) == mask_condition(Mask::M2, x, y),
        mask_condition(Mask::M2, x, y + 1) == mask_condition(Mask::M2, x, y),
        mask_condition(Mask::M3, 0, 0),
        !mask_condition(Mask::M3, 1, 0),
        !mask_condition(Mask::M3, 2, 0),
        mask_condition(Mask::M3, x + 3, y) == mask_condition(Mask::M3, x, y),
        mask_condition(Mask::M3, x, y + 1) == mask_condition(Mask::M3, x + 1, y),
        x < 3 && y < 2 ==> mask_condition(Mask::M4, x, y),
        mask_condition(Mask::M4, x + 3, y) == !mask_condition(Mask::M4, x, y),
        mask_condition(Mask::M4, x, y + 2) == !mask_condition(Mask::M4, x, y),
{
}

/// Masks 5, 6 and 7 depend on the product `x * y` modulo six: mask 5
/// inverts where it is zero, mask 6 where it is below three; all three are
/// symmetric in `x` and `y` and repeat every six modules.
pub proof fn lemma_mask_products(x: int, y: int)
    requires
        0 <= x,
        0 <= y,
    ensures
        mask_condition(Mask::M5, x, y) == ((x * y) % 6 == 0),
        mask_condition(Mask::M6, x, y) == ((x * y) % 6 < 3),
        mask_condition(Mask::M5, x + 6, y) == mask_condition(Mask::M5, x, y),
        mask_condition(Mask::M6, x + 6, y) == mask_condition(Mask::M6, x, y),
        mask_condition(Mask::M7, x + 6, y) == mask_condition(Mask::M7, x, y),
        mask_condition(Mask::M5, x, y) == mask_condition(Mask::M5, y, x),
        mask_condition(Mask::M6, x, y) == mask_condition(Mask::M6, y, x),
        mask_condition(Mask::M7, x, y) == mask_condition(Mask::M7, y, x),
{
    let p = x * y;
    assert(p >= 0 && y * x == p && (x + 6) * y == p + 6 * y) by (nonlinear_arith)
        requires
            x >= 0,
            y >= 0,
            p == x * y,
    ;
    lemma_mod_six(p);
    lemma_mod_six(p + 6 * y);
    assert((p + 6 * y) % 6 == p % 6) by {
        vstd::arithmetic::div_mod::lemma_mod_multiples_vanish(y, p, 6);
    }
}

/// The residues of `p` modulo two and three are those of `p % 6`.
proof fn lemma_mod_six(p: int)
    requires
        p >= 0,
    ensures
        p % 2 == (p % 6) % 2,
        p % 3 == (p % 6) % 3,
        0 <= p % 6 < 6,
{
    vstd::arithmetic::div_mod::lemma_fundamental_div_mod(p, 6);
    let q = p / 6;
    let k = p % 6;
    assert(p == 2 * (3 * q) + k && p == 3 * (2 * q) + k) by (nonlinear_arith)
        requires
            p == 6 * q + k,
    ;
    vstd::arithmetic::div_mod::lemma_mod_multiples_vanish(3 * q, k, 2);
    vstd::arithmetic::div_mod::lemma_mod_multiples_vanish(2 * q, k, 3);
}

/// The format information names the ECC level by the standard's two-bit
/// indicator (L 01, M 00, Q 11, H 10: the level's position in L, M, Q, H
/// with its low bit flipped) and the mask by its number: unmasking the
/// 15-bit word and dropping its ten BCH bits gives back both.
pub proof fn lemma_format_word_decodes(level: EccLevel, mask: Mask)
    ensures
        (format_word(level, mask) ^ 0x5412u16) >> 13u16 == (level_index(level) as u16 ^ 1u16),
        ((format_word(level, mask) ^ 0x5412u16) >> 10u16) & 7u16 == mask_index(mask) as u16,
{
    let lb = level_format_bits(level);
    let mi = mask_index(mask) as u16;
    let d = format_data(level, mask);
    assert(lb < 4);
    assert(mi < 8);
    assert(d >> 3u16 == lb && d & 7u16 == mi && d < 32) by (bit_vector)
        requires
            d == (lb << 3u16) | mi,
            lb < 4,
            mi < 8,
    ;
    lemma_format_remainder_small(d, 10);
    let rem = format_remainder(d, 10);
    let w = format_word(level, mask);
    assert(((w ^ 0x5412u16) >> 13u16) == d >> 3u16 && ((w ^ 0x5412u16) >> 10u16) & 7u16 == d
        & 7u16) by (bit_vector)
        requires
            d < 32,
            rem < 1024,
            w == ((d << 10u16) | rem) ^ 0x5412u16,
    ;
    assert(lb == (level_index(level) as u16 ^ 1u16)) by {
        match level {
            EccLevel::L => {
                assert(1u16 == 0u16 ^ 1u16) by (bit_vector);
            },
            EccLevel::M => {
                assert(0u16 == 1u16 ^ 1u16) by (bit_vector);
            },
            EccLevel::Q => {
                assert(3u16 == 2u16 ^ 1u16) by (bit_vector);
            },
            EccLevel::H => {
                assert(2u16 == 3u16 ^ 1u16) by (bit_vector);
            },
        }
    }
}

/// The BCH remainder stays below `2^10`.
proof fn lemma_format_remainder_small(r: u16, n: nat)
    requires
        r < 1024,
    ensures
        format_remainder(r, n) < 1024,
    decreases n,
{
    if n > 0 {
        lemma_format_remainder_small(r, (n - 1) as nat);
        let prev = format_remainder(r, (n - 1) as nat);
        assert(format_step(prev) < 1024) by (bit_vector)
            requires
                prev < 1024,
                format_step(prev) == if (prev >> 9u16) & 1 == 1 {
                    (prev << 1u16) ^ 0x537u16
                } else {
                    prev << 1u16
                },
        ;
    }
}

/// The width of the character-count field, as the QR standard tabulates
/// it: numeric 10, 12 or 14 bits, alphanumeric 9, 11 or 13, bytes 8, 16 or
/// 16, for versions 1-9, 10-26 and 27-40.
pub proof fn lemma_count_bits_standard(mode: EncodeMode, version: int)
    requires
        1 <= version <= 40,
    ensures
        1 <= version <= 9 ==> count_bits(mode, version) == match mode {
            EncodeMode::Numeric => 10usize,
            EncodeMode::Alphanumeric => 9usize,
            EncodeMode::Bytes => 8usize,
        },
        10 <= version <= 26 ==> count_bits(mode, version) == match mode {
            EncodeMode::Numeric => 12usize,
            EncodeMode::Alphanumeric => 11usize,
            EncodeMode::Bytes => 16usize,
        },
        27 <= version <= 40 ==> count_bits(mode, version) == match mode {
            EncodeMode::Numeric => 14usize,
            EncodeMode::Alphanumeric => 13usize,
            EncodeMode::Bytes => 16usize,
        },
{
}

/// Data codeword capacity of each version (rows) and ECC level (L, M, Q, H).
pub const DATA_CAPACITY: [[usize; 4]; 40] = [
    [19, 16, 13, 9],
    [34, 28, 22, 16],
    [55, 44, 34, 26],
    [80, 64, 48, 36],
    [108, 86, 62, 46],
    [136, 108, 76, 60],
    [156, 124, 88, 66],
    [194, 154, 110, 86],
    [232, 182, 132, 100],
    [274, 216, 154, 122],
    [324, 254, 180, 140],
    [370, 290, 206, 158],
    [428, 334, 244, 180],
    [461, 365, 261, 197],
    [523, 415, 295, 223],
    [589, 453, 325, 253],
    [647, 507, 367, 283],
    [721, 563, 397, 313],
    [795, 627, 445, 341],
    [861, 669, 485, 385],
    [932, 714, 512, 406],
    [1006, 782, 568, 442],
    [1094, 860, 614, 464],
    [1174, 914, 664, 514],
    [1276, 1000, 718, 538],
    [1370, 1062, 754, 596],
    [1468, 1128, 808, 628],
    [1531, 1193, 871, 661],
    [1631, 1267, 911, 701],
    [1735, 1373, 985, 745],
    [1843, 1455, 1033, 793],
    [1955, 1541, 1115, 845],
    [2071, 1631, 1171, 901],
    [2191, 1725, 1231, 961],
    [2306, 1812, 1286, 986],
    [2434, 1914, 1354, 1054],
    [2566, 1992, 1426, 1096],
    [2702, 2102, 1502, 1142],
    [2812, 2216, 1582, 1222],
    [2956, 2334, 1666, 1276],
];

/// Number of Reed-Solomon blocks of each version (rows) and ECC level.
pub const DATA_BLOCKS: [[usize; 4]; 40] = [
    [1, 1, 1, 1],
    [1, 1, 1, 1],
    [1, 1, 2, 2],
    [1, 2, 2, 4],
    [1, 2, 4, 4],
    [2, 4, 4, 4],
    [2, 4, 6, 5],
    [2, 4, 6, 6],
    [2, 5, 8, 8],
    [4, 5, 8, 8],
    [4, 5, 8, 11],
    [4, 8, 10, 11],
    [4, 9, 12, 16],
    [4, 9, 16, 16],
    [6, 10, 12, 18],
    [6, 10, 17, 16],
    [6, 11, 16, 19],
    [6, 13, 18, 21],
    [7, 14, 21, 25],
    [8, 16, 20, 25],
    [8, 17, 23, 25],
    [9, 17, 23, 34],
    [9, 18, 25, 30],
    [10, 20, 27, 32],
    [12, 21, 29, 35],
    [12, 23, 34, 37],
    [12, 25, 34, 40],
    [13, 26, 35, 42],
    [14, 28, 38, 45],
    [15, 29, 40, 48],
    [16, 31, 43, 51],
    [17, 33, 45, 54],
    [18, 35, 48, 57],
    [19, 37, 51, 60],
    [19, 38, 53, 63],
    [20, 40, 56, 66],
    [21, 43, 59, 70],
    [22, 45, 62, 74],
    [24, 47, 65, 77],
    [25, 49, 68, 81],
];

/// Data codewords of `version` at `level`.
pub open spec fn data_codewords_of(version: int, level: EccLevel) -> usize {
    DATA_CAPACITY[version - 1][level_index(level)]
}

/// Reed-Solomon blocks of `version` at `level`.
pub open spec fn blocks_of(version: int, level: EccLevel) -> usize {
    DATA_BLOCKS[version - 1][level_index(level)]
}

/// Data codeword capacity of one version for each ECC level (L, M, Q, H).
#[derive(Debug, Clone, Copy, PartialEq, Eq)]
pub struct DatawordsCapacity(pub [usize; 4]);

impl DatawordsCapacity {
    /// Builds a capacity row from its four entries.
    pub fn new(l: usize, m: usize, q: usize, h: usize) -> (r: Self)
        ensures
            r.0[0] == l,
            r.0[1] == m,
            r.0[2] == q,
            r.0[3] == h,
    {
        Self([l, m, q, h])
    }

    /// Returns the capacity row of version `T`.
    pub fn get_from_version<T: Version>() -> (r: Self)
        ensures
            forall|i: int| 0 <= i < 4 ==> #[trigger] r.0[i] == DATA_CAPACITY[T::spec_version() - 1][i],
    {
        Self(DATA_CAPACITY[T::version() - 1])
    }

    /// Returns the entry of `level`.
    pub fn for_level(self, level: EccLevel) -> (r: usize)
        ensures
            r == self.0[level_index(level)],
    {
        self.0[level.index()]
    }
}

/// Reed-Solomon block counts of one version for each ECC level (L, M, Q, H).
#[derive(Debug, Clone, Copy, PartialEq, Eq)]
pub struct DataBlocks(pub [usize; 4]);

impl DataBlocks {
    /// Builds a block-count row from its four entries.
    pub fn new(l: usize, m: usize, q: usize, h: usize) -> (r: Self)
        ensures
            r.0[0] == l,
            r.0[1] == m,
            r.0[2] == q,
            r.0[3] == h,
    {
        Self([l, m, q, h])
    }

    /// Returns the block-count row of version `T`.
    pub fn get_from_version<T: Version>() -> (r: Self)
        ensures
            forall|i: int| 0 <= i < 4 ==> #[trigger] r.0[i] == DATA_BLOCKS[T::spec_version() - 1][i],
    {
        Self(DATA_BLOCKS[T::version() - 1])
    }

    /// Returns the entry of `level`.
    pub fn for_level(self, level: EccLevel) -> (r: usize)
        ensures
            r == self.0[level_index(level)],
    {
        self.0[level.index()]
    }
}

/// The 15-bit format information words that the QR standard tabulates,
/// for the levels L, M, Q and H in turn, eight masks each.
pub open spec fn standard_format_words() -> Seq<u16> {
    seq![
        0x77C4u16, 0x72F3u16, 0x7DAAu16, 0x789Du16, 0x662Fu16, 0x6318u16, 0x6C41u16,
        0x6976u16, 0x5412u16, 0x5125u16, 0x5E7Cu16, 0x5B4Bu16, 0x45F9u16, 0x40CEu16,
        0x4F97u16, 0x4AA0u16, 0x355Fu16, 0x3068u16, 0x3F31u16, 0x3A06u16, 0x24B4u16,
        0x2183u16, 0x2EDAu16, 0x2BEDu16, 0x1689u16, 0x13BEu16, 0x1CE7u16, 0x19D0u16,
        0x0762u16, 0x0255u16, 0x0D0Cu16, 0x083Bu16
    ]
}

/// The format words computed from the BCH code.
proof fn lemma_format_words_computed()
    ensures
        (((((1u16 << 3u16) | 0u16) << 10u16) | format_remainder((1u16 << 3u16) | 0u16, 10)) ^ 0x5412u16) == 0x77C4u16,
        (((((1u16 << 3u16) | 1u16) << 10u16) | format_remainder((1u16 << 3u16) | 1u16, 10)) ^ 0x5412u16) == 0x72F3u16,
        (((((1u16 << 3u16) | 2u16) << 10u16) | format_remainder((1u16 << 3u16) | 2u16, 10)) ^ 0x5412u16) == 0x7DAAu16,
        (((((1u16 << 3u16) | 3u16) << 10u16) | format_remainder((1u16 << 3u16) | 3u16, 10)) ^ 0x5412u16) == 0x789Du16,
        (((((1u16 << 3u16) | 4u16) << 10u16) | format_remainder((1u16 << 3u16) | 4u16, 10)) ^ 0x5412u16) == 0x662Fu16,
        (((((1u16 << 3u16) | 5u16) << 10u16) | format_remainder((1u16 << 3u16) | 5u16, 10)) ^ 0x5412u16) == 0x6318u16,
        (((((1u16 << 3u16) | 6u16) << 10u16) | format_remainder((1u16 << 3u16) | 6u16, 10)) ^ 0x5412u16) == 0x6C41u16,
        (((((1u16 << 3u16) | 7u16) << 10u16) | format_remainder((1u16 << 3u16) | 7u16, 10)) ^ 0x5412u16) == 0x6976u16,
        (((((0u16 << 3u16) | 0u16) << 10u16) | format_remainder((0u16 << 3u16) | 0u16, 10)) ^ 0x5412u16) == 0x5412u16,
        (((((0u16 << 3u16) | 1u16) << 10u16) | format_remainder((0u16 << 3u16) | 1u16, 10)) ^ 0x5412u16) == 0x5125u16,
        (((((0u16 << 3u16) | 2u16) << 10u16) | format_remainder((0u16 << 3u16) | 2u16, 10)) ^ 0x5412u16) == 0x5E7Cu16,
        (((((0u16 << 3u16) | 3u16) << 10u16) | format_remainder((0u16 << 3u16) | 3u16, 10)) ^ 0x5412u16) == 0x5B4Bu16,
        (((((0u16 << 3u16) | 4u16) << 10u16) | format_remainder((0u16 << 3u16) | 4u16, 10)) ^ 0x5412u16) == 0x45F9u16,
        (((((0u16 << 3u16) | 5u16) << 10u16) | format_remainder((0u16 << 3u16) | 5u16, 10)) ^ 0x5412u16) == 0x40CEu16,
        (((((0u16 << 3u16) | 6u16) << 10u16) | format_remainder((0u16 << 3u16) | 6u16, 10)) ^ 0x5412u16) == 0x4F97u16,
        (((((0u16 << 3u16) | 7u16) << 10u16) | format_remainder((0u16 << 3u16) | 7u16, 10)) ^ 0x5412u16) == 0x4AA0u16,
        (((((3u16 << 3u16) | 0u16) << 10u16) | format_remainder((3u16 << 3u16) | 0u16, 10)) ^ 0x5412u16) == 0x355Fu16,
        (((((3u16 << 3u16) | 1u16) << 10u16) | format_remainder((3u16 << 3u16) | 1u16, 10)) ^ 0x5412u16) == 0x3068u16,
        (((((3u16 << 3u16) | 2u16) << 10u16) | format_remainder((3u16 << 3u16) | 2u16, 10)) ^ 0x5412u16) == 0x3F31u16,
        (((((3u16 << 3u16) | 3u16) << 10u16) | format_remainder((3u16 << 3u16) | 3u16, 10)) ^ 0x5412u16) == 0x3A06u16,
        (((((3u16 << 3u16) | 4u16) << 10u16) | format_remainder((3u16 << 3u16) | 4u16, 10)) ^ 0x5412u16) == 0x24B4u16,
        (((((3u16 << 3u16) | 5u16) << 10u16) | format_remainder((3u16 << 3u16) | 5u16, 10)) ^ 0x5412u16) == 0x2183u16,
        (((((3u16 << 3u16) | 6u16) << 10u16) | format_remainder((3u16 << 3u16) | 6u16, 10)) ^ 0x5412u16) == 0x2EDAu16,
        (((((3u16 << 3u16) | 7u16) << 10u16) | format_remainder((3u16 << 3u16) | 7u16, 10)) ^ 0x5412u16) == 0x2BEDu16,
        (((((2u16 << 3u16) | 0u16) << 10u16) | format_remainder((2u16 << 3u16) | 0u16, 10)) ^ 0x5412u16) == 0x1689u16,
        (((((2u16 << 3u16) | 1u16) << 10u16) | format_remainder((2u16 << 3u16) | 1u16, 10)) ^ 0x5412u16) == 0x13BEu16,
        (((((2u16 << 3u16) | 2u16) << 10u16) | format_remainder((2u16 << 3u16) | 2u16, 10)) ^ 0x5412u16) == 0x1CE7u16,
        (((((2u16 << 3u16) | 3u16) << 10u16) | format_remainder((2u16 << 3u16) | 3u16, 10)) ^ 0x5412u16) == 0x19D0u16,
        (((((2u16 << 3u16) | 4u16) << 10u16) | format_remainder((2u16 << 3u16) | 4u16, 10)) ^ 0x5412u16) == 0x0762u16,
        (((((2u16 << 3u16) | 5u16) << 10u16) | format_remainder((2u16 << 3u16) | 5u16, 10)) ^ 0x5412u16) == 0x0255u16,
        (((((2u16 << 3u16) | 6u16) << 10u16) | format_remainder((2u16 << 3u16) | 6u16, 10)) ^ 0x5412u16) == 0x0D0Cu16,
        (((((2u16 << 3u16) | 7u16) << 10u16) | format_remainder((2u16 << 3u16) | 7u16, 10)) ^ 0x5412u16) == 0x083Bu16,
{
    assert((((((1u16 << 3u16) | 0u16) << 10u16) | format_remainder((1u16 << 3u16) | 0u16, 10)) ^ 0x5412u16) == 0x77C4u16 && (((((1u16 << 3u16) | 1u16) << 10u16) | format_remainder((1u16 << 3u16) | 1u16, 10)) ^ 0x5412u16) == 0x72F3u16 && (((((1u16 << 3u16) | 2u16) << 10u16) | format_remainder((1u16 << 3u16) | 2u16, 10)) ^ 0x5412u16) == 0x7DAAu16 && (((((1u16 << 3u16) | 3u16) << 10u16) | format_remainder((1u16 << 3u16) | 3u16, 10)) ^ 0x5412u16) == 0x789Du16 && (((((1u16 << 3u16) | 4u16) << 10u16) | format_remainder((1u16 << 3u16) | 4u16, 10)) ^ 0x5412u16) == 0x662Fu16 && (((((1u16 << 3u16) | 5u16) << 10u16) | format_remainder((1u16 << 3u16) | 5u16, 10)) ^ 0x5412u16) == 0x6318u16 && (((((1u16 << 3u16) | 6u16) << 10u16) | format_remainder((1u16 << 3u16) | 6u16, 10)) ^ 0x5412u16) == 0x6C41u16 && (((((1u16 << 3u16) | 7u16) << 10u16) | format_remainder((1u16 << 3u16) | 7u16, 10)) ^ 0x5412u16) == 0x6976u16 && (((((0u16 << 3u16) | 0u16) << 10u16) | format_remainder((0u16 << 3u16) | 0u16, 10)) ^ 0x5412u16) == 0x5412u16 && (((((0u16 << 3u16) | 1u16) << 10u16) | format_remainder((0u16 << 3u16) | 1u16, 10)) ^ 0x5412u16) == 0x5125u16 && (((((0u16 << 3u16) | 2u16) << 10u16) | format_remainder((0u16 << 3u16) | 2u16, 10)) ^ 0x5412u16) == 0x5E7Cu16 && (((((0u16 << 3u16) | 3u16) << 10u16) | format_remainder((0u16 << 3u16) | 3u16, 10)) ^ 0x5412u16) == 0x5B4Bu16 && (((((0u16 << 3u16) | 4u16) << 10u16) | format_remainder((0u16 << 3u16) | 4u16, 10)) ^ 0x5412u16) == 0x45F9u16 && (((((0u16 << 3u16) | 5u16) << 10u16) | format_remainder((0u16 << 3u16) | 5u16, 10)) ^ 0x5412u16) == 0x40CEu16 && (((((0u16 << 3u16) | 6u16) << 10u16) | format_remainder((0u16 << 3u16) | 6u16, 10)) ^ 0x5412u16) == 0x4F97u16 && (((((0u16 << 3u16) | 7u16) << 10u16) | format_remainder((0u16 << 3u16) | 7u16, 10)) ^ 0x5412u16) == 0x4AA0u16 && (((((3u16 << 3u16) | 0u16) << 10u16) | format_remainder((3u16 << 3u16) | 0u16, 10)) ^ 0x5412u16) == 0x355Fu16 && (((((3u16 << 3u16) | 1u16) << 10u16) | format_remainder((3u16 << 3u16) | 1u16, 10)) ^ 0x5412u16) == 0x3068u16 && (((((3u16 << 3u16) | 2u16) << 10u16) | format_remainder((3u16 << 3u16) | 2u16, 10)) ^ 0x5412u16) == 0x3F31u16 && (((((3u16 << 3u16) | 3u16) << 10u16) | format_remainder((3u16 << 3u16) | 3u16, 10)) ^ 0x5412u16) == 0x3A06u16 && (((((3u16 << 3u16) | 4u16) << 10u16) | format_remainder((3u16 << 3u16) | 4u16, 10)) ^ 0x5412u16) == 0x24B4u16 && (((((3u16 << 3u16) | 5u16) << 10u16) | format_remainder((3u16 << 3u16) | 5u16, 10)) ^ 0x5412u16) == 0x2183u16 && (((((3u16 << 3u16) | 6u16) << 10u16) | format_remainder((3u16 << 3u16) | 6u16, 10)) ^ 0x5412u16) == 0x2EDAu16 && (((((3u16 << 3u16) | 7u16) << 10u16) | format_remainder((3u16 << 3u16) | 7u16, 10)) ^ 0x5412u16) == 0x2BEDu16 && (((((2u16 << 3u16) | 0u16) << 10u16) | format_remainder((2u16 << 3u16) | 0u16, 10)) ^ 0x5412u16) == 0x1689u16 && (((((2u16 << 3u16) | 1u16) << 10u16) | format_remainder((2u16 << 3u16) | 1u16, 10)) ^ 0x5412u16) == 0x13BEu16 && (((((2u16 << 3u16) | 2u16) << 10u16) | format_remainder((2u16 << 3u16) | 2u16, 10)) ^ 0x5412u16) == 0x1CE7u16 && (((((2u16 << 3u16) | 3u16) << 10u16) | format_remainder((2u16 << 3u16) | 3u16, 10)) ^ 0x5412u16) == 0x19D0u16 && (((((2u16 << 3u16) | 4u16) << 10u16) | format_remainder((2u16 << 3u16) | 4u16, 10)) ^ 0x5412u16) == 0x0762u16 && (((((2u16 << 3u16) | 5u16) << 10u16) | format_remainder((2u16 << 3u16) | 5u16, 10)) ^ 0x5412u16) == 0x0255u16 && (((((2u16 << 3u16) | 6u16) << 10u16) | format_remainder((2u16 << 3u16) | 6u16, 10)) ^ 0x5412u16) == 0x0D0Cu16 && (((((2u16 << 3u16) | 7u16) << 10u16) | format_remainder((2u16 << 3u16) | 7u16, 10)) ^ 0x5412u16) == 0x083Bu16) by (bit_vector);
}

/// Every format information word is the one the QR standard tabulates for
/// its ECC level and mask.
pub proof fn lemma_format_words_standard(level: EccLevel, mask: Mask)
    ensures
        format_word(level, mask) == standard_format_words()[level_index(level) * 8 + mask_index(
            mask,
        )],
{
    lemma_format_words_computed();
}

/// The mode indicators of the QR standard: a single set bit, bit 0 for
/// numeric, bit 1 for alphanumeric and bit 2 for bytes.
pub proof fn lemma_mode_indicators_standard(mode: EncodeMode)
    ensures
        mode_indicator(mode) == match mode {
            EncodeMode::Numeric => 1u16,
            EncodeMode::Alphanumeric => 2u16,
            EncodeMode::Bytes => 4u16,
        },
{
}

} // verus!
