//! Codeword counts and bit-length arithmetic shared by the capacity queries,
//! the encoder and the builder.

use vstd::prelude::*;

use crate::types::{
    blocks_of, count_bits, data_codewords_of, level_index, EccLevel, EncodeMode, QrError,
    DATA_BLOCKS, DATA_CAPACITY,
};
use crate::version::Version;

verus! {

/// Total codewords (data and ECC) of each version.
pub const CODEWORDS: [usize; 40] = [
    26, 44, 70, 100, 134, 172, 196, 242, 292, 346, 404, 466, 532, 581, 655, 733, 815, 901, 991,
    1085, 1156, 1258, 1364, 1474, 1588, 1706, 1828, 1921, 2051, 2185, 2323, 2465, 2611, 2761,
    2876, 3034, 3196, 3362, 3532, 3706,
];

/// The largest number of ECC codewords in one block, over all versions and levels.
pub const MAX_ECC_CODEWORDS: usize = 30;

/// Total codewords of `version`.
pub open spec fn total_codewords_of(version: int) -> usize {
    CODEWORDS[version - 1]
}

/// ECC codewords of `version` at `level`.
pub open spec fn ecc_codewords_of(version: int, level: EccLevel) -> int {
    total_codewords_of(version) - data_codewords_of(version, level)
}

/// ECC codewords per block of `version` at `level`.
pub open spec fn ecc_per_block_of(version: int, level: EccLevel) -> int {
    ecc_codewords_of(version, level) / (blocks_of(version, level) as int)
}

/// Whether `version` is a QR version number.
pub open spec fn valid_version(version: int) -> bool {
    1 <= version <= 40
}

/// The facts of the QR tables of one version at one level that the
/// algorithms rely on.
pub open spec fn level_table_facts(version: int, level: EccLevel) -> bool {
    let data = data_codewords_of(version, level);
    let blocks = blocks_of(version, level);
    let ecc = ecc_codewords_of(version, level);
    &&& 9 <= data <= total_codewords_of(version)
    &&& total_codewords_of(version) <= 3706
    &&& 1 <= blocks <= data
    &&& ecc % (blocks as int) == 0
    &&& 7 <= ecc / (blocks as int) <= 30
    &&& data <= data_codewords_of(version, EccLevel::L)
    &&& data <= 2956
    &&& blocks <= 81
}

/// The table facts of one version, for every level.
pub open spec fn table_facts(version: int) -> bool {
    &&& level_table_facts(version, EccLevel::L)
    &&& level_table_facts(version, EccLevel::M)
    &&& level_table_facts(version, EccLevel::Q)
    &&& level_table_facts(version, EccLevel::H)
}

/// The QR tables satisfy the facts the algorithms rely on.
pub proof fn lemma_table_facts(version: int)
    requires
        valid_version(version),
    ensures
        table_facts(version),
        forall|level: EccLevel| #[trigger] level_table_facts(version, level),
{
    if version == 1 {
        assert(table_facts(1));
    } else if version == 2 {
        assert(table_facts(2));
    } else if version == 3 {
        assert(table_facts(3));
    } else if version == 4 {
        assert(table_facts(4));
    } else if version == 5 {
        assert(table_facts(5));
    } else if version == 6 {
        assert(table_facts(6));
    } else if version == 7 {
        assert(table_facts(7));
    } else if version == 8 {
        assert(table_facts(8));
    } else if version == 9 {
        assert(table_facts(9));
    } else if version == 10 {
        assert(table_facts(10));
    } else if version == 11 {
        assert(table_facts(11));
    } else if version == 12 {
        assert(table_facts(12));
    } else if version == 13 {
        assert(table_facts(13));
    } else if version == 14 {
        assert(table_facts(14));
    } else if version == 15 {
        assert(table_facts(15));
    } else if version == 16 {
        assert(table_facts(16));
    } else if version == 17 {
        assert(table_facts(17));
    } else if version == 18 {
        assert(table_facts(18));
    } else if version == 19 {
        assert(table_facts(19));
    } else if version == 20 {
        assert(table_facts(20));
    } else if version == 21 {
        assert(table_facts(21));
    } else if version == 22 {
        assert(table_facts(22));
    } else if version == 23 {
        assert(table_facts(23));
    } else if version == 24 {
        assert(table_facts(24));
    } else if version == 25 {
        assert(table_facts(25));
    } else if version == 26 {
        assert(table_facts(26));
    } else if version == 27 {
        assert(table_facts(27));
    } else if version == 28 {
        assert(table_facts(28));
    } else if version == 29 {
        assert(table_facts(29));
    } else if version == 30 {
        assert(table_facts(30));
    } else if version == 31 {
        assert(table_facts(31));
    } else if version == 32 {
        assert(table_facts(32));
    } else if version == 33 {
        assert(table_facts(33));
    } else if version == 34 {
        assert(table_facts(34));
    } else if version == 35 {
        assert(table_facts(35));
    } else if version == 36 {
        assert(table_facts(36));
    } else if version == 37 {
        assert(table_facts(37));
    } else if version == 38 {
        assert(table_facts(38));
    } else if version == 39 {
        assert(table_facts(39));
    } else {
        assert(table_facts(40));
    }
    assert(table_facts(version));
    assert forall|level: EccLevel| #[trigger] level_table_facts(version, level) by {
        match level {
            EccLevel::L => {},
            EccLevel::M => {},
            EccLevel::Q => {},
            EccLevel::H => {},
        }
    }
}

/// Bits needed for the payload of `len` input units in `mode` (without the
/// mode indicator and the character count).
pub open spec fn payload_bit_count(mode: EncodeMode, len: int) -> int {
    match mode {
        EncodeMode::Numeric => 10 * (len / 3) + if len % 3 == 0 {
            0int
        } else if len % 3 == 1 {
            4int
        } else {
            7int
        },
        EncodeMode::Alphanumeric => 11 * (len / 2) + if len % 2 == 1 {
            6int
        } else {
            0int
        },
        EncodeMode::Bytes => 8 * len,
    }
}

/// Bits of the mode indicator and the character-count field.
pub open spec fn header_bit_count(mode: EncodeMode, version: int) -> int {
    4 + count_bits(mode, version)
}

/// Bits needed to encode `len` input units in `mode` in `version`, without
/// terminator and padding.
pub open spec fn encoded_bit_count(mode: EncodeMode, version: int, len: int) -> int {
    header_bit_count(mode, version) + payload_bit_count(mode, len)
}

/// Whether `len` input units in `mode` fit the data capacity of `version` at `level`.
pub open spec fn fits_spec(mode: EncodeMode, version: int, len: int, level: EccLevel) -> bool {
    encoded_bit_count(mode, version, len) <= 8 * data_codewords_of(version, level)
}

/// The strongest level (H, Q, M, L in this order) at which the payload fits.
pub open spec fn best_level_spec(mode: EncodeMode, version: int, len: int) -> Result<
    EccLevel,
    QrError,
> {
    if fits_spec(mode, version, len, EccLevel::H) {
        Ok(EccLevel::H)
    } else if fits_spec(mode, version, len, EccLevel::Q) {
        Ok(EccLevel::Q)
    } else if fits_spec(mode, version, len, EccLevel::M) {
        Ok(EccLevel::M)
    } else if fits_spec(mode, version, len, EccLevel::L) {
        Ok(EccLevel::L)
    } else {
        Err(QrError::Overflow)
    }
}

/// The automatically chosen level is the strongest one at which the
/// payload fits; when it reports an overflow, the payload fits no level.
pub proof fn lemma_best_level_is_strongest_fit(mode: EncodeMode, version: int, len: int)
    ensures
        match best_level_spec(mode, version, len) {
            Ok(level) => fits_spec(mode, version, len, level) && forall|other: EccLevel|
                level_index(other) > level_index(level) ==> !#[trigger] fits_spec(
                    mode,
                    version,
                    len,
                    other,
                ),
            Err(e) => e == QrError::Overflow && forall|other: EccLevel|
                !#[trigger] fits_spec(mode, version, len, other),
        },
{
}

/// An upper bound on the data capacity of the versions that share a width
/// of the character-count field: versions 1-9, 10-26 and 27-40.
spec fn capacity_limit(version: int) -> int {
    if version <= 9 {
        232
    } else if version <= 26 {
        1370
    } else {
        2956
    }
}

/// No version holds more data codewords than `capacity_limit`.
proof fn lemma_capacity_limit(version: int)
    requires
        valid_version(version),
    ensures
        data_codewords_of(version, EccLevel::L) <= capacity_limit(version),
{
    if version == 1 {
        assert(data_codewords_of(1, EccLevel::L) <= capacity_limit(1));
    } else if version == 2 {
        assert(data_codewords_of(2, EccLevel::L) <= capacity_limit(2));
    } else if version == 3 {
        assert(data_codewords_of(3, EccLevel::L) <= capacity_limit(3));
    } else if version == 4 {
        assert(data_codewords_of(4, EccLevel::L) <= capacity_limit(4));
    } else if version == 5 {
        assert(data_codewords_of(5, EccLevel::L) <= capacity_limit(5));
    } else if version == 6 {
        assert(data_codewords_of(6, EccLevel::L) <= capacity_limit(6));
    } else if version == 7 {
        assert(data_codewords_of(7, EccLevel::L) <= capacity_limit(7));
    } else if version == 8 {
        assert(data_codewords_of(8, EccLevel::L) <= capacity_limit(8));
    } else if version == 9 {
        assert(data_codewords_of(9, EccLevel::L) <= capacity_limit(9));
    } else if version == 10 {
        assert(data_codewords_of(10, EccLevel::L) <= capacity_limit(10));
    } else if version == 11 {
        assert(data_codewords_of(11, EccLevel::L) <= capacity_limit(11));
    } else if version == 12 {
        assert(data_codewords_of(12, EccLevel::L) <= capacity_limit(12));
    } else if version == 13 {
        assert(data_codewords_of(13, EccLevel::L) <= capacity_limit(13));
    } else if version == 14 {
        assert(data_codewords_of(14, EccLevel::L) <= capacity_limit(14));
    } else if version == 15 {
        assert(data_codewords_of(15, EccLevel::L) <= capacity_limit(15));
    } else if version == 16 {
        assert(data_codewords_of(16, EccLevel::L) <= capacity_limit(16));
    } else if version == 17 {
        assert(data_codewords_of(17, EccLevel::L) <= capacity_limit(17));
    } else if version == 18 {
        assert(data_codewords_of(18, EccLevel::L) <= capacity_limit(18));
    } else if version == 19 {
        assert(data_codewords_of(19, EccLevel::L) <= capacity_limit(19));
    } else if version == 20 {
        assert(data_codewords_of(20, EccLevel::L) <= capacity_limit(20));
    } else if version == 21 {
        assert(data_codewords_of(21, EccLevel::L) <= capacity_limit(21));
    } else if version == 22 {
        assert(data_codewords_of(22, EccLevel::L) <= capacity_limit(22));
    } else if version == 23 {
        assert(data_codewords_of(23, EccLevel::L) <= capacity_limit(23));
    } else if version == 24 {
        assert(data_codewords_of(24, EccLevel::L) <= capacity_limit(24));
    } else if version == 25 {
        assert(data_codewords_of(25, EccLevel::L) <= capacity_limit(25));
    } else if version == 26 {
        assert(data_codewords_of(26, EccLevel::L) <= capacity_limit(26));
    } else if version == 27 {
        assert(data_codewords_of(27, EccLevel::L) <= capacity_limit(27));
    } else if version == 28 {
        assert(data_codewords_of(28, EccLevel::L) <= capacity_limit(28));
    } else if version == 29 {
        assert(data_codewords_of(29, EccLevel::L) <= capacity_limit(29));
    } else if version == 30 {
        assert(data_codewords_of(30, EccLevel::L) <= capacity_limit(30));
    } else if version == 31 {
        assert(data_codewords_of(31, EccLevel::L) <= capacity_limit(31));
    } else if version == 32 {
        assert(data_codewords_of(32, EccLevel::L) <= capacity_limit(32));
    } else if version == 33 {
        assert(data_codewords_of(33, EccLevel::L) <= capacity_limit(33));
    } else if version == 34 {
        assert(data_codewords_of(34, EccLevel::L) <= capacity_limit(34));
    } else if version == 35 {
        assert(data_codewords_of(35, EccLevel::L) <= capacity_limit(35));
    } else if version == 36 {
        assert(data_codewords_of(36, EccLevel::L) <= capacity_limit(36));
    } else if version == 37 {
        assert(data_codewords_of(37, EccLevel::L) <= capacity_limit(37));
    } else if version == 38 {
        assert(data_codewords_of(38, EccLevel::L) <= capacity_limit(38));
    } else if version == 39 {
        assert(data_codewords_of(39, EccLevel::L) <= capacity_limit(39));
    } else if version == 40 {
        assert(data_codewords_of(40, EccLevel::L) <= capacity_limit(40));
    }
}

/// The character count of every payload that fits is representable in the
/// character-count field of its mode and version.
pub proof fn lemma_count_field_holds_length(mode: EncodeMode, version: int, len: int, level: EccLevel)
    requires
        valid_version(version),
        0 <= len,
        fits_spec(mode, version, len, level),
    ensures
        len < vstd::arithmetic::power2::pow2(count_bits(mode, version) as nat),
{
    lemma_table_facts(version);
    assert(level_table_facts(version, level));
    lemma_capacity_limit(version);
    vstd::arithmetic::power2::lemma2_to64();
    let c = 8 * capacity_limit(version);
    assert(payload_bit_count(mode, len) <= c);
}

/// Returns the total number of codewords of version `T`.
pub fn total_codewords<T: Version>() -> (r: usize)
    ensures
        r == total_codewords_of(T::spec_version() as int),
{
    total_codewords_for(T::version())
}

/// Returns the total number of codewords of QR version `version`.
pub fn total_codewords_for(version: usize) -> (r: usize)
    requires
        valid_version(version as int),
    ensures
        r == total_codewords_of(version as int),
{
    CODEWORDS[version - 1]
}

/// Returns the data codeword capacity of version `T` at `level`.
pub fn data_capacity<T: Version>(level: EccLevel) -> (r: usize)
    ensures
        r == data_codewords_of(T::spec_version() as int, level),
{
    data_capacity_for(T::version(), level)
}

/// Returns the data codeword capacity of QR version `version` at `level`.
pub fn data_capacity_for(version: usize, level: EccLevel) -> (r: usize)
    requires
        valid_version(version as int),
    ensures
        r == data_codewords_of(version as int, level),
{
    DATA_CAPACITY[version - 1][level.index()]
}

/// Returns the number of ECC codewords of version `T` at `level`.
pub fn ecc_codewords<T: Version>(level: EccLevel) -> (r: usize)
    ensures
        r == ecc_codewords_of(T::spec_version() as int, level),
{
    ecc_codewords_for(T::version(), level)
}

/// Returns the number of ECC codewords of QR version `version` at `level`.
pub fn ecc_codewords_for(version: usize, level: EccLevel) -> (r: usize)
    requires
        valid_version(version as int),
    ensures
        r == ecc_codewords_of(version as int, level),
{
    proof {
        lemma_table_facts(version as int);
    }
    total_codewords_for(version) - data_capacity_for(version, level)
}

/// Returns the number of Reed-Solomon blocks of version `T` at `level`.
pub fn block_count<T: Version>(level: EccLevel) -> (r: usize)
    ensures
        r == blocks_of(T::spec_version() as int, level),
{
    block_count_for(T::version(), level)
}

/// Returns the number of Reed-Solomon blocks of QR version `version` at `level`.
pub fn block_count_for(version: usize, level: EccLevel) -> (r: usize)
    requires
        valid_version(version as int),
    ensures
        r == blocks_of(version as int, level),
{
    DATA_BLOCKS[version - 1][level.index()]
}

/// The largest number of ECC codewords per block of `version`, over the four levels.
pub open spec fn max_ecc_per_block_of(version: int) -> int {
    let l = ecc_per_block_of(version, EccLevel::L);
    let m = ecc_per_block_of(version, EccLevel::M);
    let q = ecc_per_block_of(version, EccLevel::Q);
    let h = ecc_per_block_of(version, EccLevel::H);
    let lm = if m > l {
        m
    } else {
        l
    };
    let lmq = if q > lm {
        q
    } else {
        lm
    };
    if h > lmq {
        h
    } else {
        lmq
    }
}

/// Returns the largest number of ECC codewords per block of version `T`.
pub fn max_ecc_codewords_per_block<T: Version>() -> (r: usize)
    ensures
        r == max_ecc_per_block_of(T::spec_version() as int),
        forall|level: EccLevel| ecc_per_block_of(T::spec_version() as int, level) <= r,
{
    let version = T::version();
    proof {
        lemma_table_facts(version as int);
    }
    let l = ecc_codewords_for(version, EccLevel::L) / block_count_for(version, EccLevel::L);
    let m = ecc_codewords_for(version, EccLevel::M) / block_count_for(version, EccLevel::M);
    let q = ecc_codewords_for(version, EccLevel::Q) / block_count_for(version, EccLevel::Q);
    let h = ecc_codewords_for(version, EccLevel::H) / block_count_for(version, EccLevel::H);
    let mut max = l;
    if m > max {
        max = m;
    }
    if q > max {
        max = q;
    }
    if h > max {
        max = h;
    }
    proof {
        assert forall|level: EccLevel| ecc_per_block_of(version as int, level) <= max by {
            match level {
                EccLevel::L => {},
                EccLevel::M => {},
                EccLevel::Q => {},
                EccLevel::H => {},
            }
        }
    }
    max
}

/// Returns the strongest ECC level of version `T` at which `len` input
/// units in `mode` fit, trying H, Q, M and L in this order.
pub fn best_ecc_level<T: Version>(mode: EncodeMode, len: usize) -> (r: Result<EccLevel, QrError>)
    ensures
        r == best_level_spec(mode, T::spec_version() as int, len as int),
{
    best_ecc_level_for(T::version(), mode, len)
}

/// Returns the strongest ECC level of QR version `version` at which `len`
/// input units in `mode` fit, trying H, Q, M and L in this order.
pub fn best_ecc_level_for(version: usize, mode: EncodeMode, len: usize) -> (r: Result<
    EccLevel,
    QrError,
>)
    requires
        valid_version(version as int),
    ensures
        r == best_level_spec(mode, version as int, len as int),
{
    let order = [EccLevel::H, EccLevel::Q, EccLevel::M, EccLevel::L];
    let mut index: usize = 0;
    while index < 4
        invariant
            valid_version(version as int),
            index <= 4,
            order@ == seq![EccLevel::H, EccLevel::Q, EccLevel::M, EccLevel::L],
            forall|k: int| 0 <= k < index ==> !fits_spec(mode, version as int, len as int, #[trigger] order@[k]),
        decreases 4 - index,
    {
        let level = order[index];
        if fits_for(version, mode, len, level) {
            proof {
                assert(order@[0] == EccLevel::H);
                assert(order@[1] == EccLevel::Q);
                assert(order@[2] == EccLevel::M);
            }
            return Ok(level);
        }
        index = index + 1;
    }
    proof {
        assert(!fits_spec(mode, version as int, len as int, order@[0]));
        assert(!fits_spec(mode, version as int, len as int, order@[1]));
        assert(!fits_spec(mode, version as int, len as int, order@[2]));
        assert(!fits_spec(mode, version as int, len as int, order@[3]));
    }
    Err(QrError::Overflow)
}

/// Returns whether `len` input units in `mode` fit QR version `version` at `level`.
pub fn fits_for(version: usize, mode: EncodeMode, len: usize, level: EccLevel) -> (r: bool)
    requires
        valid_version(version as int),
    ensures
        r == fits_spec(mode, version as int, len as int, level),
{
    proof {
        lemma_table_facts(version as int);
    }
    match encoded_bits_for(version, mode, len) {
        Some(bits) => bits <= data_capacity_for(version, level) * 8,
        None => false,
    }
}

/// Returns the bits needed to encode `len` input units in `mode` in QR
/// version `version` (mode indicator, character count and payload), or
/// `None` when that number does not fit in `usize`.
pub fn encoded_bits_for(version: usize, mode: EncodeMode, len: usize) -> (r: Option<usize>)
    ensures
        r == if encoded_bit_count(mode, version as int, len as int) <= usize::MAX {
            Some(encoded_bit_count(mode, version as int, len as int) as usize)
        } else {
            None::<usize>
        },
{
    let header_bits = 4 + mode.counter_bits_for(version);
    match payload_bits(mode, len) {
        Some(payload_bits) => header_bits.checked_add(payload_bits),
        None => {
            proof {
                lemma_payload_nonnegative(mode, len as int);
            }
            None
        },
    }
}

/// The payload bit count is never negative.
proof fn lemma_payload_nonnegative(mode: EncodeMode, len: int)
    requires
        len >= 0,
    ensures
        payload_bit_count(mode, len) >= 0,
{
}

/// Returns the payload bits of `len` input units in `mode`, or `None` when
/// that number does not fit in `usize`.
pub fn payload_bits(mode: EncodeMode, len: usize) -> (r: Option<usize>)
    ensures
        r == if payload_bit_count(mode, len as int) <= usize::MAX {
            Some(payload_bit_count(mode, len as int) as usize)
        } else {
            None::<usize>
        },
{
    match mode {
        EncodeMode::Numeric => {
            let groups = len / 3;
            let remainder = len % 3;
            let remainder_bits: usize = match remainder {
                0 => 0,
                1 => 4,
                _ => 7,
            };
            match groups.checked_mul(10) {
                Some(bits) => bits.checked_add(remainder_bits),
                None => None,
            }
        },
        EncodeMode::Alphanumeric => {
            let pairs = len / 2;
            let remainder = len % 2;
            let remainder_bits: usize = if remainder == 1 {
                6
            } else {
                0
            };
            match pairs.checked_mul(11) {
                Some(bits) => bits.checked_add(remainder_bits),
                None => None,
            }
        },
        EncodeMode::Bytes => len.checked_mul(8),
    }
}

} // verus!
