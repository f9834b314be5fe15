//! Public capacity queries: how many codewords a version holds and how much
//! payload fits at a given mode and error-correction level.

use vstd::prelude::*;

use crate::helper::{
    self, data_capacity_for, encoded_bit_count, fits_spec, header_bit_count, lemma_table_facts,
    level_table_facts, payload_bit_count, valid_version, ecc_codewords_of, total_codewords_of,
};
use crate::types::{blocks_of, count_bits, data_codewords_of, EccLevel, EncodeMode};
use crate::version::Version;

verus! {

/// Capacity metadata for a fixed QR version and ECC level.
#[derive(Debug, Clone, Copy, PartialEq, Eq, Structural)]
pub struct VersionCapacity {
    /// Total codewords in the symbol, including data and ECC.
    pub total_codewords: usize,
    /// Data codewords available after ECC overhead.
    pub data_codewords: usize,
    /// ECC codewords appended to the payload.
    pub ecc_codewords: usize,
    /// Number of Reed-Solomon blocks for this version/ECC combination.
    pub block_count: usize,
}

/// Returns capacity metadata for a fixed QR version and ECC level.
pub fn info<T: Version>(level: EccLevel) -> (r: VersionCapacity)
    ensures
        r.total_codewords == total_codewords_of(T::spec_version() as int),
        r.data_codewords == data_codewords_of(T::spec_version() as int, level),
        r.ecc_codewords == ecc_codewords_of(T::spec_version() as int, level),
        r.block_count == blocks_of(T::spec_version() as int, level),
{
    VersionCapacity {
        total_codewords: helper::total_codewords::<T>(),
        data_codewords: helper::data_capacity::<T>(level),
        ecc_codewords: helper::ecc_codewords::<T>(level),
        block_count: helper::block_count::<T>(level),
    }
}

/// Returns the number of bits needed to encode a payload length in a given mode.
///
/// The result includes the 4-bit mode indicator and the version-dependent
/// character-count field, but does not include terminator or pad bytes.
pub fn encoded_bits<T: Version>(mode: EncodeMode, len: usize) -> (r: Option<usize>)
    ensures
        r == if encoded_bit_count(mode, T::spec_version() as int, len as int) <= usize::MAX {
            Some(encoded_bit_count(mode, T::spec_version() as int, len as int) as usize)
        } else {
            None::<usize>
        },
{
    helper::encoded_bits_for(T::version(), mode, len)
}

/// Returns whether `len` input units fit in the selected version/mode/ECC tuple.
///
/// For `Numeric` and `Alphanumeric`, `len` is the number of characters.
/// For `Bytes`, `len` is the number of bytes.
pub fn fits<T: Version>(mode: EncodeMode, len: usize, level: EccLevel) -> (r: bool)
    ensures
        r == fits_spec(mode, T::spec_version() as int, len as int, level),
{
    helper::fits_for(T::version(), mode, len, level)
}

/// The largest payload length whose encoding fits the data capacity of
/// `version` at `level`, computed from the number of free payload bits.
pub open spec fn max_payload_spec(mode: EncodeMode, version: int, level: EccLevel) -> int {
    let header = header_bit_count(mode, version);
    let available = 8 * data_codewords_of(version, level);
    if available < header {
        0
    } else {
        let bits = available - header;
        match mode {
            EncodeMode::Numeric => 3 * (bits / 10) + if bits % 10 >= 7 {
                2int
            } else if bits % 10 >= 4 {
                1int
            } else {
                0int
            },
            EncodeMode::Alphanumeric => 2 * (bits / 11) + if bits % 11 >= 6 {
                1int
            } else {
                0int
            },
            EncodeMode::Bytes => bits / 8,
        }
    }
}

/// Returns the largest payload length that fits the selected version/mode/ECC tuple.
///
/// For `Numeric` and `Alphanumeric`, the returned value is in characters.
/// For `Bytes`, it is in bytes.
pub fn max_payload_len<T: Version>(mode: EncodeMode, level: EccLevel) -> (r: usize)
    ensures
        r == max_payload_spec(mode, T::spec_version() as int, level),
{
    let version = T::version();
    proof {
        lemma_table_facts(version as int);
        assert(level_table_facts(version as int, level));
    }
    let header_bits = 4 + mode.counter_bits_for(version);
    let available_bits = data_capacity_for(version, level) * 8;
    if available_bits < header_bits {
        return 0;
    }
    let payload_bits = available_bits - header_bits;
    match mode {
        EncodeMode::Numeric => {
            let groups = payload_bits / 10;
            let remainder = payload_bits % 10;
            groups * 3 + if remainder >= 7 {
                2
            } else if remainder >= 4 {
                1
            } else {
                0
            }
        },
        EncodeMode::Alphanumeric => {
            let pairs = payload_bits / 11;
            let remainder = payload_bits % 11;
            (pairs * 2) + if remainder >= 6 {
                1
            } else {
                0
            }
        },
        EncodeMode::Bytes => payload_bits / 8,
    }
}

/// One more input unit always needs more payload bits.
proof fn lemma_payload_step(mode: EncodeMode, len: int)
    requires
        len >= 0,
    ensures
        payload_bit_count(mode, len) < payload_bit_count(mode, len + 1),
{
}

/// The payload bit count grows with the payload length.
pub proof fn lemma_payload_monotonic(mode: EncodeMode, shorter: int, longer: int)
    requires
        0 <= shorter <= longer,
    ensures
        payload_bit_count(mode, shorter) <= payload_bit_count(mode, longer),
        shorter < longer ==> payload_bit_count(mode, shorter) < payload_bit_count(mode, longer),
    decreases longer - shorter,
{
    if shorter < longer {
        lemma_payload_monotonic(mode, shorter, longer - 1);
        lemma_payload_step(mode, longer - 1);
    }
}

/// `max_payload_len` is exactly the capacity boundary: a payload of that
/// length fits, and no longer payload does.
pub proof fn lemma_max_payload_len_is_capacity_boundary(
    mode: EncodeMode,
    version: int,
    level: EccLevel,
)
    requires
        valid_version(version),
    ensures
        max_payload_spec(mode, version, level) >= 0,
        fits_spec(mode, version, max_payload_spec(mode, version, level), level),
        forall|len: int|
            len > max_payload_spec(mode, version, level) ==> !#[trigger] fits_spec(
                mode,
                version,
                len,
                level,
            ),
{
    lemma_table_facts(version);
    assert(level_table_facts(version, level));
    let max = max_payload_spec(mode, version, level);
    let bits = 8 * data_codewords_of(version, level) - header_bit_count(mode, version);
    assert(bits >= 0);
    assert(payload_bit_count(mode, max) <= bits);
    assert(payload_bit_count(mode, max + 1) > bits);
    assert forall|len: int| len > max implies !#[trigger] fits_spec(mode, version, len, level) by {
        lemma_payload_monotonic(mode, max + 1, len);
    }
}

} // verus!
