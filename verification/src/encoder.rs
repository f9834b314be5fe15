//! Data encoding: mode selection, the numeric, alphanumeric and byte
//! encodings, and the terminator and pad codewords that fill the data
//! capacity of a version.

use core::marker::PhantomData;

use vstd::prelude::*;

use crate::bits::{lemma_msb_or, lemma_byte_or_bit, lemma_index_split, lemma_pack_msb_bits, msb_bits, pack_msb};
use crate::helper::{
    data_capacity_for, fits_spec, lemma_table_facts, level_table_facts, payload_bit_count,
    total_codewords_of,
};
use crate::types::{count_bits, data_codewords_of, mode_indicator, EccLevel, EncodeMode, QrError};
use crate::version::Version;

verus! {

const ASCII_ZERO: u8 = 48;
const ASCII_NINE: u8 = 57;
const ASCII_UPPER_A: u8 = 65;
const ASCII_UPPER_Z: u8 = 90;
const ASCII_SPACE: u8 = 32;
const ASCII_DOLLAR: u8 = 36;
const ASCII_PERCENT: u8 = 37;
const ASCII_ASTERISK: u8 = 42;
const ASCII_PLUS: u8 = 43;
const ASCII_MINUS: u8 = 45;
const ASCII_PERIOD: u8 = 46;
const ASCII_SLASH: u8 = 47;
const ASCII_COLON: u8 = 58;

/// One unit handed to the bit writer: a value of `count` bits, or a piece
/// of input that the mode cannot represent.
pub enum Chunk {
    Bits { value: u16, count: usize },
    Invalid,
}

/// Bit `s` (0 = least significant) of `v`.
pub open spec fn u16_bit(v: u16, s: int) -> bool {
    (v >> (s as u16)) & 1u16 == 1u16
}

/// The low `count` bits of `value`, most significant first.
pub open spec fn value_bits(value: u16, count: int) -> Seq<bool> {
    Seq::new(count as nat, |i: int| u16_bit(value, count - 1 - i))
}

/// Appends one chunk to a bit string of a writer holding `capacity` bits.
pub open spec fn push_chunk(bits: Seq<bool>, chunk: Chunk, capacity: int) -> Result<
    Seq<bool>,
    QrError,
> {
    match chunk {
        Chunk::Invalid => Err(QrError::DataInvalid),
        Chunk::Bits { value, count } => if count > 16 || bits.len() + count > capacity {
            Err(QrError::Overflow)
        } else {
            Ok(bits + value_bits(value, count as int))
        },
    }
}

/// Writes `chunks` in order after `start`, stopping at the first chunk that
/// is invalid or does not fit in `capacity` bits.
pub open spec fn write_chunks(start: Seq<bool>, chunks: Seq<Chunk>, capacity: int) -> Result<
    Seq<bool>,
    QrError,
>
    decreases chunks.len(),
{
    if chunks.len() == 0 {
        Ok(start)
    } else {
        match write_chunks(start, chunks.drop_last(), capacity) {
            Ok(bits) => push_chunk(bits, chunks.last(), capacity),
            Err(e) => Err(e),
        }
    }
}

/// Whether `b` is an ASCII digit.
pub open spec fn is_digit(b: u8) -> bool {
    48 <= b <= 57
}

/// The value of a character in the alphanumeric mode, if it has one.
pub open spec fn alnum_value(b: u8) -> Option<u16> {
    if 48 <= b <= 57 {
        Some((b - 48) as u16)
    } else if 65 <= b <= 90 {
        Some((b - 65 + 10) as u16)
    } else if b == 32 {
        Some(36u16)
    } else if b == 36 {
        Some(37u16)
    } else if b == 37 {
        Some(38u16)
    } else if b == 42 {
        Some(39u16)
    } else if b == 43 {
        Some(40u16)
    } else if b == 45 {
        Some(41u16)
    } else if b == 46 {
        Some(42u16)
    } else if b == 47 {
        Some(43u16)
    } else if b == 58 {
        Some(44u16)
    } else {
        None
    }
}

/// The most compact mode that can represent `data`.
pub open spec fn choose_mode(data: Seq<u8>) -> EncodeMode {
    if forall|i: int| 0 <= i < data.len() ==> is_digit(#[trigger] data[i]) {
        EncodeMode::Numeric
    } else if forall|i: int| 0 <= i < data.len() ==> (#[trigger] alnum_value(data[i])) is Some {
        EncodeMode::Alphanumeric
    } else {
        EncodeMode::Bytes
    }
}

/// The decimal value of a string of digits.
pub open spec fn digits_value(s: Seq<u8>) -> int
    decreases s.len(),
{
    if s.len() == 0 {
        0
    } else {
        10 * digits_value(s.drop_last()) + (s.last() - 48)
    }
}

/// Whether every byte of `s` is a digit.
pub open spec fn all_digits(s: Seq<u8>) -> bool {
    forall|i: int| 0 <= i < s.len() ==> is_digit(#[trigger] s[i])
}

/// The `k`-th group of up to three digits of a numeric payload.
pub open spec fn numeric_group(data: Seq<u8>, k: int) -> Seq<u8> {
    let end = if 3 * k + 3 <= data.len() {
        3 * k + 3
    } else {
        data.len() as int
    };
    data.subrange(3 * k, end)
}

/// The chunk of the `k`-th digit group: 10, 7 or 4 bits for 3, 2 or 1 digits.
pub open spec fn numeric_chunk(data: Seq<u8>, k: int) -> Chunk {
    let group = numeric_group(data, k);
    if all_digits(group) {
        Chunk::Bits {
            value: digits_value(group) as u16,
            count: if group.len() == 3 {
                10
            } else if group.len() == 2 {
                7
            } else {
                4
            },
        }
    } else {
        Chunk::Invalid
    }
}

/// The chunks of a numeric payload.
pub open spec fn numeric_chunks(data: Seq<u8>) -> Seq<Chunk> {
    Seq::new(((data.len() + 2) / 3) as nat, |k: int| numeric_chunk(data, k))
}

/// The chunk of the `k`-th character pair of an alphanumeric payload.
pub open spec fn alnum_pair_chunk(data: Seq<u8>, k: int) -> Chunk {
    match (alnum_value(data[2 * k]), alnum_value(data[2 * k + 1])) {
        (Some(left), Some(right)) => Chunk::Bits { value: (left * 45 + right) as u16, count: 11 },
        _ => Chunk::Invalid,
    }
}

/// The chunks of an alphanumeric payload: 11 bits per pair, 6 for a last
/// single character.
pub open spec fn alnum_chunks(data: Seq<u8>) -> Seq<Chunk> {
    let pairs = Seq::new((data.len() / 2) as nat, |k: int| alnum_pair_chunk(data, k));
    if data.len() % 2 == 1 {
        pairs.push(
            match alnum_value(data.last()) {
                Some(value) => Chunk::Bits { value, count: 6 },
                None => Chunk::Invalid,
            },
        )
    } else {
        pairs
    }
}

/// The chunks of a byte payload: 8 bits per byte.
pub open spec fn byte_chunks(data: Seq<u8>) -> Seq<Chunk> {
    Seq::new(data.len(), |i: int| Chunk::Bits { value: data[i] as u16, count: 8 })
}

/// The payload chunks of `data` in `mode`.
pub open spec fn mode_chunks(mode: EncodeMode, data: Seq<u8>) -> Seq<Chunk> {
    match mode {
        EncodeMode::Numeric => numeric_chunks(data),
        EncodeMode::Alphanumeric => alnum_chunks(data),
        EncodeMode::Bytes => byte_chunks(data),
    }
}

/// The mode indicator and the character count of a payload of `len` units.
pub open spec fn header_chunks(mode: EncodeMode, version: int, len: int) -> Seq<Chunk> {
    seq![
        Chunk::Bits { value: mode_indicator(mode), count: 4 },
        Chunk::Bits { value: len as u16, count: count_bits(mode, version) },
    ]
}

/// The segment bits (header and payload) of `data` in a writer of `capacity` bits.
pub open spec fn segment_bits(version: int, mode: EncodeMode, data: Seq<u8>, capacity: int) -> Result<
    Seq<bool>,
    QrError,
> {
    match write_chunks(seq![], header_chunks(mode, version, data.len() as int), capacity) {
        Ok(header) => write_chunks(header, mode_chunks(mode, data), capacity),
        Err(e) => Err(e),
    }
}

/// The pad codeword at position `k` after the terminator: 0xEC, 0x11, 0xEC, ...
pub open spec fn pad_value(k: int) -> u16 {
    if k % 2 == 0 {
        0xECu16
    } else {
        0x11u16
    }
}

/// The bits of the first `n` pad codewords.
pub open spec fn pad_bits(n: nat) -> Seq<bool>
    decreases n,
{
    if n == 0 {
        seq![]
    } else {
        pad_bits((n - 1) as nat) + value_bits(pad_value(n - 1), 8)
    }
}

/// The segment bits followed by the terminator (up to four zero bits), zero
/// bits up to a codeword boundary, and pad codewords up to `capacity` bits.
pub open spec fn finish_bits(bits: Seq<bool>, capacity: int) -> Seq<bool> {
    let free = capacity - bits.len();
    let terminator = if free < 4 {
        free
    } else {
        4
    };
    let terminated = bits + value_bits(0, terminator);
    let partial = terminated.len() % 8;
    let aligned = if partial == 0 {
        terminated
    } else {
        terminated + value_bits(0, 8 - partial)
    };
    aligned + pad_bits(((capacity - aligned.len()) / 8) as nat)
}

/// The data codeword bits of `data` encoded in `mode` for `version` at `level`.
pub open spec fn data_bits(version: int, mode: EncodeMode, level: EccLevel, data: Seq<u8>) -> Result<
    Seq<bool>,
    QrError,
> {
    let capacity = 8 * data_codewords_of(version, level);
    match segment_bits(version, mode, data, capacity) {
        Ok(bits) => Ok(finish_bits(bits, capacity)),
        Err(e) => Err(e),
    }
}

/// The data codewords of `data` encoded in `mode` for `version` at `level`.
pub open spec fn data_codewords(version: int, mode: EncodeMode, level: EccLevel, data: Seq<u8>) -> Result<
    Seq<u8>,
    QrError,
> {
    match data_bits(version, mode, level, data) {
        Ok(bits) => Ok(pack_msb(bits)),
        Err(e) => Err(e),
    }
}

/// Writing a prefix one chunk longer is one more push.
proof fn lemma_write_step(start: Seq<bool>, chunks: Seq<Chunk>, k: int, capacity: int)
    requires
        0 <= k < chunks.len(),
    ensures
        write_chunks(start, chunks.take(k + 1), capacity) == match write_chunks(
            start,
            chunks.take(k),
            capacity,
        ) {
            Ok(bits) => push_chunk(bits, chunks[k], capacity),
            Err(e) => Err(e),
        },
{
    assert(chunks.take(k + 1).drop_last() =~= chunks.take(k));
}

/// An error on a prefix of the chunks is the error of all of them.
proof fn lemma_write_error_prefix(start: Seq<bool>, chunks: Seq<Chunk>, k: int, capacity: int)
    requires
        0 <= k <= chunks.len(),
        write_chunks(start, chunks.take(k), capacity) is Err,
    ensures
        write_chunks(start, chunks, capacity) == write_chunks(start, chunks.take(k), capacity),
    decreases chunks.len() - k,
{
    if k < chunks.len() {
        lemma_write_step(start, chunks, k, capacity);
        lemma_write_error_prefix(start, chunks, k + 1, capacity);
    } else {
        assert(chunks.take(k) =~= chunks);
    }
}

/// Total number of bits of the valid chunks of a sequence.
pub open spec fn chunk_bits(chunks: Seq<Chunk>) -> int
    decreases chunks.len(),
{
    if chunks.len() == 0 {
        0
    } else {
        chunk_bits(chunks.drop_last()) + match chunks.last() {
            Chunk::Bits { value, count } => count as int,
            Chunk::Invalid => 0int,
        }
    }
}

/// Whether every chunk is a bit field of at most 16 bits.
pub open spec fn valid_chunks(chunks: Seq<Chunk>) -> bool {
    forall|i: int| 0 <= i < chunks.len() ==> #[trigger] chunk_fits_u16(chunks[i])
}

/// Whether a chunk is a bit field of at most 16 bits.
pub open spec fn chunk_fits_u16(chunk: Chunk) -> bool {
    chunk matches Chunk::Bits { count, .. } && count <= 16
}

/// Whether every character of `data` can be represented in `mode`.
pub open spec fn representable(mode: EncodeMode, data: Seq<u8>) -> bool {
    match mode {
        EncodeMode::Numeric => all_digits(data),
        EncodeMode::Alphanumeric => forall|i: int|
            0 <= i < data.len() ==> (#[trigger] alnum_value(data[i])) is Some,
        EncodeMode::Bytes => true,
    }
}

/// Writing valid chunks succeeds exactly when their bits fit after
/// `start`, and fails with an overflow otherwise.
proof fn lemma_write_valid(start: Seq<bool>, chunks: Seq<Chunk>, capacity: int)
    requires
        valid_chunks(chunks),
        start.len() <= capacity,
    ensures
        chunk_bits(chunks) >= 0,
        (write_chunks(start, chunks, capacity) is Ok) == (start.len() + chunk_bits(chunks)
            <= capacity),
        match write_chunks(start, chunks, capacity) {
            Ok(bits) => bits.len() == start.len() + chunk_bits(chunks),
            Err(e) => e == QrError::Overflow,
        },
    decreases chunks.len(),
{
    if chunks.len() > 0 {
        let prefix = chunks.drop_last();
        assert forall|i: int| 0 <= i < prefix.len() implies #[trigger] chunk_fits_u16(prefix[i]) by {
            assert(prefix[i] == chunks[i]);
        }
        lemma_write_valid(start, prefix, capacity);
        assert(chunk_fits_u16(chunks[chunks.len() - 1]));
    }
}

/// A sequence of chunks of `count` bits each holds `count` bits per chunk.
proof fn lemma_uniform_chunk_bits(chunks: Seq<Chunk>, count: usize)
    requires
        forall|i: int|
            0 <= i < chunks.len() ==> (#[trigger] chunks[i] matches Chunk::Bits { count: c, .. }
                && c == count),
    ensures
        chunk_bits(chunks) == count * chunks.len(),
    decreases chunks.len(),
{
    if chunks.len() > 0 {
        let prefix = chunks.drop_last();
        assert forall|i: int| 0 <= i < prefix.len() implies (#[trigger] prefix[i] matches Chunk::Bits {
            count: c,
            ..
        } && c == count) by {
            assert(prefix[i] == chunks[i]);
        }
        lemma_uniform_chunk_bits(prefix, count);
        assert(chunks[chunks.len() - 1] matches Chunk::Bits { count: c, .. } && c == count);
        assert(count * prefix.len() + count == count * chunks.len()) by (nonlinear_arith)
            requires
                prefix.len() + 1 == chunks.len(),
        ;
    }
}

/// The payload chunks of representable data are valid and hold exactly
/// the payload bits that the capacity formulas count.
proof fn lemma_mode_chunks(mode: EncodeMode, data: Seq<u8>)
    requires
        representable(mode, data),
    ensures
        valid_chunks(mode_chunks(mode, data)),
        chunk_bits(mode_chunks(mode, data)) == payload_bit_count(mode, data.len() as int),
{
    let len = data.len() as int;
    match mode {
        EncodeMode::Numeric => {
            let chunks = numeric_chunks(data);
            let n = (len + 2) / 3;
            assert forall|k: int| 0 <= k < n implies all_digits(#[trigger] numeric_group(data, k)) by {
                let group = numeric_group(data, k);
                assert forall|i: int| 0 <= i < group.len() implies is_digit(#[trigger] group[i]) by {
                    assert(group[i] == data[3 * k + i]);
                }
            }
            assert forall|i: int| 0 <= i < chunks.len() implies #[trigger] chunk_fits_u16(chunks[i]) by {
                assert(all_digits(numeric_group(data, i)));
            }
            if n > 0 {
                let prefix = chunks.drop_last();
                assert forall|i: int| 0 <= i < prefix.len() implies (#[trigger] prefix[i] matches Chunk::Bits {
                    count: c,
                    ..
                } && c == 10) by {
                    assert(prefix[i] == chunks[i]);
                    assert(all_digits(numeric_group(data, i)));
                    assert(numeric_group(data, i).len() == 3);
                }
                lemma_uniform_chunk_bits(prefix, 10);
                assert(all_digits(numeric_group(data, n - 1)));
                let last_len = numeric_group(data, n - 1).len();
                assert(last_len == len - 3 * (n - 1));
                assert(len / 3 == if len % 3 == 0 {
                    n
                } else {
                    n - 1
                });
            } else {
                assert(len == 0);
            }
        },
        EncodeMode::Alphanumeric => {
            let pairs = Seq::new((data.len() / 2) as nat, |k: int| alnum_pair_chunk(data, k));
            assert forall|k: int| 0 <= k < pairs.len() implies (#[trigger] pairs[k] matches Chunk::Bits {
                count: c,
                ..
            } && c == 11) by {
                assert(alnum_value(data[2 * k]) is Some);
                assert(alnum_value(data[2 * k + 1]) is Some);
            }
            lemma_uniform_chunk_bits(pairs, 11);
            if len % 2 == 1 {
                let chunks = alnum_chunks(data);
                assert(chunks.drop_last() =~= pairs);
                assert(alnum_value(data[len - 1]) is Some);
                assert forall|i: int| 0 <= i < chunks.len() implies #[trigger] chunk_fits_u16(chunks[i]) by {
                    if i < pairs.len() {
                        assert(chunks[i] == pairs[i]);
                    }
                }
            } else {
                assert forall|i: int| 0 <= i < pairs.len() implies #[trigger] chunk_fits_u16(pairs[i]) by {
                    assert(pairs[i] matches Chunk::Bits { count: c, .. } && c == 11);
                }
            }
        },
        EncodeMode::Bytes => {
            let chunks = byte_chunks(data);
            lemma_uniform_chunk_bits(chunks, 8);
            assert forall|i: int| 0 <= i < chunks.len() implies #[trigger] chunk_fits_u16(chunks[i]) by {}
        },
    }
}

/// The bits a chunk takes: its width, or none for an invalid chunk.
pub open spec fn chunk_count(chunk: Chunk) -> int {
    match chunk {
        Chunk::Bits { value, count } => count as int,
        Chunk::Invalid => 0,
    }
}

/// Whether a chunk is invalid or a bit field of at most 16 bits.
pub open spec fn chunk_bounded(chunk: Chunk) -> bool {
    chunk is Invalid || chunk_fits_u16(chunk)
}

/// Writing chunks that include an invalid one fails.
proof fn lemma_write_invalid(start: Seq<bool>, chunks: Seq<Chunk>, capacity: int, k: int)
    requires
        0 <= k < chunks.len(),
        chunks[k] is Invalid,
    ensures
        write_chunks(start, chunks, capacity) is Err,
    decreases chunks.len(),
{
    if k < chunks.len() - 1 {
        let prefix = chunks.drop_last();
        assert(prefix[k] == chunks[k]);
        lemma_write_invalid(start, prefix, capacity, k);
    }
}

/// Writing chunks whose bits fit after `start` can only fail on an invalid
/// chunk.
proof fn lemma_write_bounded(start: Seq<bool>, chunks: Seq<Chunk>, capacity: int)
    requires
        forall|i: int| 0 <= i < chunks.len() ==> #[trigger] chunk_bounded(chunks[i]),
        start.len() + chunk_bits(chunks) <= capacity,
    ensures
        write_chunks(start, chunks, capacity) is Err ==> write_chunks(start, chunks, capacity)
            == Err::<Seq<bool>, QrError>(QrError::DataInvalid),
    decreases chunks.len(),
{
    if chunks.len() > 0 {
        let prefix = chunks.drop_last();
        assert forall|i: int| 0 <= i < prefix.len() implies #[trigger] chunk_bounded(prefix[i]) by {
            assert(prefix[i] == chunks[i]);
        }
        let last = chunks[chunks.len() - 1];
        assert(chunk_bounded(last));
        lemma_chunk_bits_nonnegative(prefix);
        lemma_write_bounded(start, prefix, capacity);
        match write_chunks(start, prefix, capacity) {
            Ok(bits) => {
                assert forall|i: int| 0 <= i < prefix.len() implies #[trigger] chunk_fits_u16(
                    prefix[i],
                ) by {
                    assert(chunk_bounded(prefix[i]));
                    assert(write_chunks(start, prefix, capacity) is Ok);
                    if prefix[i] is Invalid {
                        lemma_write_invalid(start, prefix, capacity, i);
                    }
                }
                lemma_write_valid(start, prefix, capacity);
            },
            Err(e) => {},
        }
    }
}

/// The bits of a chunk sequence are never negative.
proof fn lemma_chunk_bits_nonnegative(chunks: Seq<Chunk>)
    ensures
        chunk_bits(chunks) >= 0,
    decreases chunks.len(),
{
    if chunks.len() > 0 {
        lemma_chunk_bits_nonnegative(chunks.drop_last());
    }
}

/// Chunks of at most `count` bits each hold at most `count` bits per chunk.
proof fn lemma_bounded_chunk_bits(chunks: Seq<Chunk>, count: int)
    requires
        0 <= count,
        forall|i: int| 0 <= i < chunks.len() ==> #[trigger] chunk_count(chunks[i]) <= count,
    ensures
        chunk_bits(chunks) <= count * chunks.len(),
    decreases chunks.len(),
{
    if chunks.len() > 0 {
        let prefix = chunks.drop_last();
        assert forall|i: int| 0 <= i < prefix.len() implies #[trigger] chunk_count(prefix[i])
            <= count by {
            assert(prefix[i] == chunks[i]);
        }
        lemma_bounded_chunk_bits(prefix, count);
        assert(chunk_count(chunks[chunks.len() - 1]) <= count);
        assert(count * prefix.len() + count == count * chunks.len()) by (nonlinear_arith)
            requires
                prefix.len() + 1 == chunks.len(),
        ;
    }
}

/// The payload chunks of any data are invalid or at most 16 bits wide,
/// hold at most the payload bits that the capacity formulas count, and
/// include an invalid chunk when `mode` cannot represent the data.
proof fn lemma_mode_chunks_bounded(mode: EncodeMode, data: Seq<u8>)
    ensures
        forall|i: int|
            0 <= i < mode_chunks(mode, data).len() ==> #[trigger] chunk_bounded(
                mode_chunks(mode, data)[i],
            ),
        chunk_bits(mode_chunks(mode, data)) <= payload_bit_count(mode, data.len() as int),
        !representable(mode, data) ==> exists|k: int|
            0 <= k < mode_chunks(mode, data).len() && (#[trigger] mode_chunks(mode, data)[k]) is Invalid,
{
    let len = data.len() as int;
    match mode {
        EncodeMode::Numeric => {
            let chunks = numeric_chunks(data);
            let n = (len + 2) / 3;
            assert forall|i: int| 0 <= i < chunks.len() implies #[trigger] chunk_bounded(chunks[i]) by {}
            if n > 0 {
                let prefix = chunks.drop_last();
                assert forall|i: int| 0 <= i < prefix.len() implies #[trigger] chunk_count(prefix[i])
                    <= 10 by {
                    assert(prefix[i] == chunks[i]);
                    assert(numeric_group(data, i).len() == 3);
                }
                lemma_bounded_chunk_bits(prefix, 10);
                let last_len = numeric_group(data, n - 1).len();
                assert(last_len == len - 3 * (n - 1));
                assert(len / 3 == if len % 3 == 0 {
                    n
                } else {
                    n - 1
                });
            } else {
                assert(len == 0);
            }
            if !representable(mode, data) {
                let i = choose|i: int| 0 <= i < data.len() && !is_digit(#[trigger] data[i]);
                let k = i / 3;
                assert(0 <= k < n);
                assert(3 * k <= i < 3 * k + 3);
                let group = numeric_group(data, k);
                assert(0 <= i - 3 * k < group.len());
                assert(group[i - 3 * k] == data[i]);
                assert(!is_digit(group[i - 3 * k]));
                assert(!all_digits(group));
                assert(chunks[k] == numeric_chunk(data, k));
                assert(chunks[k] is Invalid);
                assert(mode_chunks(mode, data) == chunks);
                assert(mode_chunks(mode, data)[k] is Invalid);
            }
        },
        EncodeMode::Alphanumeric => {
            let pairs = Seq::new((data.len() / 2) as nat, |k: int| alnum_pair_chunk(data, k));
            assert forall|k: int| 0 <= k < pairs.len() implies #[trigger] chunk_count(pairs[k])
                <= 11 by {}
            lemma_bounded_chunk_bits(pairs, 11);
            let chunks = alnum_chunks(data);
            if len % 2 == 1 {
                assert(chunks.drop_last() =~= pairs);
            }
            assert forall|i: int| 0 <= i < chunks.len() implies #[trigger] chunk_bounded(chunks[i]) by {
                if i < pairs.len() {
                    assert(chunks[i] == pairs[i]);
                }
            }
            if !representable(mode, data) {
                let i = choose|i: int| 0 <= i < data.len() && (#[trigger] alnum_value(data[i])) is None;
                assert(mode_chunks(mode, data) == chunks);
                if i < 2 * (len / 2) {
                    let k = i / 2;
                    assert(0 <= k < pairs.len());
                    assert(chunks[k] == pairs[k]);
                    assert(chunks[k] is Invalid);
                    assert(mode_chunks(mode, data)[k] is Invalid);
                } else {
                    assert(i == len - 1);
                    assert(chunks[len / 2] is Invalid);
                    assert(mode_chunks(mode, data)[len / 2] is Invalid);
                }
            }
        },
        EncodeMode::Bytes => {
            let chunks = byte_chunks(data);
            lemma_uniform_chunk_bits(chunks, 8);
            assert forall|i: int| 0 <= i < chunks.len() implies #[trigger] chunk_bounded(chunks[i]) by {}
        },
    }
}

/// Encoding data that `mode` cannot represent never succeeds; when the
/// payload fits the data capacity, it fails with [`QrError::DataInvalid`].
pub proof fn lemma_encoding_rejects_unrepresentable(
    version: int,
    mode: EncodeMode,
    level: EccLevel,
    data: Seq<u8>,
)
    requires
        1 <= version <= 40,
        !representable(mode, data),
    ensures
        data_codewords(version, mode, level, data) is Err,
        fits_spec(mode, version, data.len() as int, level) ==> data_codewords(
            version,
            mode,
            level,
            data,
        ) == Err::<Seq<u8>, QrError>(QrError::DataInvalid),
{
    lemma_table_facts(version);
    assert(level_table_facts(version, level));
    let capacity = 8 * data_codewords_of(version, level);
    let header = header_chunks(mode, version, data.len() as int);
    assert forall|i: int| 0 <= i < header.len() implies #[trigger] chunk_fits_u16(header[i]) by {}
    assert(header.drop_last() =~= seq![Chunk::Bits { value: mode_indicator(mode), count: 4 }]);
    assert(header.drop_last().drop_last() =~= Seq::<Chunk>::empty());
    assert(chunk_bits(header.drop_last().drop_last()) == 0);
    assert(chunk_bits(header.drop_last()) == 4);
    assert(chunk_bits(header) == 4 + count_bits(mode, version));
    lemma_write_valid(seq![], header, capacity);
    lemma_mode_chunks_bounded(mode, data);
    let chunks = mode_chunks(mode, data);
    let k = choose|k: int| 0 <= k < chunks.len() && (#[trigger] chunks[k]) is Invalid;
    match write_chunks(seq![], header, capacity) {
        Ok(bits) => {
            lemma_write_invalid(bits, chunks, capacity, k);
            if fits_spec(mode, version, data.len() as int, level) {
                lemma_write_bounded(bits, chunks, capacity);
            }
        },
        Err(e) => {},
    }
}

/// The most compact mode can represent the data it was chosen for.
pub proof fn lemma_detected_mode_representable(data: Seq<u8>)
    ensures
        representable(choose_mode(data), data),
{
}

/// Character `v` of the alphanumeric character set of the QR standard:
/// the digits, the capital letters, then space, `$`, `%`, `*`, `+`, `-`,
/// `.`, `/` and `:`.
pub open spec fn alphanumeric_char(v: int) -> u8 {
    if 0 <= v < 10 {
        (48 + v) as u8
    } else if 10 <= v < 36 {
        (65 + (v - 10)) as u8
    } else if v == 36 {
        32u8
    } else if v == 37 {
        36u8
    } else if v == 38 {
        37u8
    } else if v == 39 {
        42u8
    } else if v == 40 {
        43u8
    } else if v == 41 {
        45u8
    } else if v == 42 {
        46u8
    } else if v == 43 {
        47u8
    } else {
        58u8
    }
}

/// The alphanumeric value of a byte is its position in the character set
/// of the standard, and a byte outside the set has none.
pub proof fn lemma_alphanumeric_table(b: u8)
    ensures
        match alnum_value(b) {
            Some(v) => v < 45 && alphanumeric_char(v as int) == b,
            None => forall|v: int| 0 <= v < 45 ==> alphanumeric_char(v) != b,
        },
{
}

/// The pad codewords of the QR standard alternate 0xEC and 0x11, starting
/// with 0xEC.
pub proof fn lemma_pad_codewords_standard(k: int)
    requires
        0 <= k,
    ensures
        pad_value(2 * k) == 0xECu16,
        pad_value(2 * k + 1) == 0x11u16,
{
}

/// The most compact mode needs no more payload bits than any other mode
/// that can represent the data.
pub proof fn lemma_detected_mode_is_most_compact(data: Seq<u8>, mode: EncodeMode)
    requires
        representable(mode, data),
    ensures
        payload_bit_count(choose_mode(data), data.len() as int) <= payload_bit_count(
            mode,
            data.len() as int,
        ),
{
    let len = data.len() as int;
    assert(payload_bit_count(EncodeMode::Numeric, len) <= payload_bit_count(
        EncodeMode::Alphanumeric,
        len,
    ));
    assert(payload_bit_count(EncodeMode::Alphanumeric, len) <= payload_bit_count(
        EncodeMode::Bytes,
        len,
    ));
    if mode == EncodeMode::Numeric {
        assert(forall|i: int| 0 <= i < data.len() ==> is_digit(#[trigger] data[i]));
    } else if mode == EncodeMode::Alphanumeric {
        if !(forall|i: int| 0 <= i < data.len() ==> is_digit(#[trigger] data[i])) {
            assert(choose_mode(data) == EncodeMode::Alphanumeric);
        }
    }
}

/// For data that `mode` can represent, encoding succeeds exactly when the
/// payload fits the data capacity as `capacity::fits` computes it, and
/// otherwise fails with [`QrError::Overflow`].
pub proof fn lemma_encoding_succeeds_iff_fits(
    version: int,
    mode: EncodeMode,
    level: EccLevel,
    data: Seq<u8>,
)
    requires
        1 <= version <= 40,
        representable(mode, data),
    ensures
        (data_codewords(version, mode, level, data) is Ok) == fits_spec(
            mode,
            version,
            data.len() as int,
            level,
        ),
        data_codewords(version, mode, level, data) is Err ==> data_codewords(
            version,
            mode,
            level,
            data,
        ) == Err::<Seq<u8>, QrError>(QrError::Overflow),
{
    lemma_table_facts(version);
    assert(level_table_facts(version, level));
    let capacity = 8 * data_codewords_of(version, level);
    let header = header_chunks(mode, version, data.len() as int);
    assert forall|i: int| 0 <= i < header.len() implies #[trigger] chunk_fits_u16(header[i]) by {}
    assert(header.drop_last() =~= seq![Chunk::Bits { value: mode_indicator(mode), count: 4 }]);
    assert(header.drop_last().drop_last() =~= Seq::<Chunk>::empty());
    assert(chunk_bits(header.drop_last().drop_last()) == 0);
    assert(chunk_bits(header.drop_last()) == 4);
    assert(chunk_bits(header) == 4 + count_bits(mode, version));
    lemma_write_valid(seq![], header, capacity);
    lemma_mode_chunks(mode, data);
    match write_chunks(seq![], header, capacity) {
        Ok(bits) => {
            lemma_write_valid(bits, mode_chunks(mode, data), capacity);
        },
        Err(e) => {},
    }
}

/// The bits in the writer when writing `chunks` after `start` stops: all
/// of them on success, else those of the chunks before the first one that
/// is invalid or does not fit.
pub open spec fn written_chunks(start: Seq<bool>, chunks: Seq<Chunk>, capacity: int) -> Seq<bool>
    decreases chunks.len(),
{
    if chunks.len() == 0 {
        start
    } else {
        match write_chunks(start, chunks.drop_last(), capacity) {
            Ok(bits) => match push_chunk(bits, chunks.last(), capacity) {
                Ok(next) => next,
                Err(e) => bits,
            },
            Err(e) => written_chunks(start, chunks.drop_last(), capacity),
        }
    }
}

/// The bits in the writer when writing a segment stops.
pub open spec fn segment_written(version: int, mode: EncodeMode, data: Seq<u8>, capacity: int) -> Seq<
    bool,
> {
    let header = header_chunks(mode, version, data.len() as int);
    match write_chunks(seq![], header, capacity) {
        Ok(bits) => written_chunks(bits, mode_chunks(mode, data), capacity),
        Err(e) => written_chunks(seq![], header, capacity),
    }
}

/// The data codewords left behind by a failed encoding: the bits written
/// before the failure, then zero bits up to the data capacity.
pub open spec fn partial_codewords(
    version: int,
    mode: EncodeMode,
    level: EccLevel,
    data: Seq<u8>,
) -> Seq<u8> {
    let capacity = 8 * data_codewords_of(version, level);
    let bits = segment_written(version, mode, data, capacity);
    pack_msb(bits + Seq::new((capacity - bits.len()) as nat, |i: int| false))
}

/// What is written after one more chunk.
proof fn lemma_written_step(start: Seq<bool>, chunks: Seq<Chunk>, k: int, capacity: int)
    requires
        0 <= k < chunks.len(),
    ensures
        written_chunks(start, chunks.take(k + 1), capacity) == match write_chunks(
            start,
            chunks.take(k),
            capacity,
        ) {
            Ok(bits) => match push_chunk(bits, chunks[k], capacity) {
                Ok(next) => next,
                Err(e) => bits,
            },
            Err(e) => written_chunks(start, chunks.take(k), capacity),
        },
{
    assert(chunks.take(k + 1).drop_last() =~= chunks.take(k));
}

/// Once writing a prefix fails, what is written stays.
proof fn lemma_written_error_prefix(start: Seq<bool>, chunks: Seq<Chunk>, k: int, capacity: int)
    requires
        0 <= k <= chunks.len(),
        write_chunks(start, chunks.take(k), capacity) is Err,
    ensures
        written_chunks(start, chunks, capacity) == written_chunks(start, chunks.take(k), capacity),
    decreases chunks.len() - k,
{
    if k < chunks.len() {
        lemma_write_step(start, chunks, k, capacity);
        lemma_written_step(start, chunks, k, capacity);
        lemma_written_error_prefix(start, chunks, k + 1, capacity);
    } else {
        assert(chunks.take(k) =~= chunks);
    }
}

/// A write that succeeds leaves exactly its result.
proof fn lemma_written_ok(start: Seq<bool>, chunks: Seq<Chunk>, capacity: int)
    requires
        write_chunks(start, chunks, capacity) is Ok,
    ensures
        write_chunks(start, chunks, capacity) == Ok::<Seq<bool>, QrError>(
            written_chunks(start, chunks, capacity),
        ),
{
}

/// Whether a writer call returned what the chunk writer specifies.
pub open spec fn writer_result(
    expected: Result<Seq<bool>, QrError>,
    r: Result<(), QrError>,
    after: Seq<bool>,
) -> bool {
    match expected {
        Ok(bits) => r is Ok && after == bits,
        Err(e) => r == Err::<(), QrError>(e),
    }
}

/// A most-significant-bit-first bit writer over a zeroed buffer.
struct BitWriter {
    buffer: Vec<u8>,
    bit_len: usize,
}

impl BitWriter {
    /// The bits written so far.
    spec fn bits(&self) -> Seq<bool> {
        msb_bits(self.buffer@).take(self.bit_len as int)
    }

    /// The number of bits the buffer holds.
    spec fn capacity(&self) -> int {
        (self.buffer@.len() * 8) as int
    }

    /// The written bits are a prefix of the buffer, and the rest of it is zero.
    spec fn wf(&self) -> bool {
        &&& self.bit_len <= self.buffer@.len() * 8
        &&& self.buffer@.len() <= 4096
        &&& forall|i: int|
            self.bit_len <= i < self.buffer@.len() * 8 ==> !#[trigger] msb_bits(self.buffer@)[i]
    }

    fn new(len: usize) -> (r: Self)
        requires
            len <= 4096,
        ensures
            r.wf(),
            r.bits() == Seq::<bool>::empty(),
            r.capacity() == len * 8,
    {
        let buffer = vec![0u8; len];
        proof {
            crate::bits::lemma_zero_byte_bits();
            assert forall|i: int| 0 <= i < buffer@.len() * 8 implies !#[trigger] msb_bits(buffer@)[i] by {
                assert(buffer@[i / 8] == 0);
            }
        }
        let r = Self { buffer, bit_len: 0 };
        assert(r.bits() =~= Seq::<bool>::empty());
        r
    }

    /// Appends the low `count` bits of `value`, most significant first.
    fn push_bits(&mut self, value: u16, count: usize) -> (r: Result<(), QrError>)
        requires
            old(self).wf(),
        ensures
            final(self).wf(),
            final(self).capacity() == old(self).capacity(),
            writer_result(
                push_chunk(old(self).bits(), Chunk::Bits { value, count }, old(self).capacity()),
                r,
                final(self).bits(),
            ),
            r is Err ==> final(self).bits() == old(self).bits(),
    {
        if count > 16 || self.bit_len + count > self.buffer.len() * 8 {
            return Err(QrError::Overflow);
        }
        let ghost start = self.bits();
        let ghost start_len = self.bit_len;
        let ghost expected = value_bits(value, count as int);
        let mut shift = count;
        while shift > 0
            invariant
                self.wf(),
                shift <= count <= 16,
                self.buffer@.len() == old(self).buffer@.len(),
                start_len + count <= self.buffer@.len() * 8,
                self.bit_len == start_len + (count - shift),
                self.bits() == start + expected.take(count - shift),
                expected == value_bits(value, count as int),
                start.len() == start_len,
            decreases shift,
        {
            shift = shift - 1;
            let sh = shift as u16;
            let wide: u16 = (value >> sh) & 1;
            assert(wide <= 1 && (wide == 1) == ((value >> sh) & 1u16 == 1u16)) by (bit_vector)
                requires
                    wide == (value >> sh) & 1u16,
            ;
            assert((wide == 1) == u16_bit(value, shift as int));
            let bit = wide as u8;
            let position = self.bit_len;
            proof {
                lemma_index_split(position);
            }
            let index = position >> 3;
            let offset = (7 - (position & 0x07)) as u8;
            let old_byte = self.buffer[index];
            let new_byte = old_byte | (bit << offset);
            let ghost before = self.buffer@;
            proof {
                lemma_byte_or_bit(old_byte, bit, offset);
                lemma_msb_or(before, position as int, bit, new_byte);
            }
            self.buffer.set(index, new_byte);
            self.bit_len = position + 1;
            proof {
                let done = (count - shift - 1) as int;
                assert(expected[done] == u16_bit(value, shift as int));
                assert(!msb_bits(before)[position as int]);
                assert(msb_bits(self.buffer@) == msb_bits(before).update(position as int, bit == 1));
                assert(self.bits() =~= msb_bits(before).take(position as int).push(bit == 1));
                assert(expected.take(done + 1) =~= expected.take(done).push(expected[done]));
                assert(self.bits() =~= start + expected.take(count - shift));
            }
        }
        proof {
            assert(expected.take(count as int) =~= expected);
        }
        Ok(())
    }

    /// The buffer packs the written bits followed by zero bits.
    proof fn lemma_buffer_bits(&self)
        requires
            self.wf(),
        ensures
            self.buffer@ == pack_msb(
                self.bits() + Seq::new((self.capacity() - self.bits().len()) as nat, |i: int| false),
            ),
    {
        let written = self.bits();
        assert(msb_bits(self.buffer@) =~= written + Seq::new(
            (self.capacity() - written.len()) as nat,
            |i: int| false,
        ));
        lemma_pack_msb_bits(self.buffer@);
    }

    fn bit_len(&self) -> (r: usize)
        ensures
            r == self.bit_len,
    {
        self.bit_len
    }

    fn byte_len(&self) -> (r: usize)
        ensures
            r == self.bit_len / 8,
    {
        self.bit_len / 8
    }
}


impl EncodeMode {
    /// Returns the most compact mode that can represent `data`: numeric if
    /// every byte is a digit, else alphanumeric if every byte is in the
    /// alphanumeric character set, else bytes.
    pub fn detect(data: &[u8]) -> (r: Self)
        ensures
            r == choose_mode(data@),
    {
        let mut all_numeric = true;
        let mut index: usize = 0;
        while index < data.len()
            invariant
                index <= data@.len(),
                all_numeric == forall|i: int| 0 <= i < index ==> is_digit(#[trigger] data@[i]),
            decreases data@.len() - index,
        {
            let byte = data[index];
            if !(byte >= ASCII_ZERO && byte <= ASCII_NINE) {
                all_numeric = false;
            }
            index = index + 1;
        }
        if all_numeric {
            return Self::Numeric;
        }
        let mut all_alphanumeric = true;
        index = 0;
        while index < data.len()
            invariant
                index <= data@.len(),
                all_alphanumeric == forall|i: int|
                    0 <= i < index ==> (#[trigger] alnum_value(data@[i])) is Some,
            decreases data@.len() - index,
        {
            if Self::alphanumeric_value(data[index]).is_none() {
                all_alphanumeric = false;
            }
            index = index + 1;
        }
        if all_alphanumeric {
            Self::Alphanumeric
        } else {
            Self::Bytes
        }
    }

    /// Writes the payload chunks of `data` in this mode.
    fn encode(self, data: &[u8], writer: &mut BitWriter) -> (r: Result<(), QrError>)
        requires
            old(writer).wf(),
        ensures
            final(writer).wf(),
            final(writer).capacity() == old(writer).capacity(),
            writer_result(
                write_chunks(old(writer).bits(), mode_chunks(self, data@), old(writer).capacity()),
                r,
                final(writer).bits(),
            ),
            final(writer).bits() == written_chunks(
                old(writer).bits(),
                mode_chunks(self, data@),
                old(writer).capacity(),
            ),
    {
        match self {
            Self::Numeric => self.encode_numeric(data, writer),
            Self::Alphanumeric => self.encode_alphanumeric(data, writer),
            Self::Bytes => self.encode_bytes(data, writer),
        }
    }

    /// Writes groups of three digits in 10 bits, two in 7 and one in 4.
    #[verifier::rlimit(30)]
    fn encode_numeric(self, data: &[u8], writer: &mut BitWriter) -> (r: Result<(), QrError>)
        requires
            old(writer).wf(),
        ensures
            final(writer).wf(),
            final(writer).capacity() == old(writer).capacity(),
            writer_result(
                write_chunks(old(writer).bits(), numeric_chunks(data@), old(writer).capacity()),
                r,
                final(writer).bits(),
            ),
            final(writer).bits() == written_chunks(
                old(writer).bits(),
                numeric_chunks(data@),
                old(writer).capacity(),
            ),
    {
        let ghost start = writer.bits();
        let ghost capacity = writer.capacity();
        let ghost chunks = numeric_chunks(data@);
        let mut index: usize = 0;
        let ghost mut k: int = 0;
        while index < data.len()
            invariant
                writer.wf(),
                writer.capacity() == capacity,
                capacity == old(writer).capacity(),
                start == old(writer).bits(),
                chunks == numeric_chunks(data@),
                0 <= k <= chunks.len(),
                index == 3 * k || (index == data@.len() && k == chunks.len()),
                index <= data@.len(),
                index < data@.len() ==> k < chunks.len(),
                write_chunks(start, chunks.take(k), capacity) == Ok::<Seq<bool>, QrError>(writer.bits()),
            decreases data@.len() - index,
        {
            let remaining = data.len() - index;
            let group_len = if remaining < 3 {
                remaining
            } else {
                3
            };
            let ghost group = numeric_group(data@, k);
            assert(group =~= data@.subrange(index as int, index + group_len));
            let mut value: u16 = 0;
            let mut offset: usize = 0;
            while offset < group_len
                invariant
                    data@.len() <= usize::MAX,
                    index + group_len <= data@.len(),
                    0 <= k < chunks.len(),
                    chunks == numeric_chunks(data@),
                    group == numeric_group(data@, k),
                    writer.wf(),
                    writer.capacity() == capacity,
                    capacity == old(writer).capacity(),
                    start == old(writer).bits(),
                    write_chunks(start, chunks.take(k), capacity) == Ok::<Seq<bool>, QrError>(
                        writer.bits(),
                    ),
                    group_len <= 3,
                    group == data@.subrange(index as int, index + group_len),
                    offset <= group_len,
                    value == digits_value(group.take(offset as int)),
                    all_digits(group.take(offset as int)),
                    offset == 0 ==> value == 0,
                    offset == 1 ==> value <= 9,
                    offset == 2 ==> value <= 99,
                    value <= 999,
                decreases group_len - offset,
            {
                let byte = data[index + offset];
                if !(byte >= ASCII_ZERO && byte <= ASCII_NINE) {
                    proof {
                        assert(group[offset as int] == byte);
                        assert(!all_digits(group));
                        assert(chunks[k] == Chunk::Invalid);
                        lemma_write_step(start, chunks, k, capacity);
                        lemma_write_error_prefix(start, chunks, k + 1, capacity);
                        lemma_written_step(start, chunks, k, capacity);
                        lemma_written_error_prefix(start, chunks, k + 1, capacity);
                    }
                    return Err(QrError::DataInvalid);
                }
                proof {
                    assert(group.take(offset + 1).drop_last() =~= group.take(offset as int));
                    assert(group.take(offset + 1).last() == byte);
                }
                value = (value * 10) + (byte - ASCII_ZERO) as u16;
                offset = offset + 1;
            }
            proof {
                assert(group.take(group_len as int) =~= group);
            }
            let bit_count: usize = match group_len {
                3 => 10,
                2 => 7,
                _ => 4,
            };
            assert(chunks[k] == Chunk::Bits { value, count: bit_count });
            let pushed = writer.push_bits(value, bit_count);
            proof {
                lemma_write_step(start, chunks, k, capacity);
                lemma_written_step(start, chunks, k, capacity);
            }
            match pushed {
                Ok(()) => {},
                Err(e) => {
                    proof {
                        lemma_write_error_prefix(start, chunks, k + 1, capacity);
                        lemma_written_error_prefix(start, chunks, k + 1, capacity);
                    }
                    return Err(e);
                },
            }
            index = index + group_len;
            proof {
                k = k + 1;
            }
        }
        proof {
            assert(chunks.take(k) =~= chunks);
            lemma_written_ok(start, chunks, capacity);
        }
        Ok(())
    }

    /// Writes pairs of characters in 11 bits and a last single one in 6.
    #[verifier::rlimit(30)]
    fn encode_alphanumeric(self, data: &[u8], writer: &mut BitWriter) -> (r: Result<(), QrError>)
        requires
            old(writer).wf(),
        ensures
            final(writer).wf(),
            final(writer).capacity() == old(writer).capacity(),
            writer_result(
                write_chunks(old(writer).bits(), alnum_chunks(data@), old(writer).capacity()),
                r,
                final(writer).bits(),
            ),
            final(writer).bits() == written_chunks(
                old(writer).bits(),
                alnum_chunks(data@),
                old(writer).capacity(),
            ),
    {
        let ghost start = writer.bits();
        let ghost capacity = writer.capacity();
        let ghost chunks = alnum_chunks(data@);
        let mut index: usize = 0;
        while index + 1 < data.len()
            invariant
                writer.wf(),
                writer.capacity() == capacity,
                capacity == old(writer).capacity(),
                start == old(writer).bits(),
                chunks == alnum_chunks(data@),
                index % 2 == 0,
                index <= data@.len(),
                write_chunks(start, chunks.take((index / 2) as int), capacity) == Ok::<Seq<bool>, QrError>(
                    writer.bits(),
                ),
            decreases data@.len() - index,
        {
            let ghost k = index / 2;
            assert(chunks[k as int] == alnum_pair_chunk(data@, k as int));
            let left = match Self::alphanumeric_value(data[index]) {
                Some(value) => value,
                None => {
                    proof {
                        lemma_write_step(start, chunks, k as int, capacity);
                        lemma_write_error_prefix(start, chunks, k + 1, capacity);
                        lemma_written_step(start, chunks, k as int, capacity);
                        lemma_written_error_prefix(start, chunks, k + 1, capacity);
                    }
                    return Err(QrError::DataInvalid);
                },
            };
            let right = match Self::alphanumeric_value(data[index + 1]) {
                Some(value) => value,
                None => {
                    proof {
                        lemma_write_step(start, chunks, k as int, capacity);
                        lemma_write_error_prefix(start, chunks, k + 1, capacity);
                        lemma_written_step(start, chunks, k as int, capacity);
                        lemma_written_error_prefix(start, chunks, k + 1, capacity);
                    }
                    return Err(QrError::DataInvalid);
                },
            };
            let pushed = writer.push_bits((left * 45) + right, 11);
            proof {
                lemma_write_step(start, chunks, k as int, capacity);
                lemma_written_step(start, chunks, k as int, capacity);
            }
            match pushed {
                Ok(()) => {},
                Err(e) => {
                    proof {
                        lemma_write_error_prefix(start, chunks, k + 1, capacity);
                        lemma_written_error_prefix(start, chunks, k + 1, capacity);
                    }
                    return Err(e);
                },
            }
            index = index + 2;
        }
        if index < data.len() {
            let ghost k = index / 2;
            assert(k == chunks.len() - 1);
            let value = match Self::alphanumeric_value(data[index]) {
                Some(value) => value,
                None => {
                    proof {
                        lemma_write_step(start, chunks, k as int, capacity);
                        lemma_written_step(start, chunks, k as int, capacity);
                        assert(chunks.take(k + 1) =~= chunks);
                    }
                    return Err(QrError::DataInvalid);
                },
            };
            let pushed = writer.push_bits(value, 6);
            proof {
                lemma_write_step(start, chunks, k as int, capacity);
                lemma_written_step(start, chunks, k as int, capacity);
                assert(chunks.take(k + 1) =~= chunks);
            }
            return pushed;
        }
        proof {
            assert(chunks.take((index / 2) as int) =~= chunks);
            lemma_written_ok(start, chunks, capacity);
        }
        Ok(())
    }

    /// Writes every byte in 8 bits.
    #[verifier::rlimit(30)]
    fn encode_bytes(self, data: &[u8], writer: &mut BitWriter) -> (r: Result<(), QrError>)
        requires
            old(writer).wf(),
        ensures
            final(writer).wf(),
            final(writer).capacity() == old(writer).capacity(),
            writer_result(
                write_chunks(old(writer).bits(), byte_chunks(data@), old(writer).capacity()),
                r,
                final(writer).bits(),
            ),
            final(writer).bits() == written_chunks(
                old(writer).bits(),
                byte_chunks(data@),
                old(writer).capacity(),
            ),
    {
        let ghost start = writer.bits();
        let ghost capacity = writer.capacity();
        let ghost chunks = byte_chunks(data@);
        let mut index: usize = 0;
        while index < data.len()
            invariant
                writer.wf(),
                writer.capacity() == capacity,
                capacity == old(writer).capacity(),
                start == old(writer).bits(),
                chunks == byte_chunks(data@),
                index <= data@.len(),
                write_chunks(start, chunks.take(index as int), capacity) == Ok::<Seq<bool>, QrError>(
                    writer.bits(),
                ),
            decreases data@.len() - index,
        {
            let pushed = writer.push_bits(data[index] as u16, 8);
            proof {
                lemma_write_step(start, chunks, index as int, capacity);
                lemma_written_step(start, chunks, index as int, capacity);
            }
            match pushed {
                Ok(()) => {},
                Err(e) => {
                    proof {
                        lemma_write_error_prefix(start, chunks, index + 1, capacity);
                        lemma_written_error_prefix(start, chunks, index + 1, capacity);
                    }
                    return Err(e);
                },
            }
            index = index + 1;
        }
        proof {
            assert(chunks.take(index as int) =~= chunks);
            lemma_written_ok(start, chunks, capacity);
        }
        Ok(())
    }

    /// Returns the value of a character in the alphanumeric mode.
    fn alphanumeric_value(byte: u8) -> (r: Option<u16>)
        ensures
            r == alnum_value(byte),
    {
        if byte >= ASCII_ZERO && byte <= ASCII_NINE {
            Some((byte - ASCII_ZERO) as u16)
        } else if byte >= ASCII_UPPER_A && byte <= ASCII_UPPER_Z {
            Some((byte - ASCII_UPPER_A) as u16 + 10)
        } else if byte == ASCII_SPACE {
            Some(36)
        } else if byte == ASCII_DOLLAR {
            Some(37)
        } else if byte == ASCII_PERCENT {
            Some(38)
        } else if byte == ASCII_ASTERISK {
            Some(39)
        } else if byte == ASCII_PLUS {
            Some(40)
        } else if byte == ASCII_MINUS {
            Some(41)
        } else if byte == ASCII_PERIOD {
            Some(42)
        } else if byte == ASCII_SLASH {
            Some(43)
        } else if byte == ASCII_COLON {
            Some(44)
        } else {
            None
        }
    }
}

/// Writes the mode indicator, the character count and the payload.
fn write_segment(data: &[u8], mode: EncodeMode, version: usize, writer: &mut BitWriter) -> (r:
    Result<(), QrError>)
    requires
        old(writer).wf(),
        old(writer).bits() == Seq::<bool>::empty(),
    ensures
        final(writer).wf(),
        final(writer).capacity() == old(writer).capacity(),
        writer_result(
            segment_bits(version as int, mode, data@, old(writer).capacity()),
            r,
            final(writer).bits(),
        ),
        final(writer).bits() == segment_written(version as int, mode, data@, old(writer).capacity()),
{
    let count_bits = mode.counter_bits_for(version);
    let ghost capacity = writer.capacity();
    let ghost header = header_chunks(mode, version as int, data@.len() as int);
    let ghost empty = Seq::<bool>::empty();
    proof {
        assert(header.take(0) =~= Seq::<Chunk>::empty());
        lemma_write_step(empty, header, 0, capacity);
        lemma_written_step(empty, header, 0, capacity);
    }
    match writer.push_bits(mode.mode_bits(), 4) {
        Ok(()) => {},
        Err(e) => {
            proof {
                lemma_write_error_prefix(empty, header, 1, capacity);
                lemma_written_error_prefix(empty, header, 1, capacity);
            }
            return Err(e);
        },
    }
    proof {
        lemma_write_step(empty, header, 1, capacity);
        lemma_written_step(empty, header, 1, capacity);
        assert(header.take(2) =~= header);
    }
    match writer.push_bits(data.len() as u16, count_bits) {
        Ok(()) => {},
        Err(e) => {
            return Err(e);
        },
    }
    mode.encode(data, writer)
}

/// Writes the terminator, the zero bits up to a codeword boundary and the
/// pad codewords, filling the writer.
fn finish(writer: &mut BitWriter, data_len: usize)
    requires
        old(writer).wf(),
        old(writer).capacity() == data_len * 8,
    ensures
        final(writer).wf(),
        final(writer).capacity() == old(writer).capacity(),
        final(writer).bit_len == data_len * 8,
        final(writer).bits() == finish_bits(old(writer).bits(), old(writer).capacity()),
{
    let ghost capacity = writer.capacity();
    let ghost segment = writer.bits();
    let capacity_bits = data_len * 8;
    let free = capacity_bits - writer.bit_len();
    let terminator_bits = if free < 4 {
        free
    } else {
        4
    };
    let _ = writer.push_bits(0, terminator_bits);
    let ghost terminated = writer.bits();
    assert(terminated == segment + value_bits(0, terminator_bits as int));
    let remainder = writer.bit_len() % 8;
    if remainder != 0 {
        let _ = writer.push_bits(0, 8 - remainder);
    }
    let ghost aligned = writer.bits();
    assert(aligned == if terminated.len() % 8 == 0 {
        terminated
    } else {
        terminated + value_bits(0, 8 - terminated.len() % 8)
    });
    let mut pad_byte: u8 = 0xEC;
    let ghost mut pads: nat = 0;
    assert(aligned + pad_bits(0) =~= aligned);
    while writer.byte_len() < data_len
        invariant
            writer.wf(),
            writer.capacity() == capacity,
            capacity == data_len * 8,
            writer.bit_len % 8 == 0,
            writer.bits().len() == writer.bit_len,
            writer.bits() == aligned + pad_bits(pads),
            aligned.len() + 8 * pads == writer.bit_len,
            pad_byte as u16 == pad_value(pads as int),
        decreases capacity - writer.bit_len,
    {
        let ghost before = writer.bits();
        let _ = writer.push_bits(pad_byte as u16, 8);
        assert(writer.bits() == before + value_bits(pad_value(pads as int), 8));
        pad_byte = if pad_byte == 0xEC {
            0x11
        } else {
            0xEC
        };
        proof {
            pads = pads + 1;
        }
    }
    assert(pads == (capacity - aligned.len()) / 8);
}

/// Overwrites the front of `codewords` with `bytes`.
fn copy_prefix(codewords: &mut Vec<u8>, bytes: &[u8])
    requires
        bytes@.len() <= old(codewords)@.len(),
    ensures
        final(codewords)@ == bytes@ + old(codewords)@.skip(bytes@.len() as int),
{
    let mut index: usize = 0;
    while index < bytes.len()
        invariant
            bytes@.len() <= codewords@.len(),
            codewords@.len() == old(codewords)@.len(),
            index <= bytes@.len(),
            codewords@ =~= bytes@.take(index as int) + old(codewords)@.skip(index as int),
        decreases bytes@.len() - index,
    {
        codewords.set(index, bytes[index]);
        index = index + 1;
        assert(codewords@ =~= bytes@.take(index as int) + old(codewords)@.skip(index as int));
    }
    assert(bytes@.take(bytes@.len() as int) =~= bytes@);
}

/// The data codewords of a payload, written at the front of a codeword buffer.
#[derive(Debug, Copy)]
pub struct EncodedData<T: Version> {
    /// Number of data codewords (the data capacity of the version and level).
    pub data_len: usize,
    pub _marker: PhantomData<T>,
}

impl<T: Version> Clone for EncodedData<T> {
    /// The same number of data codewords.
    fn clone(&self) -> (r: Self)
        ensures
            r.data_len == self.data_len,
    {
        Self { data_len: self.data_len, _marker: PhantomData }
    }
}

impl<T: Version> EncodedData<T> {
    /// Encodes `data` in `mode` into the data codewords of version `T` at
    /// `level` and writes them at the front of `codewords`.
    ///
    /// The codewords are the mode indicator, the character count, the
    /// payload, a terminator of up to four zero bits, zero bits up to a
    /// codeword boundary, and the pad codewords 0xEC, 0x11, ... up to the
    /// data capacity. Returns [`QrError::DataInvalid`] when `data` holds a
    /// character that `mode` cannot represent and [`QrError::Overflow`] when
    /// the encoding does not fit, whichever the encoder meets first; then
    /// the data codewords of `codewords` hold the bits written before the
    /// failure followed by zero bits.
    #[verifier::rlimit(30)]
    pub fn encode(data: &[u8], mode: EncodeMode, level: EccLevel, codewords: &mut Vec<u8>) -> (r:
        Result<Self, QrError>)
        requires
            old(codewords)@.len() == total_codewords_of(T::spec_version() as int),
        ensures
            final(codewords)@.len() == old(codewords)@.len(),
            match data_codewords(T::spec_version() as int, mode, level, data@) {
                Ok(bytes) => r matches Ok(e) && e.data_len == data_codewords_of(
                    T::spec_version() as int,
                    level,
                ) && final(codewords)@ == bytes + old(codewords)@.skip(e.data_len as int),
                Err(err) => r == Err::<Self, QrError>(err) && final(codewords)@ == partial_codewords(
                    T::spec_version() as int,
                    mode,
                    level,
                    data@,
                ) + old(codewords)@.skip(data_codewords_of(T::spec_version() as int, level) as int),
            },
    {
        let version = T::version();
        proof {
            lemma_table_facts(version as int);
            assert(level_table_facts(version as int, level));
        }
        let data_len = data_capacity_for(version, level);
        let mut writer = BitWriter::new(data_len);
        let segment = write_segment(data, mode, version, &mut writer);
        let succeeded = match segment {
            Ok(()) => true,
            Err(_) => false,
        };
        if succeeded {
            finish(&mut writer, data_len);
        }
        proof {
            writer.lemma_buffer_bits();
        }
        copy_prefix(codewords, writer.buffer.as_slice());
        match segment {
            Ok(()) => Ok(Self { data_len, _marker: PhantomData }),
            Err(e) => Err(e),
        }
    }
}

} // verus!
