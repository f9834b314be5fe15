//! Bit-level views of byte buffers and the facts about single-bit updates
//! that the bit writer, the interleaver and the matrix rely on.

use vstd::prelude::*;

verus! {

/// Bit `k` (0 = least significant) of byte `b`.
pub open spec fn byte_bit(b: u8, k: int) -> bool {
    (b >> (k as u8)) & 1u8 == 1u8
}

/// The bits of a buffer, least significant bit of each byte first.
pub open spec fn lsb_bits(buf: Seq<u8>) -> Seq<bool> {
    Seq::new(buf.len() * 8, |i: int| byte_bit(buf[i / 8], i % 8))
}

/// The bits of a buffer, most significant bit of each byte first.
pub open spec fn msb_bits(buf: Seq<u8>) -> Seq<bool> {
    Seq::new(buf.len() * 8, |i: int| byte_bit(buf[i / 8], 7 - i % 8))
}

/// The byte whose bits, most significant first, are `bits[start..start + 8]`.
pub open spec fn msb_byte(bits: Seq<bool>, start: int) -> u8 {
    (if bits[start] {
        0x80u8
    } else {
        0u8
    }) | (if bits[start + 1] {
        0x40u8
    } else {
        0u8
    }) | (if bits[start + 2] {
        0x20u8
    } else {
        0u8
    }) | (if bits[start + 3] {
        0x10u8
    } else {
        0u8
    }) | (if bits[start + 4] {
        0x08u8
    } else {
        0u8
    }) | (if bits[start + 5] {
        0x04u8
    } else {
        0u8
    }) | (if bits[start + 6] {
        0x02u8
    } else {
        0u8
    }) | (if bits[start + 7] {
        0x01u8
    } else {
        0u8
    })
}

/// Packs a bit string, most significant bit of each byte first, into bytes.
pub open spec fn pack_msb(bits: Seq<bool>) -> Seq<u8> {
    Seq::new(bits.len() / 8, |k: int| msb_byte(bits, 8 * k))
}

/// Two bytes with the same eight bits are equal.
pub proof fn lemma_byte_ext(a: u8, b: u8)
    requires
        forall|k: int| 0 <= k < 8 ==> byte_bit(a, k) == byte_bit(b, k),
    ensures
        a == b,
{
    assert(byte_bit(a, 0) == byte_bit(b, 0));
    assert(byte_bit(a, 1) == byte_bit(b, 1));
    assert(byte_bit(a, 2) == byte_bit(b, 2));
    assert(byte_bit(a, 3) == byte_bit(b, 3));
    assert(byte_bit(a, 4) == byte_bit(b, 4));
    assert(byte_bit(a, 5) == byte_bit(b, 5));
    assert(byte_bit(a, 6) == byte_bit(b, 6));
    assert(byte_bit(a, 7) == byte_bit(b, 7));
    assert(a == b) by (bit_vector)
        requires
            ((a >> 0u8) & 1u8 == 1u8) == ((b >> 0u8) & 1u8 == 1u8),
            ((a >> 1u8) & 1u8 == 1u8) == ((b >> 1u8) & 1u8 == 1u8),
            ((a >> 2u8) & 1u8 == 1u8) == ((b >> 2u8) & 1u8 == 1u8),
            ((a >> 3u8) & 1u8 == 1u8) == ((b >> 3u8) & 1u8 == 1u8),
            ((a >> 4u8) & 1u8 == 1u8) == ((b >> 4u8) & 1u8 == 1u8),
            ((a >> 5u8) & 1u8 == 1u8) == ((b >> 5u8) & 1u8 == 1u8),
            ((a >> 6u8) & 1u8 == 1u8) == ((b >> 6u8) & 1u8 == 1u8),
            ((a >> 7u8) & 1u8 == 1u8) == ((b >> 7u8) & 1u8 == 1u8),
    ;
}

/// The bits of `msb_byte` are the bits it was built from.
pub proof fn lemma_msb_byte_bits(bits: Seq<bool>, start: int)
    requires
        0 <= start,
        start + 8 <= bits.len(),
    ensures
        forall|j: int|
            start <= j < start + 8 ==> byte_bit(msb_byte(bits, start), 7 - (j - start))
                == #[trigger] bits[j],
{
    let b0 = bits[start];
    let b1 = bits[start + 1];
    let b2 = bits[start + 2];
    let b3 = bits[start + 3];
    let b4 = bits[start + 4];
    let b5 = bits[start + 5];
    let b6 = bits[start + 6];
    let b7 = bits[start + 7];
    let v = msb_byte(bits, start);
    assert({
        &&& ((v >> 7u8) & 1u8 == 1u8) == b0
        &&& ((v >> 6u8) & 1u8 == 1u8) == b1
        &&& ((v >> 5u8) & 1u8 == 1u8) == b2
        &&& ((v >> 4u8) & 1u8 == 1u8) == b3
        &&& ((v >> 3u8) & 1u8 == 1u8) == b4
        &&& ((v >> 2u8) & 1u8 == 1u8) == b5
        &&& ((v >> 1u8) & 1u8 == 1u8) == b6
        &&& ((v >> 0u8) & 1u8 == 1u8) == b7
    }) by (bit_vector)
        requires
            v == (if b0 {
                0x80u8
            } else {
                0u8
            }) | (if b1 {
                0x40u8
            } else {
                0u8
            }) | (if b2 {
                0x20u8
            } else {
                0u8
            }) | (if b3 {
                0x10u8
            } else {
                0u8
            }) | (if b4 {
                0x08u8
            } else {
                0u8
            }) | (if b5 {
                0x04u8
            } else {
                0u8
            }) | (if b6 {
                0x02u8
            } else {
                0u8
            }) | (if b7 {
                0x01u8
            } else {
                0u8
            }),
    ;
}

/// A buffer is the packing of its own most-significant-first bits.
pub proof fn lemma_pack_msb_bits(buf: Seq<u8>)
    ensures
        pack_msb(msb_bits(buf)) == buf,
{
    let bits = msb_bits(buf);
    assert forall|k: int| 0 <= k < buf.len() implies #[trigger] pack_msb(bits)[k] == buf[k] by {
        lemma_msb_byte_bits(bits, 8 * k);
        assert forall|j: int| 0 <= j < 8 implies byte_bit(msb_byte(bits, 8 * k), j) == byte_bit(
            buf[k],
            j,
        ) by {
            let p = 8 * k + (7 - j);
            assert(bits[p] == byte_bit(buf[p / 8], 7 - p % 8));
            assert(p / 8 == k);
            assert(p % 8 == 7 - j);
            assert(byte_bit(msb_byte(bits, 8 * k), 7 - (p - 8 * k)) == bits[p]);
        }
        lemma_byte_ext(msb_byte(bits, 8 * k), buf[k]);
    }
    assert(pack_msb(bits) =~= buf);
}

/// The zero byte has no bit set.
pub proof fn lemma_zero_byte_bits()
    ensures
        forall|k: int| 0 <= k < 8 ==> !byte_bit(0u8, k),
{
    assert forall|k: int| 0 <= k < 8 implies !byte_bit(0u8, k) by {
        let s = k as u8;
        assert((0u8 >> s) & 1u8 != 1u8) by (bit_vector);
    }
}

/// The byte obtained by setting (`value`) or clearing bit `o` of `b`.
pub open spec fn byte_with_bit(b: u8, o: u8, value: bool) -> u8 {
    if value {
        b | (1u8 << o)
    } else {
        b & !(1u8 << o)
    }
}

/// Setting or clearing bit `o` of a byte changes that bit only.
pub proof fn lemma_byte_set_bit(b: u8, o: u8, value: bool)
    requires
        o < 8,
    ensures
        forall|k: int|
            0 <= k < 8 ==> #[trigger] byte_bit(byte_with_bit(b, o, value), k) == if k == o {
                value
            } else {
                byte_bit(b, k)
            },
{
    assert forall|k: int| 0 <= k < 8 implies #[trigger] byte_bit(byte_with_bit(b, o, value), k)
        == if k == o {
        value
    } else {
        byte_bit(b, k)
    } by {
        let s = k as u8;
        let nb = byte_with_bit(b, o, value);
        assert(((nb >> s) & 1u8 == 1u8) == if s == o {
            value
        } else {
            (b >> s) & 1u8 == 1u8
        }) by (bit_vector)
            requires
                o < 8,
                s < 8,
                nb == if value {
                    b | (1u8 << o)
                } else {
                    b & !(1u8 << o)
                },
        ;
    }
}

/// Or-ing a zero-or-one bit into position `o` of a byte.
pub proof fn lemma_byte_or_bit(b: u8, bit: u8, o: u8)
    requires
        o < 8,
        bit <= 1,
    ensures
        forall|k: int|
            0 <= k < 8 ==> #[trigger] byte_bit(b | (bit << o), k) == if k == o {
                bit == 1 || byte_bit(b, k)
            } else {
                byte_bit(b, k)
            },
{
    assert forall|k: int| 0 <= k < 8 implies #[trigger] byte_bit(b | (bit << o), k) == if k == o {
        bit == 1 || byte_bit(b, k)
    } else {
        byte_bit(b, k)
    } by {
        let s = k as u8;
        let nb = b | (bit << o);
        assert(((nb >> s) & 1u8 == 1u8) == if s == o {
            bit == 1 || (b >> s) & 1u8 == 1u8
        } else {
            (b >> s) & 1u8 == 1u8
        }) by (bit_vector)
            requires
                o < 8,
                s < 8,
                bit <= 1,
                nb == b | (bit << o),
        ;
    }
}

/// Shifting and masking an index splits it into byte index and bit offset.
pub proof fn lemma_index_split(index: usize)
    ensures
        index >> 3usize == index / 8,
        index & 7usize == index % 8,
{
    assert(index >> 3usize == index / 8) by (bit_vector);
    assert(index & 7usize == index % 8) by (bit_vector);
}

/// Updating one byte of a buffer by setting or clearing one bit changes that
/// bit of the least-significant-first view only.
pub proof fn lemma_lsb_set(buf: Seq<u8>, index: int, value: bool, new_byte: u8)
    requires
        0 <= index < buf.len() * 8,
        forall|k: int|
            0 <= k < 8 ==> byte_bit(new_byte, k) == if k == index % 8 {
                value
            } else {
                byte_bit(buf[index / 8], k)
            },
    ensures
        lsb_bits(buf.update(index / 8, new_byte)) == lsb_bits(buf).update(index, value),
{
    let nb = buf.update(index / 8, new_byte);
    assert forall|i: int| 0 <= i < buf.len() * 8 implies #[trigger] lsb_bits(nb)[i] == lsb_bits(
        buf,
    ).update(index, value)[i] by {
        if i / 8 == index / 8 {
            if i == index {
            } else {
                assert(i % 8 != index % 8);
            }
        }
    }
    assert(lsb_bits(nb) =~= lsb_bits(buf).update(index, value));
}

/// Or-ing a zero-or-one bit at the most-significant-first position `index`.
pub proof fn lemma_msb_or(buf: Seq<u8>, index: int, bit: u8, new_byte: u8)
    requires
        0 <= index < buf.len() * 8,
        bit <= 1,
        forall|k: int|
            0 <= k < 8 ==> byte_bit(new_byte, k) == if k == 7 - index % 8 {
                bit == 1 || byte_bit(buf[index / 8], k)
            } else {
                byte_bit(buf[index / 8], k)
            },
    ensures
        msb_bits(buf.update(index / 8, new_byte)) == msb_bits(buf).update(
            index,
            bit == 1 || msb_bits(buf)[index],
        ),
{
    let nb = buf.update(index / 8, new_byte);
    assert forall|i: int| 0 <= i < buf.len() * 8 implies #[trigger] msb_bits(nb)[i] == msb_bits(
        buf,
    ).update(index, bit == 1 || msb_bits(buf)[index])[i] by {
        if i / 8 == index / 8 {
            if i == index {
            } else {
                assert(i % 8 != index % 8);
            }
        }
    }
    assert(msb_bits(nb) =~= msb_bits(buf).update(index, bit == 1 || msb_bits(buf)[index]));
}

/// Module `(x, y)` of a square grid of side `width` stored row by row,
/// least significant bit first.
pub open spec fn cell(buf: Seq<u8>, width: int, x: int, y: int) -> bool {
    lsb_bits(buf)[y * width + x]
}

/// Whether `(x, y)` lies in a square grid of side `width`.
pub open spec fn in_grid(width: int, x: int, y: int) -> bool {
    0 <= x < width && 0 <= y < width
}

/// A grid buffer of side `width` holds at least `width * width` bits.
pub open spec fn grid_buffer(buf: Seq<u8>, width: int) -> bool {
    width >= 0 && buf.len() * 8 >= width * width
}

/// Cells of a grid map to distinct bit indices inside the grid.
pub proof fn lemma_cell_index(width: int, x: int, y: int, x2: int, y2: int)
    requires
        in_grid(width, x, y),
        in_grid(width, x2, y2),
    ensures
        0 <= y * width + x < width * width,
        (y * width + x == y2 * width + x2) <==> (x == x2 && y == y2),
{
    assert(0 <= y * width + x < width * width) by (nonlinear_arith)
        requires
            0 <= x < width,
            0 <= y < width,
    ;
    if y * width + x == y2 * width + x2 {
        vstd::arithmetic::div_mod::lemma_fundamental_div_mod_converse(y * width + x, width, y, x);
        vstd::arithmetic::div_mod::lemma_fundamental_div_mod_converse(y2 * width + x2, width, y2, x2);
    }
}

/// Writing one bit of a grid buffer changes that cell only.
pub proof fn lemma_cell_update(buf: Seq<u8>, new_buf: Seq<u8>, width: int, x: int, y: int, value: bool)
    requires
        grid_buffer(buf, width),
        in_grid(width, x, y),
        new_buf.len() == buf.len(),
        lsb_bits(new_buf) == lsb_bits(buf).update(y * width + x, value),
    ensures
        grid_buffer(new_buf, width),
        forall|x2: int, y2: int|
            in_grid(width, x2, y2) ==> #[trigger] cell(new_buf, width, x2, y2) == if x2 == x && y2
                == y {
                value
            } else {
                cell(buf, width, x2, y2)
            },
{
    assert forall|x2: int, y2: int| in_grid(width, x2, y2) implies #[trigger] cell(
        new_buf,
        width,
        x2,
        y2,
    ) == if x2 == x && y2 == y {
        value
    } else {
        cell(buf, width, x2, y2)
    } by {
        lemma_cell_index(width, x, y, x2, y2);
        lemma_cell_index(width, x2, y2, x2, y2);
    }
}

/// The bits of `after` past the `width * width` cells of a grid are those
/// of `before`.
pub open spec fn tail_kept(before: Seq<u8>, after: Seq<u8>, width: int) -> bool {
    forall|i: int|
        width * width <= i < before.len() * 8 ==> #[trigger] lsb_bits(after)[i] == lsb_bits(
            before,
        )[i]
}

/// Two buffers of the same length with the same bits are equal.
pub proof fn lemma_lsb_bits_ext(a: Seq<u8>, b: Seq<u8>)
    requires
        a.len() == b.len(),
        lsb_bits(a) == lsb_bits(b),
    ensures
        a == b,
{
    assert forall|k: int| 0 <= k < a.len() implies a[k] == b[k] by {
        assert forall|j: int| 0 <= j < 8 implies byte_bit(a[k], j) == byte_bit(b[k], j) by {
            let i = 8 * k + j;
            assert(i / 8 == k && i % 8 == j);
            assert(0 <= i < a.len() * 8);
            assert(lsb_bits(a)[i] == byte_bit(a[i / 8], i % 8));
            assert(lsb_bits(b)[i] == byte_bit(b[i / 8], i % 8));
            assert(lsb_bits(a)[i] == lsb_bits(b)[i]);
        }
        lemma_byte_ext(a[k], b[k]);
    }
    assert(a =~= b);
}

/// Two grid buffers of the same length with the same cells and the same
/// bits past the grid are equal.
pub proof fn lemma_grid_buffer_ext(a: Seq<u8>, b: Seq<u8>, width: int)
    requires
        a.len() == b.len(),
        grid_buffer(a, width),
        forall|x: int, y: int| in_grid(width, x, y) ==> #[trigger] cell(a, width, x, y) == cell(b, width, x, y),
        tail_kept(a, b, width),
    ensures
        a == b,
{
    assert forall|i: int| 0 <= i < lsb_bits(a).len() implies lsb_bits(a)[i] == lsb_bits(b)[i] by {
        if i < width * width {
            let x = i % width;
            let y = i / width;
            vstd::arithmetic::div_mod::lemma_fundamental_div_mod(i, width);
            assert(y * width + x == i) by (nonlinear_arith)
                requires
                    i == width * (i / width) + i % width,
                    x == i % width,
                    y == i / width,
            ;
            assert(0 <= y < width) by (nonlinear_arith)
                requires
                    0 <= i < width * width,
                    y == i / width,
                    width > 0,
            ;
            assert(cell(a, width, x, y) == cell(b, width, x, y));
        } else {
            assert(lsb_bits(b)[i] == lsb_bits(a)[i]);
        }
    }
    assert(lsb_bits(a) =~= lsb_bits(b));
    lemma_lsb_bits_ext(a, b);
}

/// Sets or clears bit `index` (least significant bit first) of `buffer`.
pub fn set_bit(buffer: &mut Vec<u8>, index: usize, value: bool)
    requires
        index < old(buffer)@.len() * 8,
    ensures
        final(buffer)@.len() == old(buffer)@.len(),
        lsb_bits(final(buffer)@) == lsb_bits(old(buffer)@).update(index as int, value),
{
    proof {
        lemma_index_split(index);
    }
    let byte_index = index >> 3;
    let offset = (index & 0x07) as u8;
    let mask = 1u8 << offset;
    let old_byte = buffer[byte_index];
    let new_byte = if value {
        old_byte | mask
    } else {
        old_byte & !mask
    };
    proof {
        lemma_byte_set_bit(old_byte, offset, value);
        assert(new_byte == byte_with_bit(old_byte, offset, value));
        lemma_lsb_set(buffer@, index as int, value, new_byte);
    }
    buffer.set(byte_index, new_byte);
}

/// Returns bit `index` (least significant bit first) of `buffer`.
pub fn get_bit(buffer: &[u8], index: usize) -> (r: bool)
    requires
        index < buffer@.len() * 8,
    ensures
        r == lsb_bits(buffer@)[index as int],
{
    proof {
        lemma_index_split(index);
    }
    let byte_index = index >> 3;
    let offset = (index & 0x07) as u8;
    let byte = buffer[byte_index];
    let r = ((byte >> offset) & 1) != 0;
    assert(r == ((byte >> offset) & 1u8 == 1u8)) by (bit_vector)
        requires
            r == (((byte >> offset) & 1u8) != 0u8),
    ;
    r
}

} // verus!
