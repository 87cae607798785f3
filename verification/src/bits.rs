//! Arithmetic of the 64-bit packing word: pushing bit fields into it,
//! aligning the packed value to the front of the payload and splitting the
//! word into its eight bytes.

use vstd::arithmetic::power2::{lemma2_to64, lemma2_to64_rest, pow2};
use vstd::prelude::*;

verus! {

/// Number of bytes in a frame's data field.
pub const PAYLOAD_BYTES: usize = 8;

/// Number of bits in the packing word.
pub const WORD_BITS: u32 = 64;

/// The word after one more field: `acc` moves `width` bits to the left and
/// `value` is ored into the freed bits. Bits pushed past the top are lost.
pub open spec fn push_field(acc: u64, width: nat, value: u64) -> u64 {
    if width >= 64 {
        value
    } else {
        (acc << (width as u64)) | value
    }
}

/// The word that holds `values`, first value in the most significant place,
/// where value `i` is pushed as a field of `widths[i]` bits.
pub open spec fn pack_fields(widths: Seq<nat>, values: Seq<u64>) -> u64
    recommends
        widths.len() == values.len(),
    decreases widths.len(),
{
    if widths.len() == 0 {
        0
    } else {
        push_field(pack_fields(widths.drop_last(), values.drop_last()), widths.last(), values.last())
    }
}

/// Sum of the field widths.
pub open spec fn total_width(widths: Seq<nat>) -> nat
    decreases widths.len(),
{
    if widths.len() == 0 {
        0
    } else {
        total_width(widths.drop_last()) + widths.last()
    }
}

/// Largest value that `num_bytes` bytes can hold: `2^(8 * num_bytes) - 1`.
pub open spec fn byte_range_max(num_bytes: nat) -> nat {
    (pow2(8 * num_bytes) - 1) as nat
}

/// `acc`, which holds `used_bytes` bytes of payload in its low bits, moved so
/// that the payload starts at the most significant byte of the word.
pub open spec fn align_left(acc: u64, used_bytes: nat) -> u64 {
    if used_bytes == 0 {
        0
    } else if used_bytes >= 8 {
        acc
    } else {
        acc << ((64 - 8 * used_bytes) as u64)
    }
}

/// Byte `i` of `word`, counted from the most significant one.
pub open spec fn be_byte(word: u64, i: int) -> u8 {
    ((word >> ((56 - 8 * i) as u64)) & 0xff) as u8
}

/// The eight bytes of `word`, most significant first.
pub open spec fn be_bytes(word: u64) -> Seq<u8> {
    Seq::new(8, |i: int| be_byte(word, i))
}

/// Pushes one field into the packing word.
pub fn push(acc: u64, width: u32, value: u64) -> (r: u64)
    ensures
        r == push_field(acc, width as nat, value),
{
    if width >= WORD_BITS {
        value
    } else {
        (acc << width) | value
    }
}

/// The largest value of `num_bytes` bytes, or of the whole word where
/// `num_bytes` bytes are more than the word has.
pub fn byte_range_limit(num_bytes: u8) -> (r: u64)
    ensures
        num_bytes < 8 ==> r == byte_range_max(num_bytes as nat),
        num_bytes >= 8 ==> r == u64::MAX && r <= byte_range_max(num_bytes as nat),
{
    proof {
        lemma_byte_range_max(num_bytes as nat);
    }
    if num_bytes >= 8 {
        u64::MAX
    } else {
        let bits: u32 = 8 * (num_bytes as u32);
        let top: u64 = 1u64 << bits;
        assert(top == pow2(bits as nat)) by {
            lemma_one_shl_is_pow2(bits as u64);
        }
        top - 1
    }
}

/// Moves the packed payload to the front of the word.
pub fn align(acc: u64, used_bytes: usize) -> (r: u64)
    requires
        used_bytes <= PAYLOAD_BYTES,
    ensures
        r == align_left(acc, used_bytes as nat),
{
    if used_bytes == 0 {
        0
    } else if used_bytes >= PAYLOAD_BYTES {
        acc
    } else {
        let shift: u32 = WORD_BITS - 8 * (used_bytes as u32);
        acc << shift
    }
}

/// Splits the word into its eight bytes, most significant first.
pub fn to_be_bytes(word: u64) -> (r: Vec<u8>)
    ensures
        r@ == be_bytes(word),
{
    let mut out: Vec<u8> = Vec::new();
    let mut i: u32 = 0;
    while i < 8
        invariant
            i <= 8,
            out.len() == i,
            forall|k: int| 0 <= k < i ==> out[k] == be_byte(word, k),
        decreases 8 - i,
    {
        let shift: u32 = 56 - 8 * i;
        let byte: u8 = ((word >> shift) & 0xff) as u8;
        out.push(byte);
        i = i + 1;
    }
    assert(out@ =~= be_bytes(word));
    out
}

/// `1 << n` is `2^n` for every shift that stays inside the word.
pub proof fn lemma_one_shl_is_pow2(n: u64)
    requires
        n < 64,
    ensures
        1u64 << n == pow2(n as nat),
{
    lemma2_to64();
    lemma2_to64_rest();
    vstd::bits::lemma_u64_pow2_no_overflow(n as nat);
    vstd::bits::lemma_u64_shl_is_mul(1u64, n);
}

/// The byte range grows with the number of bytes, and from eight bytes on
/// it holds every value of the word.
pub proof fn lemma_byte_range_max(num_bytes: nat)
    ensures
        num_bytes < 8 ==> byte_range_max(num_bytes) < u64::MAX,
        num_bytes >= 8 ==> byte_range_max(num_bytes) >= u64::MAX,
        byte_range_max(num_bytes) + 1 == pow2(8 * num_bytes),
{
    lemma2_to64();
    lemma2_to64_rest();
    vstd::arithmetic::power2::lemma_pow2_pos(8 * num_bytes);
    if num_bytes < 8 {
        vstd::arithmetic::power2::lemma_pow2_strictly_increases(8 * num_bytes, 64);
    } else if num_bytes > 8 {
        vstd::arithmetic::power2::lemma_pow2_strictly_increases(64, 8 * num_bytes);
    }
}

/// Packing one field more: the word of the first `i + 1` fields is the word
/// of the first `i` with field `i` pushed into it.
pub proof fn lemma_pack_fields_step(widths: Seq<nat>, values: Seq<u64>, i: int)
    requires
        0 <= i < widths.len(),
        i < values.len(),
    ensures
        pack_fields(widths.take(i + 1), values.take(i + 1)) == push_field(
            pack_fields(widths.take(i), values.take(i)),
            widths[i],
            values[i],
        ),
{
    assert(widths.take(i + 1).drop_last() =~= widths.take(i));
    assert(values.take(i + 1).drop_last() =~= values.take(i));
}

/// A single field packs into its own value.
pub proof fn lemma_pack_single_field(width: nat, value: u64)
    ensures
        pack_fields(seq![width], seq![value]) == value,
{
    let widths = seq![width];
    let values = seq![value];
    assert(widths.drop_last() =~= Seq::<nat>::empty());
    assert(pack_fields(widths.drop_last(), values.drop_last()) == 0);
    if width < 64 {
        let w = width as u64;
        assert((0u64 << w) | value == value) by (bit_vector);
    }
}

/// Two fields of one bit each pack into `(a << 1) | b`: the field that comes
/// first takes the more significant bit.
pub proof fn lemma_pack_two_single_bits(a: u64, b: u64)
    ensures
        pack_fields(seq![1nat, 1nat], seq![a, b]) == (a << 1u64) | b,
{
    let widths = seq![1nat, 1nat];
    let values = seq![a, b];
    assert(widths.drop_last() =~= seq![1nat]);
    assert(values.drop_last() =~= seq![a]);
    lemma_pack_single_field(1, a);
}

/// Every value is smaller than two to the width of its field.
pub open spec fn fields_fit(widths: Seq<nat>, values: Seq<u64>) -> bool {
    &&& widths.len() == values.len()
    &&& forall|i: int| 0 <= i < widths.len() ==> values[i] < pow2(#[trigger] widths[i])
}

/// The number that `values` spell where value `i` is a digit of
/// `widths[i]` bits, the first value in the most significant place.
pub open spec fn positional(widths: Seq<nat>, values: Seq<u64>) -> nat
    recommends
        widths.len() == values.len(),
    decreases widths.len(),
{
    if widths.len() == 0 {
        0
    } else {
        positional(widths.drop_last(), values.drop_last()) * pow2(widths.last())
            + values.last() as nat
    }
}

/// Where every value fits its field and the fields fit the word, nothing is
/// lost in packing: the word is the number that the values spell, and it has
/// no more bits than the fields have together.
pub proof fn lemma_pack_fields_is_positional(widths: Seq<nat>, values: Seq<u64>)
    requires
        fields_fit(widths, values),
        total_width(widths) <= 64,
    ensures
        pack_fields(widths, values) == positional(widths, values),
        positional(widths, values) < pow2(total_width(widths)),
    decreases widths.len(),
{
    lemma2_to64();
    lemma2_to64_rest();
    if widths.len() > 0 {
        let head_widths = widths.drop_last();
        let head_values = values.drop_last();
        let width = widths.last();
        let value = values.last();
        let used = total_width(head_widths);
        assert forall|i: int| 0 <= i < head_widths.len() implies head_values[i] < pow2(
            #[trigger] head_widths[i],
        ) by {
            assert(head_widths[i] == widths[i]);
        }
        lemma_pack_fields_is_positional(head_widths, head_values);
        let acc = pack_fields(head_widths, head_values);
        assert(value < pow2(width)) by {
            assert(width == widths[widths.len() - 1]);
        }
        vstd::arithmetic::power2::lemma_pow2_adds(used, width);
        assert(acc * pow2(width) + value < pow2(used) * pow2(width)) by (nonlinear_arith)
            requires
                acc < pow2(used),
                value < pow2(width),
        ;
        if width >= 64 {
            assert(used == 0);
            assert(acc == 0);
            assert(acc * pow2(width) == 0) by (nonlinear_arith)
                requires
                    acc == 0,
            ;
        } else {
            let w = width as u64;
            let t = used as u64;
            lemma_one_shl_is_pow2(w);
            assert(acc * pow2(width) <= u64::MAX) by {
                if used + width < 64 {
                    vstd::arithmetic::power2::lemma_pow2_strictly_increases(used + width, 64);
                }
            }
            vstd::bits::lemma_u64_shl_is_mul(acc, w);
            if t < 64 {
                lemma_one_shl_is_pow2(t);
                assert((acc << w) | value == (acc << w) + value) by (bit_vector)
                    requires
                        t + w <= 64,
                        t < 64,
                        w < 64,
                        acc < (1u64 << t),
                        value < (1u64 << w),
                ;
            } else {
                assert(w == 0);
                assert(value == 0);
                assert((acc << w) | value == (acc << w) + value) by (bit_vector)
                    requires
                        value == 0,
                ;
            }
        }
    }
}

/// The packed bytes of the payload are the low bytes of the packed word, in
/// the order in which the word holds them.
pub proof fn lemma_aligned_head_is_word(acc: u64, used_bytes: nat, i: int)
    requires
        used_bytes <= 8,
        0 <= i < used_bytes,
    ensures
        be_byte(align_left(acc, used_bytes), i) == be_byte(acc, 8 - used_bytes + i),
{
    if used_bytes < 8 {
        let up = (64 - 8 * used_bytes) as u64;
        let down = (56 - 8 * i) as u64;
        let low = (8 * (used_bytes - 1 - i)) as u64;
        assert(((acc << up) >> down) & 0xff == (acc >> low) & 0xff) by (bit_vector)
            requires
                up <= down,
                down <= 56,
                low == down - up,
        ;
    }
}

/// The bytes of the payload behind the packed ones are zero.
pub proof fn lemma_aligned_tail_is_zero(acc: u64, used_bytes: nat, i: int)
    requires
        used_bytes <= 8,
        used_bytes <= i < 8,
    ensures
        be_byte(align_left(acc, used_bytes), i) == 0,
{
    let down = (56 - 8 * i) as u64;
    if used_bytes == 0 {
        assert((0u64 >> down) & 0xff == 0) by (bit_vector);
    } else {
        let up = (64 - 8 * used_bytes) as u64;
        assert(((acc << up) >> down) & 0xff == 0) by (bit_vector)
            requires
                down + 8 <= up,
                up < 64,
        ;
    }
}

} // verus!
