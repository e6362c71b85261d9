//! Byte-level vocabulary shared by every table: little-endian fields, byte
//! sums, and copies into a buffer.

use vstd::arithmetic::power::pow;
use vstd::prelude::*;

verus! {

/// The `width` low bytes of `value`, least significant byte first.
pub open spec fn le_bytes(value: nat, width: nat) -> Seq<u8>
    decreases width,
{
    if width == 0 {
        Seq::empty()
    } else {
        seq![(value % 256) as u8] + le_bytes(value / 256, (width - 1) as nat)
    }
}

/// The number that a little-endian byte string stands for.
pub open spec fn le_value(bytes: Seq<u8>) -> nat
    decreases bytes.len(),
{
    if bytes.len() == 0 {
        0
    } else {
        bytes[0] as nat + 256 * le_value(bytes.drop_first())
    }
}

/// The sum of all bytes, without wrapping.
pub open spec fn byte_sum(bytes: Seq<u8>) -> nat
    decreases bytes.len(),
{
    if bytes.len() == 0 {
        0
    } else {
        byte_sum(bytes.drop_last()) + bytes.last() as nat
    }
}

/// `count` zero bytes.
pub open spec fn zeros(count: nat) -> Seq<u8> {
    Seq::new(count, |i: int| 0u8)
}

/// `buffer` with `bytes` in place of what stood from `at` on.
pub open spec fn splice(buffer: Seq<u8>, at: int, bytes: Seq<u8>) -> Seq<u8> {
    buffer.take(at) + bytes + buffer.skip(at + bytes.len())
}

/// A little-endian field is as long as its width says.
pub broadcast proof fn lemma_le_bytes_len(value: nat, width: nat)
    ensures
        #[trigger] le_bytes(value, width).len() == width,
    decreases width,
{
    if width > 0 {
        lemma_le_bytes_len(value / 256, (width - 1) as nat);
    }
}

/// Reading a little-endian field gives back the number that was written, as
/// long as the number fits the width.
pub proof fn le_field_reads_back(value: nat, width: nat)
    requires
        value < pow(256, width),
    ensures
        le_value(le_bytes(value, width)) == value,
    decreases width,
{
    reveal(pow);
    if width > 0 {
        let rest = le_bytes(value / 256, (width - 1) as nat);
        assert(value / 256 < pow(256, (width - 1) as nat));
        le_field_reads_back(value / 256, (width - 1) as nat);
        assert(le_bytes(value, width).drop_first() =~= rest);
    }
}

/// Replacing one byte moves the byte sum by the difference.
pub proof fn lemma_byte_sum_update(bytes: Seq<u8>, at: int, value: u8)
    requires
        0 <= at < bytes.len(),
    ensures
        byte_sum(bytes.update(at, value)) == byte_sum(bytes) - bytes[at] + value,
    decreases bytes.len(),
{
    let updated = bytes.update(at, value);
    if at == bytes.len() - 1 {
        assert(updated.drop_last() =~= bytes.drop_last());
    } else {
        assert(updated.drop_last() =~= bytes.drop_last().update(at, value));
        lemma_byte_sum_update(bytes.drop_last(), at, value);
    }
}

/// A 16-bit number as it stands in a table.
pub fn u16_le(value: u16) -> (out: [u8; 2])
    ensures
        out@ == le_bytes(value as nat, 2),
{
    let out = [(value % 256) as u8, (value / 256) as u8];
    proof {
        reveal_with_fuel(le_bytes, 3);
        assert(out@ =~= le_bytes(value as nat, 2));
    }
    out
}

/// A 32-bit number as it stands in a table.
pub fn u32_le(value: u32) -> (out: [u8; 4])
    ensures
        out@ == le_bytes(value as nat, 4),
{
    let low = u16_le((value % 0x1_0000) as u16);
    let high = u16_le((value / 0x1_0000) as u16);
    let out = [low[0], low[1], high[0], high[1]];
    proof {
        reveal_with_fuel(le_bytes, 5);
        assert(out@ =~= le_bytes(value as nat, 4));
    }
    out
}

/// A 64-bit number as it stands in a table.
pub fn u64_le(value: u64) -> (out: [u8; 8])
    ensures
        out@ == le_bytes(value as nat, 8),
{
    let from1: u64 = value / 256;
    let from2: u64 = from1 / 256;
    let from3: u64 = from2 / 256;
    let from4: u64 = from3 / 256;
    let from5: u64 = from4 / 256;
    let from6: u64 = from5 / 256;
    let from7: u64 = from6 / 256;
    let out = [
        (value % 256) as u8,
        (from1 % 256) as u8,
        (from2 % 256) as u8,
        (from3 % 256) as u8,
        (from4 % 256) as u8,
        (from5 % 256) as u8,
        (from6 % 256) as u8,
        (from7 % 256) as u8,
    ];
    proof {
        reveal_with_fuel(le_bytes, 9);
        assert(out@ =~= le_bytes(value as nat, 8));
    }
    out
}

/// Copies `src` into `dst`, starting at index `at`.
pub fn copy_into<const N: usize>(dst: &mut [u8; N], at: usize, src: &[u8])
    requires
        at + src@.len() <= N,
    ensures
        final(dst)@ == splice(old(dst)@, at as int, src@),
{
    let ghost before = dst@;
    let mut i: usize = 0;
    while i < src.len()
        invariant
            i <= src@.len(),
            at + src@.len() <= N,
            before.len() == N,
            dst@ == splice(before, at as int, src@.take(i as int)),
        decreases src@.len() - i,
    {
        dst[at + i] = src[i];
        i = i + 1;
        assert(dst@ =~= splice(before, at as int, src@.take(i as int)));
    }
    assert(src@.take(i as int) =~= src@);
}

/// Appends `count` zero bytes.
pub fn push_zeros(buffer: &mut Vec<u8>, count: usize)
    ensures
        final(buffer)@ == old(buffer)@ + zeros(count as nat),
{
    let ghost before = buffer@;
    let mut i: usize = 0;
    while i < count
        invariant
            i <= count,
            buffer@ == before + zeros(i as nat),
        decreases count - i,
    {
        buffer.push(0);
        i = i + 1;
        assert(buffer@ =~= before + zeros(i as nat));
    }
}

/// A 16-bit field has two bytes, and they weigh 1 and 256.
pub proof fn u16_field_weighs_its_bytes(value: u16, out: [u8; 2])
    requires
        call_ensures(u16_le, (value,), out),
    ensures
        out@[0] + 256 * out@[1] == value,
        call_requires(u16_le, (value,)),
{
    reveal_with_fuel(le_bytes, 3);
}

/// A 32-bit field has four bytes, and each weighs 256 times the one before.
pub proof fn u32_field_weighs_its_bytes(value: u32, out: [u8; 4])
    requires
        call_ensures(u32_le, (value,), out),
    ensures
        out@[0] + 256 * (out@[1] + 256 * (out@[2] + 256 * out@[3])) == value,
        call_requires(u32_le, (value,)),
{
    lemma_le_bytes_4(value as nat);
}

/// A 64-bit field has eight bytes, and each weighs 256 times the one before.
pub proof fn u64_field_weighs_its_bytes(value: u64, out: [u8; 8])
    requires
        call_ensures(u64_le, (value,), out),
    ensures
        out@[0] + 256 * (out@[1] + 256 * (out@[2] + 256 * (out@[3] + 256 * (out@[4] + 256 * (
        out@[5] + 256 * (out@[6] + 256 * out@[7])))))) == value,
        call_requires(u64_le, (value,)),
{
    lemma_le_bytes_8(value as nat);
}

/// The two bytes of a 16-bit field.
pub proof fn lemma_le_bytes_2(value: nat)
    requires
        value < 0x1_0000,
    ensures
        le_bytes(value, 2).len() == 2,
        le_bytes(value, 2)[0] + 256 * le_bytes(value, 2)[1] == value,
{
    reveal_with_fuel(le_bytes, 3);
}

/// The four bytes of a 32-bit field.
pub proof fn lemma_le_bytes_4(value: nat)
    requires
        value < 0x1_0000_0000,
    ensures
        ({
            let field = le_bytes(value, 4);
            &&& field.len() == 4
            &&& field[0] + 256 * (field[1] + 256 * (field[2] + 256 * field[3])) == value
        }),
{
    lemma_le_bytes_2(value / 256 / 256);
    let field = le_bytes(value, 4);
    let from1 = le_bytes(value / 256, 3);
    let from2 = le_bytes(value / 256 / 256, 2);
    assert(field =~= seq![(value % 256) as u8] + from1);
    assert(from1 =~= seq![(value / 256 % 256) as u8] + from2);
    assert(field[1] == from1[0] && field[2] == from2[0] && field[3] == from2[1]);
}

/// The eight bytes of a 64-bit field.
pub proof fn lemma_le_bytes_8(value: nat)
    requires
        value < 0x1_0000_0000_0000_0000,
    ensures
        ({
            let field = le_bytes(value, 8);
            &&& field.len() == 8
            &&& field[0] + 256 * (field[1] + 256 * (field[2] + 256 * (field[3] + 256 * (field[4]
                + 256 * (field[5] + 256 * (field[6] + 256 * field[7])))))) == value
        }),
{
    let v1 = value / 256;
    let v2 = v1 / 256;
    let v3 = v2 / 256;
    let v4 = v3 / 256;
    lemma_le_bytes_4(v4);
    let field = le_bytes(value, 8);
    let from1 = le_bytes(v1, 7);
    let from2 = le_bytes(v2, 6);
    let from3 = le_bytes(v3, 5);
    let from4 = le_bytes(v4, 4);
    assert(field =~= seq![(value % 256) as u8] + from1);
    assert(from1 =~= seq![(v1 % 256) as u8] + from2);
    assert(from2 =~= seq![(v2 % 256) as u8] + from3);
    assert(from3 =~= seq![(v3 % 256) as u8] + from4);
    assert(field[1] == from1[0] && field[2] == from2[0] && field[3] == from3[0]);
    assert(field[4] == from4[0] && field[5] == from4[1] && field[6] == from4[2] && field[7]
        == from4[3]);
}

/// A copy puts every byte of the source in its place and leaves every other
/// byte of the buffer as it was.
pub proof fn copy_moves_only_its_own_range<const N: usize>(
    dst: &mut [u8; N],
    at: usize,
    src: &[u8],
    i: int,
)
    requires
        at + src@.len() <= N,
        call_ensures(copy_into::<N>, (dst, at, src), ()),
        0 <= i < N,
    ensures
        at <= i < at + src@.len() ==> final(dst)@[i] == src@[i - at],
        i < at || at + src@.len() <= i ==> final(dst)@[i] == old(dst)@[i],
        call_requires(copy_into::<N>, (dst, at, src)),
{
}

/// Padding keeps what the buffer held and adds as many zeros as it was asked
/// for.
pub proof fn padding_adds_only_zeros(buffer: &mut Vec<u8>, count: usize, i: int)
    requires
        call_ensures(push_zeros, (buffer, count), ()),
    ensures
        final(buffer)@.len() == old(buffer)@.len() + count,
        0 <= i < old(buffer)@.len() ==> final(buffer)@[i] == old(buffer)@[i],
        old(buffer)@.len() <= i < old(buffer)@.len() + count ==> final(buffer)@[i] == 0,
        call_requires(push_zeros, (buffer, count)),
{
}

/// The byte sum of no bytes is zero, and one more byte adds exactly itself.
pub proof fn byte_sum_counts_every_byte(bytes: Seq<u8>, last: u8)
    ensures
        byte_sum(Seq::<u8>::empty()) == 0,
        byte_sum(bytes.push(last)) == byte_sum(bytes) + last,
{
    assert(bytes.push(last).drop_last() =~= bytes);
}

} // verus!
