//! What every system description table shares: the checksum byte and the
//! 36-byte header.

use crate::bytes::{self, copy_into, u32_le};
use vstd::prelude::*;

verus! {

broadcast use crate::bytes::lemma_le_bytes_len;

/// Length of the header that every system description table starts with.
pub const HEADER_LEN: usize = 36;

/// Index of the checksum byte in that header.
pub const CHECKSUM_OFFSET: usize = 9;

/// `LIBKRN`.
pub const OEM_ID: [u8; 6] = [
    'L' as u8,
    'I' as u8,
    'B' as u8,
    'K' as u8,
    'R' as u8,
    'N' as u8,
];

/// `KRUN`.
pub const CREATOR_ID: [u8; 4] = ['K' as u8, 'R' as u8, 'U' as u8, 'N' as u8];

/// Revision that stands both for the OEM and for the creator of a table.
pub const OEM_REVISION: u32 = 1;

/// The byte that brings the byte sum of `bytes` up to a multiple of 256.
pub open spec fn checksum_byte(bytes: Seq<u8>) -> u8 {
    ((256 - bytes::byte_sum(bytes) % 256) % 256) as u8
}

/// `bytes` with the checksum of all of them stored at index `at`.
pub open spec fn with_checksum(bytes: Seq<u8>, at: int) -> Seq<u8> {
    bytes.update(at, checksum_byte(bytes))
}

/// The header of a table of `length` bytes, its checksum byte still zero.
pub open spec fn header(signature: Seq<u8>, length: nat, revision: u8, table_id: Seq<u8>) -> Seq<
    u8,
> {
    signature + bytes::le_bytes(length, 4) + seq![revision, 0u8] + OEM_ID@ + table_id
        + bytes::le_bytes(OEM_REVISION as nat, 4) + CREATOR_ID@ + bytes::le_bytes(
        OEM_REVISION as nat,
        4,
    )
}

/// A finished table: header, body, and the checksum over both in its place.
pub open spec fn table(signature: Seq<u8>, revision: u8, table_id: Seq<u8>, body: Seq<u8>) -> Seq<
    u8,
> {
    with_checksum(
        header(signature, HEADER_LEN as nat + body.len(), revision, table_id) + body,
        CHECKSUM_OFFSET as int,
    )
}

/// Once the checksum byte takes the place of a zero, the byte sum is a
/// multiple of 256.
pub proof fn checksum_closes_the_sum(bytes: Seq<u8>, at: int)
    requires
        0 <= at < bytes.len(),
        bytes[at] == 0,
    ensures
        bytes::byte_sum(with_checksum(bytes, at)) % 256 == 0,
{
    bytes::lemma_byte_sum_update(bytes, at, checksum_byte(bytes));
    let sum = bytes::byte_sum(bytes);
    assert((sum + (256 - sum % 256) % 256) % 256 == 0);
}

/// Every finished table is as long as its header says, starts with its
/// signature, and its bytes sum to a multiple of 256.
pub proof fn table_is_well_formed(
    signature: Seq<u8>,
    revision: u8,
    table_id: Seq<u8>,
    body: Seq<u8>,
)
    requires
        signature.len() == 4,
        table_id.len() == 8,
        HEADER_LEN + body.len() <= u32::MAX,
    ensures
        ({
            let bytes = table(signature, revision, table_id, body);
            &&& bytes.len() == HEADER_LEN + body.len()
            &&& bytes.subrange(0, 4) == signature
            &&& bytes::le_value(bytes.subrange(4, 8)) == bytes.len()
            &&& bytes.skip(HEADER_LEN as int) == body
            &&& bytes::byte_sum(bytes) % 256 == 0
        }),
{
    let length = HEADER_LEN as nat + body.len();
    let head = header(signature, length, revision, table_id);
    let bytes = table(signature, revision, table_id, body);
    assert(head.len() == HEADER_LEN);
    assert((head + body)[CHECKSUM_OFFSET as int] == 0);
    checksum_closes_the_sum(head + body, CHECKSUM_OFFSET as int);
    assert(bytes.subrange(0, 4) =~= signature);
    assert(bytes.subrange(4, 8) =~= bytes::le_bytes(length, 4));
    assert(vstd::arithmetic::power::pow(256, 4) == 0x1_0000_0000) by {
        reveal_with_fuel(vstd::arithmetic::power::pow, 5);
    }
    bytes::le_field_reads_back(length, 4);
    assert(bytes.skip(HEADER_LEN as int) =~= body);
}

/// The checksum of `data`: with it added, the bytes sum to a multiple of 256.
pub fn acpi_checksum(data: &[u8]) -> (out: u8)
    ensures
        out == checksum_byte(data@),
        (bytes::byte_sum(data@) + out) % 256 == 0,
{
    let mut sum: u8 = 0;
    let mut i: usize = 0;
    while i < data.len()
        invariant
            i <= data@.len(),
            sum == bytes::byte_sum(data@.take(i as int)) % 256,
        decreases data@.len() - i,
    {
        assert(data@.take(i + 1).drop_last() =~= data@.take(i as int));
        sum = sum.wrapping_add(data[i]);
        i = i + 1;
    }
    assert(data@.take(i as int) =~= data@);
    assert(!sum == 255 - sum) by (bit_vector);
    (!sum).wrapping_add(1)
}

/// The header of a table of `length` bytes, its checksum byte still zero.
pub fn acpi_header(signature: &[u8; 4], length: u32, revision: u8, table_id: &[u8; 8]) -> (hdr: [u8;
    36])
    ensures
        hdr@ == header(signature@, length as nat, revision, table_id@),
{
    let mut hdr = [0u8;36];
    copy_into(&mut hdr, 0, signature);
    copy_into(&mut hdr, 4, &u32_le(length));
    hdr[8] = revision;
    copy_into(&mut hdr, 10, &OEM_ID);
    copy_into(&mut hdr, 16, table_id);
    copy_into(&mut hdr, 24, &u32_le(OEM_REVISION));
    copy_into(&mut hdr, 28, &CREATOR_ID);
    copy_into(&mut hdr, 32, &u32_le(OEM_REVISION));
    assert(hdr@ =~= header(signature@, length as nat, revision, table_id@));
    hdr
}

/// Byte by byte what a finished table holds.
pub proof fn lemma_table_bytes(signature: Seq<u8>, revision: u8, table_id: Seq<u8>, body: Seq<u8>)
    requires
        signature.len() == 4,
        table_id.len() == 8,
        36 + body.len() <= u32::MAX,
    ensures
        ({
            let t = table(signature, revision, table_id, body);
            &&& t.len() == 36 + body.len()
            &&& t.subrange(0, 4) == signature
            &&& t[4] + 256 * (t[5] + 256 * (t[6] + 256 * t[7])) == t.len()
            &&& t[8] == revision
            &&& t.subrange(10, 16) == seq![0x4Cu8, 0x49, 0x42, 0x4B, 0x52, 0x4E]
            &&& t.subrange(16, 24) == table_id
            &&& t.subrange(24, 36) == seq![1u8, 0, 0, 0, 0x4B, 0x52, 0x55, 0x4E, 1, 0, 0, 0]
            &&& t.skip(36) == body
            &&& checksum_byte(t) == 0
        }),
{
    let length = 36 + body.len();
    let head = header(signature, length, revision, table_id);
    let t = table(signature, revision, table_id, body);
    table_is_well_formed(signature, revision, table_id, body);
    bytes::lemma_le_bytes_4(length);
    let field = bytes::le_bytes(length, 4);
    assert(t[4] == field[0] && t[5] == field[1] && t[6] == field[2] && t[7] == field[3]);
    assert(t.subrange(10, 16) =~= OEM_ID@);
    assert(OEM_ID@ =~= seq![0x4Cu8, 0x49, 0x42, 0x4B, 0x52, 0x4E]);
    assert(t.subrange(16, 24) =~= table_id);
    let one = bytes::le_bytes(1, 4);
    assert(one =~= seq![1u8, 0, 0, 0]) by {
        reveal_with_fuel(bytes::le_bytes, 5);
    }
    assert(t.subrange(24, 36) =~= one + CREATOR_ID@ + one);
    assert(CREATOR_ID@ =~= seq![0x4Bu8, 0x52, 0x55, 0x4E]);
    assert(t.subrange(24, 36) =~= seq![1u8, 0, 0, 0, 0x4B, 0x52, 0x55, 0x4E, 1, 0, 0, 0]);
}

/// The checksum of no bytes is zero, and each further byte lowers it by that
/// byte, modulo 256.
pub proof fn checksum_falls_by_every_byte(
    data: &[u8],
    out: u8,
    last: u8,
    longer: &[u8],
    longer_out: u8,
)
    requires
        call_ensures(acpi_checksum, (data,), out),
        call_ensures(acpi_checksum, (longer,), longer_out),
        longer@ == data@.push(last),
    ensures
        data@.len() == 0 ==> out == 0,
        (longer_out + last) % 256 == out,
        call_requires(acpi_checksum, (data,)),
{
    bytes::byte_sum_counts_every_byte(data@, last);
}

/// Bytes whose checksum is added to them have the checksum zero.
pub proof fn checksum_of_summed_bytes_is_zero(data: &[u8], out: u8, summed: &[u8], summed_out: u8)
    requires
        call_ensures(acpi_checksum, (data,), out),
        call_ensures(acpi_checksum, (summed,), summed_out),
        summed@ == data@.push(out),
    ensures
        summed_out == 0,
{
    bytes::byte_sum_counts_every_byte(data@, out);
}

/// The header holds, in this order: the signature, the length with the lowest
/// byte first, the revision, a zero for the checksum, `LIBKRN`, the table ID,
/// revision 1, `KRUN`, revision 1.
pub proof fn header_holds_every_field(
    signature: &[u8; 4],
    length: u32,
    revision: u8,
    table_id: &[u8; 8],
    hdr: [u8; 36],
)
    requires
        call_ensures(acpi_header, (signature, length, revision, table_id), hdr),
    ensures
        hdr@.subrange(0, 4) == signature@,
        hdr@[4] + 256 * (hdr@[5] + 256 * (hdr@[6] + 256 * hdr@[7])) == length,
        hdr@[8] == revision,
        hdr@[9] == 0,
        hdr@.subrange(10, 16) == seq![0x4Cu8, 0x49, 0x42, 0x4B, 0x52, 0x4E],
        hdr@.subrange(16, 24) == table_id@,
        hdr@.subrange(24, 36) == seq![1u8, 0, 0, 0, 0x4B, 0x52, 0x55, 0x4E, 1, 0, 0, 0],
        call_requires(acpi_header, (signature, length, revision, table_id)),
{
    let field = bytes::le_bytes(length as nat, 4);
    bytes::lemma_le_bytes_4(length as nat);
    assert(hdr@[4] == field[0] && hdr@[5] == field[1] && hdr@[6] == field[2] && hdr@[7]
        == field[3]);
    assert(hdr@.subrange(0, 4) =~= signature@);
    assert(hdr@.subrange(10, 16) =~= OEM_ID@);
    assert(hdr@.subrange(16, 24) =~= table_id@);
    let one = bytes::le_bytes(1, 4);
    assert(one =~= seq![1u8, 0, 0, 0]) by {
        reveal_with_fuel(bytes::le_bytes, 5);
    }
    assert(hdr@.subrange(24, 36) =~= one + CREATOR_ID@ + one);
}

} // verus!
