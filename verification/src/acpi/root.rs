//! The tables that lead a guest to the others: RSDP, XSDT and FADT.

use super::sdt::{self, acpi_checksum, acpi_header, OEM_ID};
use crate::bytes::{self, copy_into, push_zeros, u32_le, u64_le};
use vstd::prelude::*;

verus! {

broadcast use crate::bytes::lemma_le_bytes_len;

/// Length of the FADT.
pub const FADT_LEN: usize = 276;

/// Index of the feature flags in the FADT.
pub const FADT_FLAGS_OFFSET: usize = 112;

/// Index of the 64-bit address of the DSDT in the FADT.
pub const FADT_X_DSDT_OFFSET: usize = 140;

/// Feature flag: the machine has none of the fixed ACPI hardware.
pub const HW_REDUCED_ACPI: u32 = 0x0010_0000;

/// `RSD PTR `.
pub const RSDP_SIGNATURE: [u8; 8] = [
    'R' as u8,
    'S' as u8,
    'D' as u8,
    ' ' as u8,
    'P' as u8,
    'T' as u8,
    'R' as u8,
    ' ' as u8,
];

/// Length of the RSDP.
pub const RSDP_LEN: usize = 36;

/// Length of the part of the RSDP that its first checksum covers.
pub const RSDP_V1_LEN: usize = 20;

/// Revision of the RSDP: ACPI 2.0 or later.
pub const RSDP_REVISION: u8 = 2;

/// Index of the first checksum in the RSDP.
pub const RSDP_CHECKSUM_OFFSET: usize = 8;

/// Index of the checksum over the whole RSDP.
pub const RSDP_EXT_CHECKSUM_OFFSET: usize = 32;

/// `XSDT`.
pub const XSDT_SIGNATURE: [u8; 4] = ['X' as u8, 'S' as u8, 'D' as u8, 'T' as u8];

/// `KRUNXSDT`.
pub const XSDT_TABLE_ID: [u8; 8] = [
    'K' as u8,
    'R' as u8,
    'U' as u8,
    'N' as u8,
    'X' as u8,
    'S' as u8,
    'D' as u8,
    'T' as u8,
];

/// Revision of the XSDT.
pub const XSDT_REVISION: u8 = 1;

/// Length of an XSDT with two entries.
pub const XSDT_LEN: usize = 52;

/// `FACP`.
pub const FADT_SIGNATURE: [u8; 4] = ['F' as u8, 'A' as u8, 'C' as u8, 'P' as u8];

/// `KRUNFACP`.
pub const FADT_TABLE_ID: [u8; 8] = [
    'K' as u8,
    'R' as u8,
    'U' as u8,
    'N' as u8,
    'F' as u8,
    'A' as u8,
    'C' as u8,
    'P' as u8,
];

/// Revision of the FADT.
pub const FADT_REVISION: u8 = 6;

/// The RSDP with both checksum bytes still zero.
pub open spec fn rsdp_fields(xsdt_addr: u64) -> Seq<u8> {
    RSDP_SIGNATURE@ + seq![0u8] + OEM_ID@ + seq![RSDP_REVISION] + bytes::zeros(4)
        + bytes::le_bytes(RSDP_LEN as nat, 4) + bytes::le_bytes(xsdt_addr as nat, 8)
        + bytes::zeros(4)
}

/// The RSDP with its first checksum in place.
pub open spec fn rsdp_half_summed(xsdt_addr: u64) -> Seq<u8> {
    let fields = rsdp_fields(xsdt_addr);
    fields.update(
        RSDP_CHECKSUM_OFFSET as int,
        sdt::checksum_byte(fields.take(RSDP_V1_LEN as int)),
    )
}

/// The RSDP (Root System Description Pointer), which points at the XSDT.
pub open spec fn rsdp(xsdt_addr: u64) -> Seq<u8> {
    sdt::with_checksum(rsdp_half_summed(xsdt_addr), RSDP_EXT_CHECKSUM_OFFSET as int)
}

/// The XSDT (Extended System Description Table), which lists FADT and MADT.
pub open spec fn xsdt(fadt_addr: u64, madt_addr: u64) -> Seq<u8> {
    sdt::table(
        XSDT_SIGNATURE@,
        XSDT_REVISION,
        XSDT_TABLE_ID@,
        bytes::le_bytes(fadt_addr as nat, 8) + bytes::le_bytes(madt_addr as nat, 8),
    )
}

/// What follows the header of the FADT: zeros but for the flags and the
/// address of the DSDT.
pub open spec fn fadt_body(dsdt_addr: u64) -> Seq<u8> {
    bytes::zeros((FADT_FLAGS_OFFSET - sdt::HEADER_LEN) as nat) + bytes::le_bytes(
        HW_REDUCED_ACPI as nat,
        4,
    ) + bytes::zeros((FADT_X_DSDT_OFFSET - FADT_FLAGS_OFFSET - 4) as nat) + bytes::le_bytes(
        dsdt_addr as nat,
        8,
    ) + bytes::zeros((FADT_LEN - FADT_X_DSDT_OFFSET - 8) as nat)
}

/// The FADT (Fixed ACPI Description Table), which points at the DSDT.
pub open spec fn fadt(dsdt_addr: u64) -> Seq<u8> {
    sdt::table(FADT_SIGNATURE@, FADT_REVISION, FADT_TABLE_ID@, fadt_body(dsdt_addr))
}

/// A 64-bit field reads back as the address that was written.
proof fn lemma_address_reads_back(addr: u64)
    ensures
        bytes::le_value(bytes::le_bytes(addr as nat, 8)) == addr,
{
    assert(vstd::arithmetic::power::pow(256, 8) == 0x1_0000_0000_0000_0000) by {
        reveal_with_fuel(vstd::arithmetic::power::pow, 9);
    }
    bytes::le_field_reads_back(addr as nat, 8);
}

/// A 32-bit field reads back as the number that was written.
proof fn lemma_u32_reads_back(value: u32)
    ensures
        bytes::le_value(bytes::le_bytes(value as nat, 4)) == value,
{
    assert(vstd::arithmetic::power::pow(256, 4) == 0x1_0000_0000) by {
        reveal_with_fuel(vstd::arithmetic::power::pow, 5);
    }
    bytes::le_field_reads_back(value as nat, 4);
}

/// Both checksums of the RSDP hold: its first 20 bytes and all of its 36 bytes
/// sum to a multiple of 256. It starts with its signature, and leads to the
/// XSDT.
pub proof fn rsdp_is_well_formed(xsdt_addr: u64)
    ensures
        rsdp(xsdt_addr).len() == RSDP_LEN,
        rsdp(xsdt_addr).subrange(0, 8) == RSDP_SIGNATURE@,
        bytes::byte_sum(rsdp(xsdt_addr).subrange(0, 20)) % 256 == 0,
        bytes::byte_sum(rsdp(xsdt_addr)) % 256 == 0,
        bytes::le_value(rsdp(xsdt_addr).subrange(20, 24)) == RSDP_LEN,
        bytes::le_value(rsdp(xsdt_addr).subrange(24, 32)) == xsdt_addr,
{
    let fields = rsdp_fields(xsdt_addr);
    let head = fields.take(RSDP_V1_LEN as int);
    let half = rsdp_half_summed(xsdt_addr);
    let whole = rsdp(xsdt_addr);
    assert(whole.subrange(0, 8) =~= RSDP_SIGNATURE@);
    assert(whole.subrange(0, 20) =~= sdt::with_checksum(head, RSDP_CHECKSUM_OFFSET as int));
    sdt::checksum_closes_the_sum(head, RSDP_CHECKSUM_OFFSET as int);
    sdt::checksum_closes_the_sum(half, RSDP_EXT_CHECKSUM_OFFSET as int);
    assert(whole.subrange(20, 24) =~= bytes::le_bytes(RSDP_LEN as nat, 4));
    lemma_u32_reads_back(RSDP_LEN as u32);
    assert(whole.subrange(24, 32) =~= bytes::le_bytes(xsdt_addr as nat, 8));
    lemma_address_reads_back(xsdt_addr);
}

/// The XSDT is a well-formed table that leads to the FADT and to the MADT.
pub proof fn xsdt_is_well_formed(fadt_addr: u64, madt_addr: u64)
    ensures
        ({
            let table = xsdt(fadt_addr, madt_addr);
            &&& table.len() == XSDT_LEN
            &&& table.subrange(0, 4) == XSDT_SIGNATURE@
            &&& bytes::le_value(table.subrange(4, 8)) == table.len()
            &&& bytes::byte_sum(table) % 256 == 0
            &&& bytes::le_value(table.subrange(36, 44)) == fadt_addr
            &&& bytes::le_value(table.subrange(44, 52)) == madt_addr
        }),
{
    let table = xsdt(fadt_addr, madt_addr);
    sdt::table_is_well_formed(
        XSDT_SIGNATURE@,
        XSDT_REVISION,
        XSDT_TABLE_ID@,
        bytes::le_bytes(fadt_addr as nat, 8) + bytes::le_bytes(madt_addr as nat, 8),
    );
    assert(table.subrange(36, 44) =~= bytes::le_bytes(fadt_addr as nat, 8));
    assert(table.subrange(44, 52) =~= bytes::le_bytes(madt_addr as nat, 8));
    lemma_address_reads_back(fadt_addr);
    lemma_address_reads_back(madt_addr);
}

/// The FADT is a well-formed table that declares reduced hardware and leads to
/// the DSDT.
pub proof fn fadt_is_well_formed(dsdt_addr: u64)
    ensures
        ({
            let table = fadt(dsdt_addr);
            &&& table.len() == FADT_LEN
            &&& table.subrange(0, 4) == FADT_SIGNATURE@
            &&& bytes::le_value(table.subrange(4, 8)) == table.len()
            &&& bytes::byte_sum(table) % 256 == 0
            &&& bytes::le_value(table.subrange(112, 116)) == HW_REDUCED_ACPI
            &&& bytes::le_value(table.subrange(140, 148)) == dsdt_addr
        }),
{
    let table = fadt(dsdt_addr);
    sdt::table_is_well_formed(
        FADT_SIGNATURE@,
        FADT_REVISION,
        FADT_TABLE_ID@,
        fadt_body(dsdt_addr),
    );
    assert(table.subrange(112, 116) =~= bytes::le_bytes(HW_REDUCED_ACPI as nat, 4));
    assert(table.subrange(140, 148) =~= bytes::le_bytes(dsdt_addr as nat, 8));
    lemma_u32_reads_back(HW_REDUCED_ACPI);
    lemma_address_reads_back(dsdt_addr);
}

/// The RSDP that points at an XSDT at `xsdt_addr`.
pub fn build_rsdp(xsdt_addr: u64) -> (out: [u8; 36])
    ensures
        out@ == rsdp(xsdt_addr),
{
    let mut out = [0u8;36];
    copy_into(&mut out, 0, &RSDP_SIGNATURE);
    copy_into(&mut out, 9, &OEM_ID);
    out[15] = RSDP_REVISION;
    copy_into(&mut out, 20, &u32_le(36));
    copy_into(&mut out, 24, &u64_le(xsdt_addr));
    assert(out@ =~= rsdp_fields(xsdt_addr));
    let first_checksum: u8 = acpi_checksum(&out[0..20]);
    out[8] = first_checksum;
    let checksum: u8 = acpi_checksum(&out);
    out[32] = checksum;
    out
}

/// The XSDT that lists a FADT at `fadt_addr` and a MADT at `madt_addr`.
pub fn build_xsdt(fadt_addr: u64, madt_addr: u64) -> (out: Vec<u8>)
    ensures
        out@ == xsdt(fadt_addr, madt_addr),
{
    let hdr = acpi_header(&XSDT_SIGNATURE, 36 + 16, XSDT_REVISION, &XSDT_TABLE_ID);
    let mut out: Vec<u8> = Vec::with_capacity(XSDT_LEN);
    out.extend_from_slice(&hdr);
    out.extend_from_slice(&u64_le(fadt_addr));
    out.extend_from_slice(&u64_le(madt_addr));
    assert(out@ =~= hdr@ + (bytes::le_bytes(fadt_addr as nat, 8) + bytes::le_bytes(
        madt_addr as nat,
        8,
    )));
    let checksum: u8 = acpi_checksum(&out);
    out[9] = checksum;
    out
}

/// The FADT that points at a DSDT at `dsdt_addr`.
pub fn build_fadt(dsdt_addr: u64) -> (out: Vec<u8>)
    ensures
        out@ == fadt(dsdt_addr),
{
    let hdr = acpi_header(&FADT_SIGNATURE, FADT_LEN as u32, FADT_REVISION, &FADT_TABLE_ID);
    let mut out: Vec<u8> = Vec::with_capacity(FADT_LEN);
    out.extend_from_slice(&hdr);
    push_zeros(&mut out, FADT_FLAGS_OFFSET - 36);
    out.extend_from_slice(&u32_le(HW_REDUCED_ACPI));
    push_zeros(&mut out, FADT_X_DSDT_OFFSET - FADT_FLAGS_OFFSET - 4);
    out.extend_from_slice(&u64_le(dsdt_addr));
    push_zeros(&mut out, FADT_LEN - FADT_X_DSDT_OFFSET - 8);
    assert(out@ =~= hdr@ + fadt_body(dsdt_addr));
    let checksum: u8 = acpi_checksum(&out);
    out[9] = checksum;
    out
}

/// The eight bytes from `at` on are the 64-bit field `value`.
proof fn lemma_address_bytes(bytes: Seq<u8>, at: int, value: u64)
    requires
        0 <= at <= bytes.len() - 8,
        bytes.subrange(at, at + 8) == bytes::le_bytes(value as nat, 8),
    ensures
        bytes[at] + 256 * (bytes[at + 1] + 256 * (bytes[at + 2] + 256 * (bytes[at + 3] + 256 * (
        bytes[at + 4] + 256 * (bytes[at + 5] + 256 * (bytes[at + 6] + 256 * bytes[at + 7]))))))
            == value,
{
    bytes::lemma_le_bytes_8(value as nat);
    let field = bytes.subrange(at, at + 8);
    assert(field[0] == bytes[at] && field[1] == bytes[at + 1] && field[2] == bytes[at + 2]);
    assert(field[3] == bytes[at + 3] && field[4] == bytes[at + 4] && field[5] == bytes[at + 5]);
    assert(field[6] == bytes[at + 6] && field[7] == bytes[at + 7]);
}

/// The RSDP is `RSD PTR `, a checksum, `LIBKRN`, revision 2, no 32-bit address,
/// its length of 36, the address of the XSDT, the other checksum, and zeros. The
/// checksum is zero both of its first 20 bytes and of all of it.
pub proof fn rsdp_leads_to_the_xsdt(
    xsdt_addr: u64,
    out: [u8; 36],
    first: &[u8],
    first_checksum: u8,
    whole: &[u8],
    checksum: u8,
)
    requires
        call_ensures(build_rsdp, (xsdt_addr,), out),
        first@ == out@.take(20),
        call_ensures(acpi_checksum, (first,), first_checksum),
        whole@ == out@,
        call_ensures(acpi_checksum, (whole,), checksum),
    ensures
        out@.subrange(0, 8) == seq![0x52u8, 0x53, 0x44, 0x20, 0x50, 0x54, 0x52, 0x20],
        out@.subrange(9, 15) == seq![0x4Cu8, 0x49, 0x42, 0x4B, 0x52, 0x4E],
        out@.subrange(15, 24) == seq![2u8, 0, 0, 0, 0, 36, 0, 0, 0],
        out@[24] + 256 * (out@[25] + 256 * (out@[26] + 256 * (out@[27] + 256 * (out@[28] + 256 * (
        out@[29] + 256 * (out@[30] + 256 * out@[31])))))) == xsdt_addr,
        out@.subrange(33, 36) == seq![0u8, 0, 0],
        first_checksum == 0,
        checksum == 0,
        call_requires(build_rsdp, (xsdt_addr,)),
{
    rsdp_is_well_formed(xsdt_addr);
    assert(out@.take(20) =~= out@.subrange(0, 20));
    assert(RSDP_SIGNATURE@ =~= seq![0x52u8, 0x53, 0x44, 0x20, 0x50, 0x54, 0x52, 0x20]);
    assert(out@.subrange(9, 15) =~= OEM_ID@);
    assert(bytes::le_bytes(36, 4) =~= seq![36u8, 0, 0, 0]) by {
        reveal_with_fuel(bytes::le_bytes, 5);
    }
    assert(out@.subrange(15, 24) =~= seq![2u8] + bytes::zeros(4) + bytes::le_bytes(36, 4));
    assert(out@.subrange(24, 32) =~= bytes::le_bytes(xsdt_addr as nat, 8));
    lemma_address_bytes(out@, 24, xsdt_addr);
}

/// The XSDT has 52 bytes: a header with the signature `XSDT`, that length,
/// revision 1 and the table ID `KRUNXSDT`, then the addresses of the FADT and of
/// the MADT. Its checksum is zero.
pub proof fn xsdt_leads_to_fadt_and_madt(
    fadt_addr: u64,
    madt_addr: u64,
    out: Vec<u8>,
    whole: &[u8],
    checksum: u8,
)
    requires
        call_ensures(build_xsdt, (fadt_addr, madt_addr), out),
        whole@ == out@,
        call_ensures(acpi_checksum, (whole,), checksum),
    ensures
        out@.len() == 52,
        out@.subrange(0, 9) == seq![0x58u8, 0x53, 0x44, 0x54, 52, 0, 0, 0, 1],
        out@.subrange(10, 16) == seq![0x4Cu8, 0x49, 0x42, 0x4B, 0x52, 0x4E],
        out@.subrange(16, 24) == seq![0x4Bu8, 0x52, 0x55, 0x4E, 0x58, 0x53, 0x44, 0x54],
        out@.subrange(24, 36) == seq![1u8, 0, 0, 0, 0x4B, 0x52, 0x55, 0x4E, 1, 0, 0, 0],
        out@[36] + 256 * (out@[37] + 256 * (out@[38] + 256 * (out@[39] + 256 * (out@[40] + 256 * (
        out@[41] + 256 * (out@[42] + 256 * out@[43])))))) == fadt_addr,
        out@[44] + 256 * (out@[45] + 256 * (out@[46] + 256 * (out@[47] + 256 * (out@[48] + 256 * (
        out@[49] + 256 * (out@[50] + 256 * out@[51])))))) == madt_addr,
        checksum == 0,
        call_requires(build_xsdt, (fadt_addr, madt_addr)),
{
    let body = bytes::le_bytes(fadt_addr as nat, 8) + bytes::le_bytes(madt_addr as nat, 8);
    sdt::lemma_table_bytes(XSDT_SIGNATURE@, XSDT_REVISION, XSDT_TABLE_ID@, body);
    assert(out@.subrange(0, 4) =~= seq![0x58u8, 0x53, 0x44, 0x54]);
    assert(out@.subrange(0, 9) =~= out@.subrange(0, 4) + seq![
        out@[4],
        out@[5],
        out@[6],
        out@[7],
        out@[8],
    ]);
    assert(XSDT_TABLE_ID@ =~= seq![0x4Bu8, 0x52, 0x55, 0x4E, 0x58, 0x53, 0x44, 0x54]);
    assert(out@.subrange(36, 44) =~= bytes::le_bytes(fadt_addr as nat, 8));
    assert(out@.subrange(44, 52) =~= bytes::le_bytes(madt_addr as nat, 8));
    lemma_address_bytes(out@, 36, fadt_addr);
    lemma_address_bytes(out@, 44, madt_addr);
}

/// The FADT has 276 bytes: a header with the signature `FACP`, that length,
/// revision 6 and the table ID `KRUNFACP`, then zeros but for the flag for
/// reduced hardware at 112 and the address of the DSDT at 140. Its checksum is
/// zero.
pub proof fn fadt_leads_to_the_dsdt(
    dsdt_addr: u64,
    out: Vec<u8>,
    whole: &[u8],
    checksum: u8,
    other: int,
)
    requires
        call_ensures(build_fadt, (dsdt_addr,), out),
        whole@ == out@,
        call_ensures(acpi_checksum, (whole,), checksum),
        36 <= other < 112 || 116 <= other < 140 || 148 <= other < 276,
    ensures
        out@.len() == 276,
        out@.subrange(0, 9) == seq![0x46u8, 0x41, 0x43, 0x50, 20, 1, 0, 0, 6],
        out@.subrange(10, 16) == seq![0x4Cu8, 0x49, 0x42, 0x4B, 0x52, 0x4E],
        out@.subrange(16, 24) == seq![0x4Bu8, 0x52, 0x55, 0x4E, 0x46, 0x41, 0x43, 0x50],
        out@.subrange(24, 36) == seq![1u8, 0, 0, 0, 0x4B, 0x52, 0x55, 0x4E, 1, 0, 0, 0],
        out@.subrange(112, 116) == seq![0u8, 0, 0x10, 0],
        out@[140] + 256 * (out@[141] + 256 * (out@[142] + 256 * (out@[143] + 256 * (
        out@[144] + 256 * (out@[145] + 256 * (out@[146] + 256 * out@[147])))))) == dsdt_addr,
        out@[other] == 0,
        checksum == 0,
        call_requires(build_fadt, (dsdt_addr,)),
{
    let body = fadt_body(dsdt_addr);
    sdt::lemma_table_bytes(FADT_SIGNATURE@, FADT_REVISION, FADT_TABLE_ID@, body);
    assert(out@.subrange(0, 4) =~= seq![0x46u8, 0x41, 0x43, 0x50]);
    assert(out@.subrange(0, 9) =~= out@.subrange(0, 4) + seq![
        out@[4],
        out@[5],
        out@[6],
        out@[7],
        out@[8],
    ]);
    assert(FADT_TABLE_ID@ =~= seq![0x4Bu8, 0x52, 0x55, 0x4E, 0x46, 0x41, 0x43, 0x50]);
    assert(out@[other] == out@.skip(36)[other - 36]);
    assert(out@.subrange(112, 116) =~= bytes::le_bytes(HW_REDUCED_ACPI as nat, 4));
    assert(bytes::le_bytes(HW_REDUCED_ACPI as nat, 4) =~= seq![0u8, 0, 0x10, 0]) by {
        reveal_with_fuel(bytes::le_bytes, 5);
    }
    assert(out@.subrange(140, 148) =~= bytes::le_bytes(dsdt_addr as nat, 8));
    lemma_address_bytes(out@, 140, dsdt_addr);
}

} // verus!
