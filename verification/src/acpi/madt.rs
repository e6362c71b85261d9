//! The MADT (Multiple APIC Description Table): the interrupt controllers.

use super::sdt::{self, acpi_checksum, acpi_header};
use crate::bytes::{self, u32_le};
use vstd::prelude::*;

verus! {

broadcast use crate::bytes::lemma_le_bytes_len;

/// Physical address of every processor's local APIC.
pub const LAPIC_BASE: u32 = 0xFEE0_0000;

/// Physical address of the I/O APIC.
pub const IOAPIC_BASE: u32 = 0xFEC0_0000;

/// Type of a local APIC entry.
pub const MADT_LAPIC_ENTRY: u8 = 0;

/// Length of a local APIC entry.
pub const MADT_LAPIC_ENTRY_LEN: u8 = 8;

/// Type of an I/O APIC entry.
pub const MADT_IOAPIC_ENTRY: u8 = 1;

/// Length of an I/O APIC entry.
pub const MADT_IOAPIC_ENTRY_LEN: u8 = 12;

/// The machine also has the pair of 8259 interrupt controllers.
pub const MADT_FLAGS_PCAT_COMPAT: u32 = 1;

/// `APIC`.
pub const MADT_SIGNATURE: [u8; 4] = ['A' as u8, 'P' as u8, 'I' as u8, 'C' as u8];

/// `KRUNMADT`.
pub const MADT_TABLE_ID: [u8; 8] = [
    'K' as u8,
    'R' as u8,
    'U' as u8,
    'N' as u8,
    'M' as u8,
    'A' as u8,
    'D' as u8,
    'T' as u8,
];

/// Revision of the MADT.
pub const MADT_REVISION: u8 = 5;

/// The entry of an enabled processor: its UID and its APIC ID are both
/// `cpu_id`.
pub open spec fn lapic_entry(cpu_id: u8) -> Seq<u8> {
    seq![MADT_LAPIC_ENTRY, MADT_LAPIC_ENTRY_LEN, cpu_id, cpu_id] + bytes::le_bytes(1, 4)
}

/// The entries of processors `0..num_cpus`, in that order.
pub open spec fn lapic_entries(num_cpus: nat) -> Seq<u8>
    decreases num_cpus,
{
    if num_cpus == 0 {
        Seq::empty()
    } else {
        lapic_entries((num_cpus - 1) as nat) + lapic_entry((num_cpus - 1) as u8)
    }
}

/// The entry of an I/O APIC whose interrupts start at GSI 0.
pub open spec fn ioapic_entry(ioapic_id: u8) -> Seq<u8> {
    seq![MADT_IOAPIC_ENTRY, MADT_IOAPIC_ENTRY_LEN, ioapic_id, 0u8] + bytes::le_bytes(
        IOAPIC_BASE as nat,
        4,
    ) + bytes::le_bytes(0, 4)
}

/// What follows the header of the MADT.
pub open spec fn madt_body(num_cpus: u8) -> Seq<u8> {
    bytes::le_bytes(LAPIC_BASE as nat, 4) + bytes::le_bytes(MADT_FLAGS_PCAT_COMPAT as nat, 4)
        + lapic_entries(num_cpus as nat) + ioapic_entry((num_cpus + 1) as u8)
}

/// The MADT of a machine with `num_cpus` processors and one I/O APIC.
pub open spec fn madt(num_cpus: u8) -> Seq<u8> {
    sdt::table(MADT_SIGNATURE@, MADT_REVISION, MADT_TABLE_ID@, madt_body(num_cpus))
}

/// The processor entries take eight bytes each.
pub proof fn lemma_lapic_entries_len(num_cpus: nat)
    ensures
        lapic_entries(num_cpus).len() == 8 * num_cpus,
    decreases num_cpus,
{
    if num_cpus > 0 {
        lemma_lapic_entries_len((num_cpus - 1) as nat);
    }
}

/// The entry of processor `cpu_id` stands where its number says.
pub proof fn lemma_lapic_entry_position(num_cpus: nat, cpu_id: int)
    requires
        0 <= cpu_id < num_cpus,
    ensures
        lapic_entries(num_cpus).subrange(8 * cpu_id, 8 * cpu_id + 8) == lapic_entry(
            cpu_id as u8,
        ),
    decreases num_cpus,
{
    let before = lapic_entries((num_cpus - 1) as nat);
    lemma_lapic_entries_len((num_cpus - 1) as nat);
    let found = lapic_entries(num_cpus).subrange(8 * cpu_id, 8 * cpu_id + 8);
    if cpu_id == num_cpus - 1 {
        assert(found =~= lapic_entry(cpu_id as u8));
    } else {
        lemma_lapic_entry_position((num_cpus - 1) as nat, cpu_id);
        assert(found =~= before.subrange(8 * cpu_id, 8 * cpu_id + 8));
    }
}

/// The MADT is a well-formed table of 56 bytes and eight more per processor.
pub proof fn madt_is_well_formed(num_cpus: u8)
    requires
        num_cpus < u8::MAX,
    ensures
        madt(num_cpus).len() == 56 + 8 * num_cpus,
        madt(num_cpus).subrange(0, 4) == MADT_SIGNATURE@,
        bytes::le_value(madt(num_cpus).subrange(4, 8)) == madt(num_cpus).len(),
        bytes::byte_sum(madt(num_cpus)) % 256 == 0,
{
    lemma_lapic_entries_len(num_cpus as nat);
    sdt::table_is_well_formed(
        MADT_SIGNATURE@,
        MADT_REVISION,
        MADT_TABLE_ID@,
        madt_body(num_cpus),
    );
}

/// Every processor has its own entry, found 44 bytes into the table and eight
/// more for each processor before it.
pub proof fn madt_lists_every_processor(num_cpus: u8, cpu_id: u8)
    requires
        num_cpus < u8::MAX,
        cpu_id < num_cpus,
    ensures
        madt(num_cpus).subrange(44 + 8 * cpu_id, 52 + 8 * cpu_id) == lapic_entry(cpu_id),
{
    let entries = lapic_entries(num_cpus as nat);
    lemma_lapic_entries_len(num_cpus as nat);
    lemma_lapic_entry_position(num_cpus as nat, cpu_id as int);
    assert(madt(num_cpus).subrange(44 + 8 * cpu_id, 52 + 8 * cpu_id) =~= entries.subrange(
        8 * cpu_id as int,
        8 * cpu_id + 8,
    ));
}

/// The table ends with the entry of the I/O APIC, whose ID is that of no
/// processor.
pub proof fn madt_ends_with_the_ioapic(num_cpus: u8)
    requires
        num_cpus < u8::MAX,
    ensures
        madt(num_cpus).skip(44 + 8 * num_cpus) == ioapic_entry((num_cpus + 1) as u8),
        madt(num_cpus)[46 + 8 * num_cpus] >= num_cpus,
{
    lemma_lapic_entries_len(num_cpus as nat);
    assert(madt(num_cpus).skip(44 + 8 * num_cpus) =~= ioapic_entry((num_cpus + 1) as u8));
}

/// The MADT of a machine with `num_cpus` processors and one I/O APIC.
///
/// The I/O APIC takes the ID one past the processors' count, so 255
/// processors leave it none.
pub fn build_madt(num_cpus: u8) -> (out: Vec<u8>)
    requires
        num_cpus < u8::MAX,
    ensures
        out@ == madt(num_cpus),
{
    let ioapic_id: u8 = num_cpus + 1;
    assert(MADT_LAPIC_ENTRY_LEN as usize * num_cpus as usize == 8 * num_cpus) by (nonlinear_arith)
        requires
            MADT_LAPIC_ENTRY_LEN == 8,
    ;
    let entries_len: usize = MADT_LAPIC_ENTRY_LEN as usize * num_cpus as usize
        + MADT_IOAPIC_ENTRY_LEN as usize;
    let total_len: usize = 36 + 4 + 4 + entries_len;
    let hdr = acpi_header(&MADT_SIGNATURE, total_len as u32, MADT_REVISION, &MADT_TABLE_ID);

    let mut out: Vec<u8> = Vec::with_capacity(total_len);
    out.extend_from_slice(&hdr);
    out.extend_from_slice(&u32_le(LAPIC_BASE));
    out.extend_from_slice(&u32_le(MADT_FLAGS_PCAT_COMPAT));
    let ghost prefix = out@;
    assert(prefix =~= hdr@ + bytes::le_bytes(LAPIC_BASE as nat, 4) + bytes::le_bytes(
        MADT_FLAGS_PCAT_COMPAT as nat,
        4,
    ));

    let mut cpu_id: u8 = 0;
    while cpu_id < num_cpus
        invariant
            cpu_id <= num_cpus,
            out@ == prefix + lapic_entries(cpu_id as nat),
        decreases num_cpus - cpu_id,
    {
        out.push(MADT_LAPIC_ENTRY);
        out.push(MADT_LAPIC_ENTRY_LEN);
        out.push(cpu_id);
        out.push(cpu_id);
        out.extend_from_slice(&u32_le(1));
        assert(out@ =~= prefix + (lapic_entries(cpu_id as nat) + lapic_entry(cpu_id)));
        cpu_id = cpu_id + 1;
    }

    out.push(MADT_IOAPIC_ENTRY);
    out.push(MADT_IOAPIC_ENTRY_LEN);
    out.push(ioapic_id);
    out.push(0);
    out.extend_from_slice(&u32_le(IOAPIC_BASE));
    out.extend_from_slice(&u32_le(0));

    proof {
        lemma_lapic_entries_len(num_cpus as nat);
        assert(madt_body(num_cpus).len() == total_len - 36);
        assert(out@ =~= hdr@ + madt_body(num_cpus));
    }
    let checksum: u8 = acpi_checksum(&out);
    out[9] = checksum;
    out
}

/// How the table starts.
pub proof fn lemma_madt_start(num_cpus: u8)
    ensures
        ({
            let t = madt(num_cpus);
            &&& t.len() == 56 + 8 * num_cpus
            &&& t[0] == 0x41 && t[1] == 0x50 && t[2] == 0x49 && t[3] == 0x43
            &&& t[4] + 256 * (t[5] + 256 * (t[6] + 256 * t[7])) == 56 + 8 * num_cpus
        }),
{
    let t = madt(num_cpus);
    lemma_lapic_entries_len(num_cpus as nat);
    sdt::lemma_table_bytes(MADT_SIGNATURE@, MADT_REVISION, MADT_TABLE_ID@, madt_body(num_cpus));
    assert(t.subrange(0, 4)[0] == t[0] && t.subrange(0, 4)[1] == t[1]);
    assert(t.subrange(0, 4)[2] == t[2] && t.subrange(0, 4)[3] == t[3]);
}

/// Whatever the number of processors, the MADT has 56 bytes and eight more for
/// each, and says so behind its signature `APIC`. It is of revision 5 and has
/// the table ID `KRUNMADT`; behind the header stand the address 0xFEE0_0000 of
/// the local APICs and the flag 1. The last twelve bytes are the I/O APIC: type
/// 1, length 12, the ID one past the number of processors, the address
/// 0xFEC0_0000, and interrupts from 0 on.
pub proof fn madt_frames_the_processors(num_cpus: u8, out: Vec<u8>)
    requires
        num_cpus < 255,
        call_ensures(build_madt, (num_cpus,), out),
    ensures
        out@.len() == 56 + 8 * num_cpus,
        out@.subrange(0, 4) == seq![0x41u8, 0x50, 0x49, 0x43],
        out@[4] + 256 * (out@[5] + 256 * (out@[6] + 256 * out@[7])) == 56 + 8 * num_cpus,
        out@[8] == 5,
        out@.subrange(10, 16) == seq![0x4Cu8, 0x49, 0x42, 0x4B, 0x52, 0x4E],
        out@.subrange(16, 24) == seq![0x4Bu8, 0x52, 0x55, 0x4E, 0x4D, 0x41, 0x44, 0x54],
        out@.subrange(24, 36) == seq![1u8, 0, 0, 0, 0x4B, 0x52, 0x55, 0x4E, 1, 0, 0, 0],
        out@.subrange(36, 44) == seq![0u8, 0, 0xE0, 0xFE, 1, 0, 0, 0],
        out@.subrange(44 + 8 * num_cpus, 56 + 8 * num_cpus) == seq![
            1u8,
            12,
            (num_cpus + 1) as u8,
            0,
            0,
            0,
            0xC0,
            0xFE,
            0,
            0,
            0,
            0,
        ],
        call_requires(build_madt, (num_cpus,)),
{
    let body = madt_body(num_cpus);
    lemma_lapic_entries_len(num_cpus as nat);
    sdt::lemma_table_bytes(MADT_SIGNATURE@, MADT_REVISION, MADT_TABLE_ID@, body);
    assert(MADT_SIGNATURE@ =~= seq![0x41u8, 0x50, 0x49, 0x43]);
    assert(MADT_TABLE_ID@ =~= seq![0x4Bu8, 0x52, 0x55, 0x4E, 0x4D, 0x41, 0x44, 0x54]);
    assert(out@.subrange(36, 44) =~= body.subrange(0, 8));
    assert(out@.subrange(44 + 8 * num_cpus, 56 + 8 * num_cpus) =~= body.skip(8 + 8 * num_cpus));
    assert(body.subrange(0, 8) =~= seq![0u8, 0, 0xE0, 0xFE, 1, 0, 0, 0]) by {
        reveal_with_fuel(bytes::le_bytes, 5);
    }
    assert(body.skip(8 + 8 * num_cpus) =~= ioapic_entry((num_cpus + 1) as u8));
    reveal_with_fuel(bytes::le_bytes, 5);
}

/// Every processor is listed, and listed as enabled: 44 bytes into the table,
/// and eight more for each processor before it, stand type 0, length 8, the
/// processor's number as its UID and as its APIC ID, and the flags 1.
pub proof fn madt_enables_every_processor(num_cpus: u8, out: Vec<u8>, cpu_id: u8)
    requires
        num_cpus < 255,
        call_ensures(build_madt, (num_cpus,), out),
        cpu_id < num_cpus,
    ensures
        out@.subrange(44 + 8 * cpu_id, 52 + 8 * cpu_id) == seq![
            0u8,
            8,
            cpu_id,
            cpu_id,
            1,
            0,
            0,
            0,
        ],
{
    madt_lists_every_processor(num_cpus, cpu_id);
    reveal_with_fuel(bytes::le_bytes, 5);
    assert(lapic_entry(cpu_id) =~= seq![0u8, 8, cpu_id, cpu_id, 1, 0, 0, 0]);
}

/// The checksum of the MADT as a whole is zero.
pub proof fn madt_checksum_is_zero(num_cpus: u8, out: Vec<u8>, whole: &[u8], checksum: u8)
    requires
        num_cpus < 255,
        call_ensures(build_madt, (num_cpus,), out),
        whole@ == out@,
        call_ensures(acpi_checksum, (whole,), checksum),
    ensures
        checksum == 0,
{
    madt_is_well_formed(num_cpus);
}

} // verus!
