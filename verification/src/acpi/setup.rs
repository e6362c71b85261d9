//! Placing the tables in guest memory.

use super::dsdt::{self, build_dsdt};
use super::madt::{self, build_madt};
use super::root::{self, build_fadt, build_rsdp, build_xsdt};
use crate::bytes;
use crate::guest_memory::{self, write_slice};
use crate::layout::RSDP_ADDR;
use vm_memory::GuestMemoryMmap;
use vstd::prelude::*;

verus! {

/// Distance of the XSDT from the RSDP.
pub const XSDT_OFFSET: u64 = 0x100;

/// Distance of the FADT from the RSDP.
pub const FADT_OFFSET: u64 = 0x200;

/// Distance of the MADT from the RSDP.
pub const MADT_OFFSET: u64 = 0x320;

/// Distance of the DSDT from the RSDP.
pub const DSDT_OFFSET: u64 = 0x400;

/// The most processors whose MADT ends before the DSDT begins.
pub const MAX_CPUS_BELOW_DSDT: u8 = 21;

/// Which table did not fit in guest memory.
#[derive(Debug, PartialEq, Eq, Structural)]
pub enum Error {
    /// The RSDP could not be stored.
    WriteRsdp,
    /// The XSDT could not be stored.
    WriteXsdt,
    /// The FADT could not be stored.
    WriteFadt,
    /// The MADT could not be stored.
    WriteMadt,
    /// The DSDT could not be stored.
    WriteDsdt,
}

/// The tables in the order in which they are stored, each with its address.
pub open spec fn table_plan(num_cpus: u8, devices: Seq<(u64, u32, u64)>) -> Seq<(int, Seq<u8>)> {
    seq![
        (RSDP_ADDR as int, root::rsdp((RSDP_ADDR + XSDT_OFFSET) as u64)),
        (
            RSDP_ADDR + XSDT_OFFSET,
            root::xsdt((RSDP_ADDR + FADT_OFFSET) as u64, (RSDP_ADDR + MADT_OFFSET) as u64),
        ),
        (RSDP_ADDR + FADT_OFFSET, root::fadt((RSDP_ADDR + DSDT_OFFSET) as u64)),
        (RSDP_ADDR + MADT_OFFSET, madt::madt(num_cpus)),
        (RSDP_ADDR + DSDT_OFFSET, dsdt::dsdt(devices)),
    ]
}

/// The error that stands for a failure to store the table at `index` of the
/// plan.
pub open spec fn table_error(index: nat) -> Error {
    if index == 0 {
        Error::WriteRsdp
    } else if index == 1 {
        Error::WriteXsdt
    } else if index == 2 {
        Error::WriteFadt
    } else if index == 3 {
        Error::WriteMadt
    } else {
        Error::WriteDsdt
    }
}

/// Index of the first table of `plan`, from `from` on, that cannot be stored
/// in full; the length of the plan if there is none.
pub open spec fn first_failure(addresses: Set<int>, plan: Seq<(int, Seq<u8>)>, from: nat) -> nat
    decreases plan.len() - from,
{
    if from >= plan.len() {
        plan.len()
    } else if !guest_memory::storable(addresses, plan[from as int].0, plan[from as int].1.len()) {
        from
    } else {
        first_failure(addresses, plan, from + 1)
    }
}

/// Memory after an attempt to store each of the first `count` tables: as much
/// of a table as lies before the first address that is not mapped is stored.
pub open spec fn memory_after(
    addresses: Set<int>,
    memory: Map<int, u8>,
    plan: Seq<(int, Seq<u8>)>,
    count: nat,
) -> Map<int, u8>
    decreases count,
{
    if count == 0 {
        memory
    } else {
        let (addr, table) = plan[count - 1];
        guest_memory::store(
            memory_after(addresses, memory, plan, (count - 1) as nat),
            addr,
            table.take(guest_memory::mapped_run(addresses, addr, table.len()) as int),
        )
    }
}

/// Memory once all five tables were stored.
pub open spec fn memory_set_up(
    addresses: Set<int>,
    memory: Map<int, u8>,
    num_cpus: u8,
    devices: Seq<(u64, u32, u64)>,
) -> Map<int, u8> {
    memory_after(addresses, memory, table_plan(num_cpus, devices), 5)
}

/// Whether all five tables can be stored.
pub open spec fn all_storable(
    addresses: Set<int>,
    num_cpus: u8,
    devices: Seq<(u64, u32, u64)>,
) -> bool {
    first_failure(addresses, table_plan(num_cpus, devices), 0) == 5
}

/// Where all tables can be stored, memory afterwards is the five tables stored
/// in full, one after the other.
proof fn lemma_memory_set_up(
    addresses: Set<int>,
    memory: Map<int, u8>,
    num_cpus: u8,
    devices: Seq<(u64, u32, u64)>,
)
    requires
        all_storable(addresses, num_cpus, devices),
    ensures
        ({
            let plan = table_plan(num_cpus, devices);
            let after1 = guest_memory::store(memory, plan[0].0, plan[0].1);
            let after2 = guest_memory::store(after1, plan[1].0, plan[1].1);
            let after3 = guest_memory::store(after2, plan[2].0, plan[2].1);
            let after4 = guest_memory::store(after3, plan[3].0, plan[3].1);
            memory_set_up(addresses, memory, num_cpus, devices) == guest_memory::store(
                after4,
                plan[4].0,
                plan[4].1,
            )
        }),
{
    let plan = table_plan(num_cpus, devices);
    reveal_with_fuel(first_failure, 6);
    reveal_with_fuel(memory_after, 6);
    assert forall|i: int| 0 <= i < 5 implies (#[trigger] plan[i]).1.take(
        guest_memory::mapped_run(addresses, plan[i].0, plan[i].1.len()) as int,
    ) == plan[i].1 by {
        assert(guest_memory::storable(addresses, plan[i].0, plan[i].1.len()));
    }
}

/// Where all tables can be stored, guest memory then holds the RSDP, the XSDT,
/// the FADT and the DSDT, each at its address. Of the MADT it holds what lies
/// below the DSDT, which is all of it for up to 21 processors.
#[verifier::rlimit(20)]
pub proof fn tables_stand_in_memory(
    addresses: Set<int>,
    memory: Map<int, u8>,
    num_cpus: u8,
    devices: Seq<(u64, u32, u64)>,
)
    requires
        num_cpus < u8::MAX,
        all_storable(addresses, num_cpus, devices),
    ensures
        ({
            let after = memory_set_up(addresses, memory, num_cpus, devices);
            let plan = table_plan(num_cpus, devices);
            let madt = madt::madt(num_cpus);
            let kept: nat = if num_cpus <= MAX_CPUS_BELOW_DSDT {
                madt.len()
            } else {
                (DSDT_OFFSET - MADT_OFFSET) as nat
            };
            &&& guest_memory::load(after, plan[0].0, plan[0].1.len()) == plan[0].1
            &&& guest_memory::load(after, plan[1].0, plan[1].1.len()) == plan[1].1
            &&& guest_memory::load(after, plan[2].0, plan[2].1.len()) == plan[2].1
            &&& guest_memory::load(after, plan[3].0, kept) == madt.take(kept as int)
            &&& guest_memory::load(after, plan[4].0, plan[4].1.len()) == plan[4].1
        }),
{
    let after = memory_set_up(addresses, memory, num_cpus, devices);
    let plan = table_plan(num_cpus, devices);
    let madt = madt::madt(num_cpus);
    let kept: nat = if num_cpus <= MAX_CPUS_BELOW_DSDT {
        madt.len()
    } else {
        (DSDT_OFFSET - MADT_OFFSET) as nat
    };
    lemma_memory_set_up(addresses, memory, num_cpus, devices);
    root::rsdp_is_well_formed((RSDP_ADDR + XSDT_OFFSET) as u64);
    root::xsdt_is_well_formed(
        (RSDP_ADDR + FADT_OFFSET) as u64,
        (RSDP_ADDR + MADT_OFFSET) as u64,
    );
    root::fadt_is_well_formed((RSDP_ADDR + DSDT_OFFSET) as u64);
    madt::madt_is_well_formed(num_cpus);
    assert(guest_memory::load(after, plan[0].0, plan[0].1.len()) =~= plan[0].1);
    assert(guest_memory::load(after, plan[1].0, plan[1].1.len()) =~= plan[1].1);
    assert(guest_memory::load(after, plan[2].0, plan[2].1.len()) =~= plan[2].1);
    assert(guest_memory::load(after, plan[3].0, kept) =~= madt.take(kept as int));
    assert(guest_memory::load(after, plan[4].0, plan[4].1.len()) =~= plan[4].1);
}

/// A guest that starts at the RSDP finds every other table: the RSDP leads to
/// the XSDT, the XSDT to the FADT and to the MADT, and the FADT to the DSDT.
pub proof fn guest_finds_every_table(
    addresses: Set<int>,
    memory: Map<int, u8>,
    num_cpus: u8,
    devices: Seq<(u64, u32, u64)>,
)
    requires
        num_cpus < u8::MAX,
        all_storable(addresses, num_cpus, devices),
    ensures
        ({
            let after = memory_set_up(addresses, memory, num_cpus, devices);
            let plan = table_plan(num_cpus, devices);
            &&& bytes::le_value(guest_memory::load(after, plan[0].0 + 24, 8)) == plan[1].0
            &&& bytes::le_value(guest_memory::load(after, plan[1].0 + 36, 8)) == plan[2].0
            &&& bytes::le_value(guest_memory::load(after, plan[1].0 + 44, 8)) == plan[3].0
            &&& bytes::le_value(guest_memory::load(after, plan[2].0 + 140, 8)) == plan[4].0
        }),
{
    let after = memory_set_up(addresses, memory, num_cpus, devices);
    let plan = table_plan(num_cpus, devices);
    let rsdp = guest_memory::load(after, plan[0].0, plan[0].1.len());
    let xsdt = guest_memory::load(after, plan[1].0, plan[1].1.len());
    let fadt = guest_memory::load(after, plan[2].0, plan[2].1.len());
    tables_stand_in_memory(addresses, memory, num_cpus, devices);
    root::rsdp_is_well_formed((RSDP_ADDR + XSDT_OFFSET) as u64);
    root::xsdt_is_well_formed(
        (RSDP_ADDR + FADT_OFFSET) as u64,
        (RSDP_ADDR + MADT_OFFSET) as u64,
    );
    root::fadt_is_well_formed((RSDP_ADDR + DSDT_OFFSET) as u64);
    assert(guest_memory::load(after, plan[0].0 + 24, 8) =~= rsdp.subrange(24, 32));
    assert(guest_memory::load(after, plan[1].0 + 36, 8) =~= xsdt.subrange(36, 44));
    assert(guest_memory::load(after, plan[1].0 + 44, 8) =~= xsdt.subrange(44, 52));
    assert(guest_memory::load(after, plan[2].0 + 140, 8) =~= fadt.subrange(140, 148));
}

/// Every table that a guest reads back sums to a multiple of 256: the RSDP, its
/// first 20 bytes, the XSDT, the FADT, the DSDT, and, for up to 21 processors,
/// the MADT.
pub proof fn guest_finds_every_checksum(
    addresses: Set<int>,
    memory: Map<int, u8>,
    num_cpus: u8,
    devices: Seq<(u64, u32, u64)>,
)
    requires
        num_cpus < u8::MAX,
        devices.len() <= dsdt::MAX_DEVICES,
        all_storable(addresses, num_cpus, devices),
    ensures
        ({
            let after = memory_set_up(addresses, memory, num_cpus, devices);
            let plan = table_plan(num_cpus, devices);
            &&& bytes::byte_sum(guest_memory::load(after, plan[0].0, 20)) % 256 == 0
            &&& forall|i: int|
                0 <= i < 5 && (i == 3 ==> num_cpus <= MAX_CPUS_BELOW_DSDT) ==> bytes::byte_sum(
                    guest_memory::load(after, (#[trigger] plan[i]).0, plan[i].1.len()),
                ) % 256 == 0
        }),
{
    let after = memory_set_up(addresses, memory, num_cpus, devices);
    let plan = table_plan(num_cpus, devices);
    tables_stand_in_memory(addresses, memory, num_cpus, devices);
    root::rsdp_is_well_formed((RSDP_ADDR + XSDT_OFFSET) as u64);
    root::xsdt_is_well_formed(
        (RSDP_ADDR + FADT_OFFSET) as u64,
        (RSDP_ADDR + MADT_OFFSET) as u64,
    );
    root::fadt_is_well_formed((RSDP_ADDR + DSDT_OFFSET) as u64);
    madt::madt_is_well_formed(num_cpus);
    dsdt::dsdt_is_well_formed(devices);
    assert(plan[3].1.take(plan[3].1.len() as int) =~= plan[3].1);
    let rsdp = guest_memory::load(after, plan[0].0, plan[0].1.len());
    assert(guest_memory::load(after, plan[0].0, 20) =~= rsdp.subrange(0, 20));
}

/// All tables can be stored exactly where every address that one of them takes
/// is mapped.
#[verifier::rlimit(20)]
pub proof fn setup_needs_every_address_mapped(
    addresses: Set<int>,
    num_cpus: u8,
    devices: Seq<(u64, u32, u64)>,
)
    requires
        num_cpus < u8::MAX,
        devices.len() <= dsdt::MAX_DEVICES,
    ensures
        all_storable(addresses, num_cpus, devices) <==> forall|i: int, a: int|
            #![trigger table_plan(num_cpus, devices)[i], addresses.contains(a)]
            0 <= i < 5 && table_plan(num_cpus, devices)[i].0 <= a < table_plan(
                num_cpus,
                devices,
            )[i].0 + table_plan(num_cpus, devices)[i].1.len() ==> addresses.contains(a),
{
    let plan = table_plan(num_cpus, devices);
    reveal_with_fuel(first_failure, 6);
    root::rsdp_is_well_formed((RSDP_ADDR + XSDT_OFFSET) as u64);
    root::xsdt_is_well_formed(
        (RSDP_ADDR + FADT_OFFSET) as u64,
        (RSDP_ADDR + MADT_OFFSET) as u64,
    );
    root::fadt_is_well_formed((RSDP_ADDR + DSDT_OFFSET) as u64);
    madt::madt_is_well_formed(num_cpus);
    dsdt::dsdt_is_well_formed(devices);
    assert forall|i: int| 0 <= i < 5 implies (guest_memory::storable(
        addresses,
        (#[trigger] plan[i]).0,
        plan[i].1.len(),
    ) <==> forall|a: int|
        plan[i].0 <= a < plan[i].0 + plan[i].1.len() ==> addresses.contains(a)) by {
        guest_memory::storable_means_every_address_is_mapped(
            addresses,
            plan[i].0,
            plan[i].1.len(),
        );
    }
    let all_fit = forall|i: int|
        0 <= i < 5 ==> guest_memory::storable(
            addresses,
            (#[trigger] plan[i]).0,
            plan[i].1.len(),
        );
    assert(all_storable(addresses, num_cpus, devices) <==> all_fit);
}

/// However far it gets, the setup changes no byte outside the tables' own
/// ranges.
pub proof fn setup_touches_only_the_tables(
    addresses: Set<int>,
    memory: Map<int, u8>,
    num_cpus: u8,
    devices: Seq<(u64, u32, u64)>,
    count: nat,
    other: int,
)
    requires
        count <= 5,
        forall|i: int|
            0 <= i < 5 ==> {
                let (addr, table) = #[trigger] table_plan(num_cpus, devices)[i];
                other < addr || addr + table.len() <= other
            },
    ensures
        ({
            let after = memory_after(addresses, memory, table_plan(num_cpus, devices), count);
            &&& after.contains_key(other) == memory.contains_key(other)
            &&& memory.contains_key(other) ==> after[other] == memory[other]
        }),
    decreases count,
{
    if count > 0 {
        let plan = table_plan(num_cpus, devices);
        let (addr, table) = plan[count - 1];
        let run = guest_memory::mapped_run(addresses, addr, table.len());
        setup_touches_only_the_tables(
            addresses,
            memory,
            num_cpus,
            devices,
            (count - 1) as nat,
            other,
        );
        guest_memory::lemma_mapped_run_bound(addresses, addr, table.len());
        guest_memory::store_leaves_the_rest(
            memory_after(addresses, memory, plan, (count - 1) as nat),
            addr,
            table.take(run as int),
            other,
        );
    }
}

/// Stores the tables of a machine with `num_cpus` processors and with
/// `devices`, each of which is given as its address, its interrupt, and its
/// length. It stops at the first table that does not fit.
///
/// There may be at most 254 processors and at most 2080 devices. Where an
/// earlier table does not fit, it stops before it looks at either, so then
/// any number will do.
pub fn setup_acpi_tables(
    mem: &mut GuestMemoryMmap,
    num_cpus: u8,
    devices: &[(u64, u32, u64)],
) -> (out: Result<(), Error>)
    requires
        num_cpus < u8::MAX || first_failure(
            guest_memory::mapped(*old(mem)),
            table_plan(num_cpus, devices@),
            0,
        ) < 3,
        devices@.len() <= dsdt::MAX_DEVICES || first_failure(
            guest_memory::mapped(*old(mem)),
            table_plan(num_cpus, devices@),
            0,
        ) < 4,
    ensures
        ({
            let addresses = guest_memory::mapped(*old(mem));
            let plan = table_plan(num_cpus, devices@);
            let failed = first_failure(addresses, plan, 0);
            let attempted = if failed < 5 {
                failed + 1
            } else {
                5
            };
            &&& out == if failed < 5 {
                Err(table_error(failed))
            } else {
                Ok(())
            }
            &&& guest_memory::stored(*final(mem)) == memory_after(
                addresses,
                guest_memory::stored(*old(mem)),
                plan,
                attempted,
            )
            &&& guest_memory::mapped(*final(mem)) == addresses
        }),
{
    let xsdt_addr: u64 = RSDP_ADDR + XSDT_OFFSET;
    let fadt_addr: u64 = RSDP_ADDR + FADT_OFFSET;
    let madt_addr: u64 = RSDP_ADDR + MADT_OFFSET;
    let dsdt_addr: u64 = RSDP_ADDR + DSDT_OFFSET;

    proof {
        reveal_with_fuel(first_failure, 6);
        reveal_with_fuel(memory_after, 6);
    }

    let rsdp = build_rsdp(xsdt_addr);
    if write_slice(mem, &rsdp, RSDP_ADDR).is_err() {
        return Err(Error::WriteRsdp);
    }

    let xsdt = build_xsdt(fadt_addr, madt_addr);
    if write_slice(mem, &xsdt, xsdt_addr).is_err() {
        return Err(Error::WriteXsdt);
    }

    let fadt = build_fadt(dsdt_addr);
    if write_slice(mem, &fadt, fadt_addr).is_err() {
        return Err(Error::WriteFadt);
    }

    let madt = build_madt(num_cpus);
    if write_slice(mem, &madt, madt_addr).is_err() {
        return Err(Error::WriteMadt);
    }

    let dsdt = build_dsdt(devices);
    if write_slice(mem, &dsdt, dsdt_addr).is_err() {
        return Err(Error::WriteDsdt);
    }

    Ok(())
}

/// What an address holds after the first `count` tables were tried: the last of
/// them that reaches it wins.
proof fn lemma_memory_at(
    addresses: Set<int>,
    memory: Map<int, u8>,
    plan: Seq<(int, Seq<u8>)>,
    count: nat,
    at: int,
)
    requires
        count <= plan.len() == 5,
    ensures
        ({
            let after = memory_after(addresses, memory, plan, count);
            let hit = |k: int|
                k < count && plan[k].0 <= at < plan[k].0 + guest_memory::mapped_run(
                    addresses,
                    plan[k].0,
                    plan[k].1.len(),
                );
            &&& hit(4) ==> after.contains_key(at) && after[at] == plan[4].1[at - plan[4].0]
            &&& hit(3) && !hit(4) ==> after.contains_key(at) && after[at] == plan[3].1[at
                - plan[3].0]
            &&& hit(2) && !hit(3) && !hit(4) ==> after.contains_key(at) && after[at]
                == plan[2].1[at - plan[2].0]
            &&& hit(1) && !hit(2) && !hit(3) && !hit(4) ==> after.contains_key(at) && after[at]
                == plan[1].1[at - plan[1].0]
            &&& hit(0) && !hit(1) && !hit(2) && !hit(3) && !hit(4) ==> after.contains_key(at)
                && after[at] == plan[0].1[at - plan[0].0]
            &&& !hit(0) && !hit(1) && !hit(2) && !hit(3) && !hit(4) ==> after.contains_key(at)
                == memory.contains_key(at) && (memory.contains_key(at) ==> after[at]
                == memory[at])
        }),
    decreases count,
{
    broadcast use guest_memory::lemma_mapped_run_bound;

    if count > 0 {
        lemma_memory_at(addresses, memory, plan, (count - 1) as nat, at);
    }
}

/// Where the tables go, how long they are, and which of them is the first that
/// finds an address that is not mapped.
proof fn lemma_first_failure(addresses: Set<int>, num_cpus: u8, devices: Seq<(u64, u32, u64)>)
    ensures
        ({
            let plan = table_plan(num_cpus, devices);
            let fits = |k: int|
                forall|a: int|
                    plan[k].0 <= a < plan[k].0 + plan[k].1.len() ==> addresses.contains(a);
            let failed = first_failure(addresses, plan, 0);
            &&& plan[0].0 == 0xE_0000 && plan[0].1.len() == 36
            &&& plan[1].0 == 0xE_0100 && plan[1].1.len() == 52
            &&& plan[2].0 == 0xE_0200 && plan[2].1.len() == 276
            &&& plan[3].0 == 0xE_0320 && plan[3].1.len() == 56 + 8 * num_cpus
            &&& plan[4].0 == 0xE_0400 && plan[4].1.len() > 0
            &&& !fits(0) ==> failed == 0
            &&& fits(0) && !fits(1) ==> failed == 1
            &&& fits(0) && fits(1) && !fits(2) ==> failed == 2
            &&& fits(0) && fits(1) && fits(2) && !fits(3) ==> failed == 3
            &&& fits(0) && fits(1) && fits(2) && fits(3) && !fits(4) ==> failed == 4
            &&& fits(0) && fits(1) && fits(2) && fits(3) && fits(4) ==> failed == 5
        }),
{
    let plan = table_plan(num_cpus, devices);
    root::rsdp_is_well_formed((RSDP_ADDR + XSDT_OFFSET) as u64);
    root::xsdt_is_well_formed(
        (RSDP_ADDR + FADT_OFFSET) as u64,
        (RSDP_ADDR + MADT_OFFSET) as u64,
    );
    root::fadt_is_well_formed((RSDP_ADDR + DSDT_OFFSET) as u64);
    madt::lemma_lapic_entries_len(num_cpus as nat);
    broadcast use bytes::lemma_le_bytes_len;

    assert(plan[3].1.len() == 56 + 8 * num_cpus);
    assert(plan[4].1.len() > 0);
    guest_memory::storable_means_every_address_is_mapped(addresses, plan[0].0, plan[0].1.len());
    guest_memory::storable_means_every_address_is_mapped(addresses, plan[1].0, plan[1].1.len());
    guest_memory::storable_means_every_address_is_mapped(addresses, plan[2].0, plan[2].1.len());
    guest_memory::storable_means_every_address_is_mapped(addresses, plan[3].0, plan[3].1.len());
    guest_memory::storable_means_every_address_is_mapped(addresses, plan[4].0, plan[4].1.len());
    reveal_with_fuel(first_failure, 6);
}

/// The setup succeeds exactly where every address that a table takes is mapped.
/// Else it ends with the error of the first table that takes an address which is
/// not: the RSDP, then the XSDT, the FADT, the MADT, the DSDT. Before the MADT no
/// number of processors is too large, and before the DSDT no number of devices.
/// What is mapped stays as it is.
pub proof fn setup_reports_the_first_table_that_does_not_fit(
    mem: &mut GuestMemoryMmap,
    num_cpus: u8,
    devices: &[(u64, u32, u64)],
    out: Result<(), Error>,
    dsdt: Vec<u8>,
    rsdp_fits: bool,
    xsdt_fits: bool,
    fadt_fits: bool,
    madt_fits: bool,
    dsdt_fits: bool,
)
    requires
        call_ensures(setup_acpi_tables, (mem, num_cpus, devices), out),
        call_ensures(build_dsdt, (devices,), dsdt),
        rsdp_fits == (forall|a: int|
            0xE_0000 <= a < 0xE_0024 ==> guest_memory::mapped(*old(mem)).contains(a)),
        xsdt_fits == (forall|a: int|
            0xE_0100 <= a < 0xE_0134 ==> guest_memory::mapped(*old(mem)).contains(a)),
        fadt_fits == (forall|a: int|
            0xE_0200 <= a < 0xE_0314 ==> guest_memory::mapped(*old(mem)).contains(a)),
        madt_fits == (forall|a: int|
            0xE_0320 <= a < 0xE_0358 + 8 * num_cpus ==> guest_memory::mapped(*old(mem)).contains(
                a,
            )),
        dsdt_fits == (forall|a: int|
            0xE_0400 <= a < 0xE_0400 + dsdt@.len() ==> guest_memory::mapped(*old(mem)).contains(a)),
    ensures
        !rsdp_fits ==> out == Err::<(), Error>(Error::WriteRsdp),
        rsdp_fits && !xsdt_fits ==> out == Err::<(), Error>(Error::WriteXsdt),
        rsdp_fits && xsdt_fits && !fadt_fits ==> out == Err::<(), Error>(Error::WriteFadt),
        rsdp_fits && xsdt_fits && fadt_fits && !madt_fits ==> out == Err::<(), Error>(
            Error::WriteMadt,
        ),
        rsdp_fits && xsdt_fits && fadt_fits && madt_fits && !dsdt_fits ==> out == Err::<(), Error>(
            Error::WriteDsdt,
        ),
        rsdp_fits && xsdt_fits && fadt_fits && madt_fits && dsdt_fits ==> out is Ok,
        guest_memory::mapped(*final(mem)) == guest_memory::mapped(*old(mem)),
        num_cpus < 255 && devices@.len() <= 2080 ==> call_requires(
            setup_acpi_tables,
            (mem, num_cpus, devices),
        ),
        num_cpus < 255 && !(rsdp_fits && xsdt_fits && fadt_fits && madt_fits) ==> call_requires(
            setup_acpi_tables,
            (mem, num_cpus, devices),
        ),
        !(rsdp_fits && xsdt_fits && fadt_fits) ==> call_requires(
            setup_acpi_tables,
            (mem, num_cpus, devices),
        ),
{
    lemma_first_failure(guest_memory::mapped(*old(mem)), num_cpus, devices@);
}

/// The RSDP stands at 0xE_0000 and points 0x100 bytes further: every byte of it
/// up to the first address that is not mapped is stored, and no more.
pub proof fn setup_stores_the_rsdp(
    mem: &mut GuestMemoryMmap,
    num_cpus: u8,
    devices: &[(u64, u32, u64)],
    out: Result<(), Error>,
    rsdp: [u8; 36],
    at: int,
)
    requires
        call_ensures(setup_acpi_tables, (mem, num_cpus, devices), out),
        call_ensures(build_rsdp, (0xE_0100,), rsdp),
        0xE_0000 <= at < 0xE_0024,
    ensures
        ({
            let before = guest_memory::stored(*old(mem));
            let after = guest_memory::stored(*final(mem));
            let reached = (forall|a: int|
                0xE_0000 <= a <= at ==> guest_memory::mapped(*old(mem)).contains(a));
            &&& reached ==> after.contains_key(at) && after[at] == rsdp@[at - 0xE_0000]
            &&& !reached ==> after.contains_key(at) == before.contains_key(at)
            &&& !reached && before.contains_key(at) ==> after[at] == before[at]
        }),
{
    let addresses = guest_memory::mapped(*old(mem));
    let plan = table_plan(num_cpus, devices@);
    let failed = first_failure(addresses, plan, 0);
    let attempted = if failed < 5 {
        failed + 1
    } else {
        5
    };
    lemma_first_failure(addresses, num_cpus, devices@);
    lemma_memory_at(addresses, guest_memory::stored(*old(mem)), plan, attempted, at);
    broadcast use guest_memory::lemma_mapped_run_bound;

    guest_memory::run_ends_at_the_first_gap(addresses, plan[0].0, plan[0].1.len(), at);
}

/// The XSDT stands at 0xE_0100 and points at a FADT at 0xE_0200 and a MADT at
/// 0xE_0320: where the RSDP fits, every byte of it up to the first address that
/// is not mapped is stored, and no more.
pub proof fn setup_stores_the_xsdt(
    mem: &mut GuestMemoryMmap,
    num_cpus: u8,
    devices: &[(u64, u32, u64)],
    out: Result<(), Error>,
    rsdp_fits: bool,
    xsdt: Vec<u8>,
    at: int,
)
    requires
        call_ensures(setup_acpi_tables, (mem, num_cpus, devices), out),
        rsdp_fits == (forall|a: int|
            0xE_0000 <= a < 0xE_0024 ==> guest_memory::mapped(*old(mem)).contains(a)),
        call_ensures(build_xsdt, (0xE_0200, 0xE_0320), xsdt),
        0xE_0100 <= at < 0xE_0134,
    ensures
        ({
            let before = guest_memory::stored(*old(mem));
            let after = guest_memory::stored(*final(mem));
            let reached = rsdp_fits && (forall|a: int|
                0xE_0100 <= a <= at ==> guest_memory::mapped(*old(mem)).contains(a));
            &&& reached ==> after.contains_key(at) && after[at] == xsdt@[at - 0xE_0100]
            &&& !reached ==> after.contains_key(at) == before.contains_key(at)
            &&& !reached && before.contains_key(at) ==> after[at] == before[at]
        }),
{
    let addresses = guest_memory::mapped(*old(mem));
    let plan = table_plan(num_cpus, devices@);
    let failed = first_failure(addresses, plan, 0);
    let attempted = if failed < 5 {
        failed + 1
    } else {
        5
    };
    lemma_first_failure(addresses, num_cpus, devices@);
    lemma_memory_at(addresses, guest_memory::stored(*old(mem)), plan, attempted, at);
    broadcast use guest_memory::lemma_mapped_run_bound;

    guest_memory::run_ends_at_the_first_gap(addresses, plan[1].0, plan[1].1.len(), at);
}

/// The FADT stands at 0xE_0200 and points at a DSDT at 0xE_0400: where RSDP and
/// XSDT fit, every byte of it up to the first address that is not mapped is
/// stored, and no more.
pub proof fn setup_stores_the_fadt(
    mem: &mut GuestMemoryMmap,
    num_cpus: u8,
    devices: &[(u64, u32, u64)],
    out: Result<(), Error>,
    rsdp_fits: bool,
    xsdt_fits: bool,
    fadt: Vec<u8>,
    at: int,
)
    requires
        call_ensures(setup_acpi_tables, (mem, num_cpus, devices), out),
        rsdp_fits == (forall|a: int|
            0xE_0000 <= a < 0xE_0024 ==> guest_memory::mapped(*old(mem)).contains(a)),
        xsdt_fits == (forall|a: int|
            0xE_0100 <= a < 0xE_0134 ==> guest_memory::mapped(*old(mem)).contains(a)),
        call_ensures(build_fadt, (0xE_0400,), fadt),
        0xE_0200 <= at < 0xE_0314,
    ensures
        ({
            let before = guest_memory::stored(*old(mem));
            let after = guest_memory::stored(*final(mem));
            let reached = rsdp_fits && xsdt_fits && (forall|a: int|
                0xE_0200 <= a <= at ==> guest_memory::mapped(*old(mem)).contains(a));
            &&& reached ==> after.contains_key(at) && after[at] == fadt@[at - 0xE_0200]
            &&& !reached ==> after.contains_key(at) == before.contains_key(at)
            &&& !reached && before.contains_key(at) ==> after[at] == before[at]
        }),
{
    let addresses = guest_memory::mapped(*old(mem));
    let plan = table_plan(num_cpus, devices@);
    let failed = first_failure(addresses, plan, 0);
    let attempted = if failed < 5 {
        failed + 1
    } else {
        5
    };
    lemma_first_failure(addresses, num_cpus, devices@);
    lemma_memory_at(addresses, guest_memory::stored(*old(mem)), plan, attempted, at);
    broadcast use guest_memory::lemma_mapped_run_bound;

    guest_memory::run_ends_at_the_first_gap(addresses, plan[2].0, plan[2].1.len(), at);
}

/// The MADT for the given number of processors stands at 0xE_0320: where RSDP,
/// XSDT and FADT fit, every byte of it up to the first address that is not
/// mapped is stored, and no more. This is what lies below 0xE_0400.
pub proof fn setup_stores_the_madt(
    mem: &mut GuestMemoryMmap,
    num_cpus: u8,
    devices: &[(u64, u32, u64)],
    out: Result<(), Error>,
    rsdp_fits: bool,
    xsdt_fits: bool,
    fadt_fits: bool,
    madt: Vec<u8>,
    at: int,
)
    requires
        call_ensures(setup_acpi_tables, (mem, num_cpus, devices), out),
        rsdp_fits == (forall|a: int|
            0xE_0000 <= a < 0xE_0024 ==> guest_memory::mapped(*old(mem)).contains(a)),
        xsdt_fits == (forall|a: int|
            0xE_0100 <= a < 0xE_0134 ==> guest_memory::mapped(*old(mem)).contains(a)),
        fadt_fits == (forall|a: int|
            0xE_0200 <= a < 0xE_0314 ==> guest_memory::mapped(*old(mem)).contains(a)),
        call_ensures(build_madt, (num_cpus,), madt),
        0xE_0320 <= at < 0xE_0358 + 8 * num_cpus,
        at < 0xE_0400,
    ensures
        ({
            let before = guest_memory::stored(*old(mem));
            let after = guest_memory::stored(*final(mem));
            let reached = rsdp_fits && xsdt_fits && fadt_fits && (forall|a: int|
                0xE_0320 <= a <= at ==> guest_memory::mapped(*old(mem)).contains(a));
            &&& reached ==> after.contains_key(at) && after[at] == madt@[at - 0xE_0320]
            &&& !reached ==> after.contains_key(at) == before.contains_key(at)
            &&& !reached && before.contains_key(at) ==> after[at] == before[at]
        }),
{
    let addresses = guest_memory::mapped(*old(mem));
    let plan = table_plan(num_cpus, devices@);
    let failed = first_failure(addresses, plan, 0);
    let attempted = if failed < 5 {
        failed + 1
    } else {
        5
    };
    lemma_first_failure(addresses, num_cpus, devices@);
    lemma_memory_at(addresses, guest_memory::stored(*old(mem)), plan, attempted, at);
    broadcast use guest_memory::lemma_mapped_run_bound;

    guest_memory::run_ends_at_the_first_gap(addresses, plan[3].0, plan[3].1.len(), at);
}

/// The DSDT of exactly the given devices stands at 0xE_0400: where the other
/// tables fit, every byte of it up to the first address that is not mapped is
/// stored.
pub proof fn setup_stores_the_dsdt(
    mem: &mut GuestMemoryMmap,
    num_cpus: u8,
    devices: &[(u64, u32, u64)],
    out: Result<(), Error>,
    rsdp_fits: bool,
    xsdt_fits: bool,
    fadt_fits: bool,
    madt_fits: bool,
    dsdt: Vec<u8>,
    at: int,
)
    requires
        call_ensures(setup_acpi_tables, (mem, num_cpus, devices), out),
        rsdp_fits == (forall|a: int|
            0xE_0000 <= a < 0xE_0024 ==> guest_memory::mapped(*old(mem)).contains(a)),
        xsdt_fits == (forall|a: int|
            0xE_0100 <= a < 0xE_0134 ==> guest_memory::mapped(*old(mem)).contains(a)),
        fadt_fits == (forall|a: int|
            0xE_0200 <= a < 0xE_0314 ==> guest_memory::mapped(*old(mem)).contains(a)),
        madt_fits == (forall|a: int|
            0xE_0320 <= a < 0xE_0358 + 8 * num_cpus ==> guest_memory::mapped(*old(mem)).contains(
                a,
            )),
        call_ensures(build_dsdt, (devices,), dsdt),
        0xE_0400 <= at < 0xE_0400 + dsdt@.len(),
        rsdp_fits && xsdt_fits && fadt_fits && madt_fits,
        forall|a: int| 0xE_0400 <= a <= at ==> guest_memory::mapped(*old(mem)).contains(a),
    ensures
        guest_memory::stored(*final(mem)).contains_key(at),
        guest_memory::stored(*final(mem))[at] == dsdt@[at - 0xE_0400],
{
    let addresses = guest_memory::mapped(*old(mem));
    let plan = table_plan(num_cpus, devices@);
    let failed = first_failure(addresses, plan, 0);
    let attempted = if failed < 5 {
        failed + 1
    } else {
        5
    };
    lemma_first_failure(addresses, num_cpus, devices@);
    lemma_memory_at(addresses, guest_memory::stored(*old(mem)), plan, attempted, at);
    broadcast use guest_memory::lemma_mapped_run_bound;

    guest_memory::run_ends_at_the_first_gap(addresses, plan[4].0, plan[4].1.len(), at);
}

/// From 0xE_0400 on, what the DSDT does not reach holds the rest of a long MADT,
/// as far as that was stored, and is else as it was.
pub proof fn setup_leaves_the_rest_of_the_madt(
    mem: &mut GuestMemoryMmap,
    num_cpus: u8,
    devices: &[(u64, u32, u64)],
    out: Result<(), Error>,
    rsdp_fits: bool,
    xsdt_fits: bool,
    fadt_fits: bool,
    madt_fits: bool,
    madt: Vec<u8>,
    dsdt: Vec<u8>,
    at: int,
)
    requires
        call_ensures(setup_acpi_tables, (mem, num_cpus, devices), out),
        rsdp_fits == (forall|a: int|
            0xE_0000 <= a < 0xE_0024 ==> guest_memory::mapped(*old(mem)).contains(a)),
        xsdt_fits == (forall|a: int|
            0xE_0100 <= a < 0xE_0134 ==> guest_memory::mapped(*old(mem)).contains(a)),
        fadt_fits == (forall|a: int|
            0xE_0200 <= a < 0xE_0314 ==> guest_memory::mapped(*old(mem)).contains(a)),
        madt_fits == (forall|a: int|
            0xE_0320 <= a < 0xE_0358 + 8 * num_cpus ==> guest_memory::mapped(*old(mem)).contains(
                a,
            )),
        call_ensures(build_madt, (num_cpus,), madt),
        call_ensures(build_dsdt, (devices,), dsdt),
        0xE_0400 <= at,
        !(rsdp_fits && xsdt_fits && fadt_fits && madt_fits && at < 0xE_0400 + dsdt@.len() && (
        forall|a: int| 0xE_0400 <= a <= at ==> guest_memory::mapped(*old(mem)).contains(a))),
    ensures
        ({
            let before = guest_memory::stored(*old(mem));
            let after = guest_memory::stored(*final(mem));
            let reached = rsdp_fits && xsdt_fits && fadt_fits && at < 0xE_0358 + 8 * num_cpus
                && (forall|a: int|
                0xE_0320 <= a <= at ==> guest_memory::mapped(*old(mem)).contains(a));
            &&& reached ==> after.contains_key(at) && after[at] == madt@[at - 0xE_0320]
            &&& !reached ==> after.contains_key(at) == before.contains_key(at)
            &&& !reached && before.contains_key(at) ==> after[at] == before[at]
        }),
{
    let addresses = guest_memory::mapped(*old(mem));
    let plan = table_plan(num_cpus, devices@);
    let failed = first_failure(addresses, plan, 0);
    let attempted = if failed < 5 {
        failed + 1
    } else {
        5
    };
    lemma_first_failure(addresses, num_cpus, devices@);
    lemma_memory_at(addresses, guest_memory::stored(*old(mem)), plan, attempted, at);
    broadcast use guest_memory::lemma_mapped_run_bound;

    if at < 0xE_0358 + 8 * num_cpus {
        guest_memory::run_ends_at_the_first_gap(addresses, plan[3].0, plan[3].1.len(), at);
    }
    if at < 0xE_0400 + dsdt@.len() {
        guest_memory::run_ends_at_the_first_gap(addresses, plan[4].0, plan[4].1.len(), at);
    }
}

/// Whatever comes out, the setup changes no address outside the five ranges of
/// the tables.
pub proof fn setup_leaves_every_other_address(
    mem: &mut GuestMemoryMmap,
    num_cpus: u8,
    devices: &[(u64, u32, u64)],
    out: Result<(), Error>,
    dsdt: Vec<u8>,
    at: int,
)
    requires
        call_ensures(setup_acpi_tables, (mem, num_cpus, devices), out),
        call_ensures(build_dsdt, (devices,), dsdt),
        at < 0xE_0000 || 0xE_0024 <= at,
        at < 0xE_0100 || 0xE_0134 <= at,
        at < 0xE_0200 || 0xE_0314 <= at,
        at < 0xE_0320 || 0xE_0358 + 8 * num_cpus <= at,
        at < 0xE_0400 || 0xE_0400 + dsdt@.len() <= at,
    ensures
        ({
            let before = guest_memory::stored(*old(mem));
            let after = guest_memory::stored(*final(mem));
            &&& after.contains_key(at) == before.contains_key(at)
            &&& before.contains_key(at) ==> after[at] == before[at]
        }),
{
    let addresses = guest_memory::mapped(*old(mem));
    let plan = table_plan(num_cpus, devices@);
    let failed = first_failure(addresses, plan, 0);
    let attempted = if failed < 5 {
        failed + 1
    } else {
        5
    };
    lemma_first_failure(addresses, num_cpus, devices@);
    lemma_memory_at(addresses, guest_memory::stored(*old(mem)), plan, attempted, at);
    broadcast use guest_memory::lemma_mapped_run_bound;
}

/// Whether `object` is the object of `device` at `index` of the list.
spec fn is_device_object(object: Seq<u8>, index: int, device: (u64, u32, u64)) -> bool {
    &&& object.subrange(0, 7) == seq![
            0x5Bu8,
            0x82,
            0x3B,
            0x56,
            0x52,
            (48 + index / 10) as u8,
            (48 + index % 10) as u8,
        ]
    &&& object[28] == index % 256
    &&& object.subrange(29, 42) == seq![
            0x08u8,
            0x5F,
            0x43,
            0x52,
            0x53,
            0x11,
            0x1A,
            0x0A,
            0x17,
            0x86,
            0x09,
            0x00,
            0x01,
        ]
    &&& object[42] + 256 * (object[43] + 256 * (object[44] + 256 * object[45]))
            == device.0 % 0x1_0000_0000
    &&& object[46] + 256 * (object[47] + 256 * (object[48] + 256 * object[49]))
            == device.2 % 0x1_0000_0000
    &&& object.subrange(50, 55) == seq![0x89u8, 0x06, 0x00, 0x01, 0x01]
    &&& object[55] + 256 * (object[56] + 256 * (object[57] + 256 * object[58]))
            == device.1
    &&& object.subrange(59, 61) == seq![0x79u8, 0x00]
}

/// Whether `table` starts and ends like the DSDT of `count` devices.
spec fn is_device_table(table: Seq<u8>, count: nat) -> bool {
    &&& table[0] == 0x44 && table[1] == 0x53 && table[2] == 0x44 && table[3] == 0x54
    &&& table[4] + 256 * (table[5] + 256 * (table[6] + 256 * table[7])) == table.len()
    &&& 1 <= count <= 67 ==> table.len() == 44 + 61 * count
    &&& 68 <= count ==> table.len() == 45 + 61 * count
}

/// The DSDT, with its definition out of sight.
#[verifier::opaque]
spec fn device_table(devices: Seq<(u64, u32, u64)>) -> Seq<u8> {
    dsdt::dsdt(devices)
}

/// The signature `DSDT`, byte by byte.
proof fn lemma_signature_bytes(table: Seq<u8>)
    requires
        table.len() >= 4,
        table.subrange(0, 4) == seq![0x44u8, 0x53, 0x44, 0x54],
    ensures
        table[0] == 0x44 && table[1] == 0x53 && table[2] == 0x44 && table[3] == 0x54,
{
    let signature = table.subrange(0, 4);
    assert(signature[0] == table[0] && signature[1] == table[1]);
    assert(signature[2] == table[2] && signature[3] == table[3]);
}

/// The unique ID of a device, and what leads to its resources.
proof fn lemma_object_bytes(object: Seq<u8>, index: int)
    requires
        object.len() == 61,
        object.subrange(22, 29) == seq![
            0x08u8,
            0x5F,
            0x55,
            0x49,
            0x44,
            0x0A,
            (index % 256) as u8,
        ],
        object.subrange(29, 34) == seq![0x08u8, 0x5F, 0x43, 0x52, 0x53],
        object.subrange(34, 42) == seq![0x11u8, 0x1A, 0x0A, 0x17, 0x86, 0x09, 0x00, 0x01],
    ensures
        object[28] == index % 256,
        object.subrange(29, 42) == seq![
            0x08u8,
            0x5F,
            0x43,
            0x52,
            0x53,
            0x11,
            0x1A,
            0x0A,
            0x17,
            0x86,
            0x09,
            0x00,
            0x01,
        ],
{
    assert(object[28] == object.subrange(22, 29)[6]);
    assert(object.subrange(29, 42) =~= object.subrange(29, 34) + object.subrange(34, 42));
}

/// The DSDT starts and ends as it should, and shows the device at `index`.
proof fn lemma_device_table(devices: Seq<(u64, u32, u64)>, index: int)
    requires
        devices.len() <= 2080,
        0 <= index < devices.len(),
    ensures
        is_device_table(device_table(devices), devices.len()),
        is_device_object(
            device_table(devices).skip(
                device_table(devices).len() - 61 * (devices.len() - index),
            ).take(61),
            index,
            devices[index],
        ),
{
    reveal(device_table);
    let table = device_table(devices);
    let object = table.skip(table.len() - 61 * (devices.len() - index)).take(61);
    dsdt::lemma_dsdt_frame(devices);
    lemma_signature_bytes(table);
    dsdt::lemma_device_in_table(devices, index, object);
    lemma_object_bytes(object, index);
}

/// Where the five tables fit, memory from 0xE_0400 on holds the DSDT.
proof fn lemma_device_table_in_memory(
    addresses: Set<int>,
    memory: Map<int, u8>,
    num_cpus: u8,
    devices: Seq<(u64, u32, u64)>,
)
    requires
        all_storable(addresses, num_cpus, devices),
    ensures
        ({
            let after = memory_set_up(addresses, memory, num_cpus, devices);
            forall|a: int|
                0xE_0400 <= a < 0xE_0400 + device_table(devices).len() ==> #[trigger]
                after.contains_key(a) && after[a] == device_table(devices)[a - 0xE_0400]
        }),
{
    reveal(device_table);
    lemma_memory_set_up(addresses, memory, num_cpus, devices);
}

/// A setup that succeeded stored all five tables.
proof fn lemma_success_stores_all(
    mem: &mut GuestMemoryMmap,
    num_cpus: u8,
    devices: &[(u64, u32, u64)],
    out: Result<(), Error>,
)
    requires
        call_ensures(setup_acpi_tables, (mem, num_cpus, devices), out),
        out is Ok,
    ensures
        all_storable(guest_memory::mapped(*old(mem)), num_cpus, devices@),
        guest_memory::stored(*final(mem)) == memory_set_up(
            guest_memory::mapped(*old(mem)),
            guest_memory::stored(*old(mem)),
            num_cpus,
            devices@,
        ),
{
    lemma_first_failure(guest_memory::mapped(*old(mem)), num_cpus, devices@);
}

/// A guest that finds `table` in memory reads its signature and its length, and
/// any part of it.
proof fn lemma_read_from_memory(
    after: Map<int, u8>,
    addr: int,
    table: Seq<u8>,
    length: int,
    start: int,
    part: Seq<u8>,
)
    requires
        table.len() >= 8,
        table[4] + 256 * (table[5] + 256 * (table[6] + 256 * table[7])) == table.len(),
        forall|a: int|
            addr <= a < addr + table.len() ==> #[trigger] after.contains_key(a) && after[a]
                == table[a - addr],
        length == after[addr + 4] + 256 * (after[addr + 5] + 256 * (after[addr + 6] + 256
            * after[addr + 7])),
        0 <= start <= table.len() - part.len(),
        forall|k: int|
            0 <= k < part.len() ==> #[trigger] part[k] == after[addr + start + k],
    ensures
        length == table.len(),
        after[addr] == table[0],
        after[addr + 1] == table[1],
        after[addr + 2] == table[2],
        after[addr + 3] == table[3],
        part == table.skip(start).take(part.len() as int),
{
    assert(after.contains_key(addr) && after.contains_key(addr + 1));
    assert(after.contains_key(addr + 2) && after.contains_key(addr + 3));
    assert(after.contains_key(addr + 4) && after.contains_key(addr + 5));
    assert(after.contains_key(addr + 6) && after.contains_key(addr + 7));
    let found = table.skip(start).take(part.len() as int);
    assert forall|k: int| 0 <= k < part.len() implies part[k] == found[k] by {
        assert(after.contains_key(addr + start + k));
    }
    assert(part =~= found);
}

/// What a guest reads off a DSDT in memory.
proof fn lemma_device_read_from_memory(
    after: Map<int, u8>,
    devices: Seq<(u64, u32, u64)>,
    length: int,
    index: int,
    object: Seq<u8>,
)
    requires
        devices.len() <= 2080,
        0 <= index < devices.len(),
        forall|a: int|
            0xE_0400 <= a < 0xE_0400 + device_table(devices).len() ==> #[trigger]
            after.contains_key(a) && after[a] == device_table(devices)[a - 0xE_0400],
        length == after[0xE_0404] + 256 * (after[0xE_0405] + 256 * (after[0xE_0406] + 256
            * after[0xE_0407])),
        object == Seq::new(
            61,
            |k: int| after[0xE_0400 + length - 61 * (devices.len() - index) + k],
        ),
    ensures
        length == device_table(devices).len(),
        after[0xE_0400] == 0x44,
        after[0xE_0401] == 0x53,
        after[0xE_0402] == 0x44,
        after[0xE_0403] == 0x54,
        is_device_table(device_table(devices), devices.len()),
        is_device_object(object, index, devices[index]),
{
    let table = device_table(devices);
    let start = table.len() - 61 * (devices.len() - index);
    lemma_device_table(devices, index);
    lemma_read_from_memory(after, 0xE_0400, table, length, 0, Seq::empty());
    lemma_read_from_memory(after, 0xE_0400, table, length, start, object);
}

/// After a setup that succeeded, memory from 0xE_0400 on is `DSDT` and a table
/// whose length field covers all the given devices, and no other. The 61 bytes
/// for each device from the one at `index` on, counted from the end of that
/// table, begin with the object of that very device: its resources are the low
/// 32 bits of the device's address and of its length, and its interrupt.
pub proof fn guest_reads_every_device(
    mem: &mut GuestMemoryMmap,
    num_cpus: u8,
    devices: &[(u64, u32, u64)],
    out: Result<(), Error>,
    length: int,
    index: int,
    object: Seq<u8>,
)
    requires
        call_ensures(setup_acpi_tables, (mem, num_cpus, devices), out),
        num_cpus < 255,
        devices@.len() <= 2080,
        out is Ok,
        ({
            let after = guest_memory::stored(*final(mem));
            &&& length == after[0xE_0404] + 256 * (after[0xE_0405] + 256 * (after[0xE_0406] + 256
                * after[0xE_0407]))
            &&& object == Seq::new(
                61,
                |k: int| after[0xE_0400 + length - 61 * (devices@.len() - index) + k],
            )
        }),
        0 <= index < devices@.len(),
    ensures
        ({
            let after = guest_memory::stored(*final(mem));
            &&& after[0xE_0400] == 0x44
            &&& after[0xE_0401] == 0x53
            &&& after[0xE_0402] == 0x44
            &&& after[0xE_0403] == 0x54
        }),
        devices@.len() <= 67 ==> length == 44 + 61 * devices@.len(),
        68 <= devices@.len() ==> length == 45 + 61 * devices@.len(),
        forall|a: int|
            0xE_0400 <= a < 0xE_0400 + length ==> #[trigger] guest_memory::stored(
                *final(mem),
            ).contains_key(a),
        object.subrange(0, 7) == seq![
            0x5Bu8,
            0x82,
            0x3B,
            0x56,
            0x52,
            (48 + index / 10) as u8,
            (48 + index % 10) as u8,
        ],
        object[28] == index % 256,
        object.subrange(29, 42) == seq![
            0x08u8,
            0x5F,
            0x43,
            0x52,
            0x53,
            0x11,
            0x1A,
            0x0A,
            0x17,
            0x86,
            0x09,
            0x00,
            0x01,
        ],
        object[42] + 256 * (object[43] + 256 * (object[44] + 256 * object[45]))
            == devices@[index].0 % 0x1_0000_0000,
        object[46] + 256 * (object[47] + 256 * (object[48] + 256 * object[49]))
            == devices@[index].2 % 0x1_0000_0000,
        object.subrange(50, 55) == seq![0x89u8, 0x06, 0x00, 0x01, 0x01],
        object[55] + 256 * (object[56] + 256 * (object[57] + 256 * object[58]))
            == devices@[index].1,
        object.subrange(59, 61) == seq![0x79u8, 0x00],
{
    let addresses = guest_memory::mapped(*old(mem));
    let before = guest_memory::stored(*old(mem));
    let after = guest_memory::stored(*final(mem));
    lemma_success_stores_all(mem, num_cpus, devices, out);
    lemma_device_table_in_memory(addresses, before, num_cpus, devices@);
    lemma_device_read_from_memory(after, devices@, length, index, object);
}

/// Where the five tables fit, memory from 0xE_0320 on holds the MADT up to the
/// DSDT.
proof fn lemma_madt_in_memory(
    addresses: Set<int>,
    memory: Map<int, u8>,
    num_cpus: u8,
    devices: Seq<(u64, u32, u64)>,
)
    requires
        all_storable(addresses, num_cpus, devices),
    ensures
        ({
            let after = memory_set_up(addresses, memory, num_cpus, devices);
            forall|a: int|
                0xE_0320 <= a < 0xE_0320 + madt::madt(num_cpus).len() && a < 0xE_0400 ==> #[trigger]
                after.contains_key(a) && after[a] == madt::madt(num_cpus)[a - 0xE_0320]
        }),
{
    lemma_memory_set_up(addresses, memory, num_cpus, devices);
}

/// What a guest reads off a MADT in memory.
proof fn lemma_processor_read_from_memory(
    after: Map<int, u8>,
    num_cpus: u8,
    cpu_id: u8,
    entry: Seq<u8>,
)
    requires
        num_cpus < 255,
        cpu_id < num_cpus,
        cpu_id <= 21,
        forall|a: int|
            0xE_0320 <= a < 0xE_0320 + madt::madt(num_cpus).len() && a < 0xE_0400 ==> #[trigger]
            after.contains_key(a) && after[a] == madt::madt(num_cpus)[a - 0xE_0320],
        entry == Seq::new(8, |k: int| after[0xE_034C + 8 * cpu_id + k]),
    ensures
        after[0xE_0320] == 0x41,
        after[0xE_0321] == 0x50,
        after[0xE_0322] == 0x49,
        after[0xE_0323] == 0x43,
        after[0xE_0324] + 256 * (after[0xE_0325] + 256 * (after[0xE_0326] + 256
            * after[0xE_0327])) == 56 + 8 * num_cpus,
        entry == seq![0u8, 8, cpu_id, cpu_id, 1, 0, 0, 0],
{
    let table = madt::madt(num_cpus);
    madt::lemma_madt_start(num_cpus);
    assert(after.contains_key(0xE_0320) && after.contains_key(0xE_0321));
    assert(after.contains_key(0xE_0322) && after.contains_key(0xE_0323));
    assert(after.contains_key(0xE_0324) && after.contains_key(0xE_0325));
    assert(after.contains_key(0xE_0326) && after.contains_key(0xE_0327));
    let found = table.subrange(44 + 8 * cpu_id, 52 + 8 * cpu_id);
    assert forall|k: int| 0 <= k < 8 implies entry[k] == found[k] by {
        assert(after.contains_key(0xE_034C + 8 * cpu_id + k));
    }
    assert(entry =~= found);
    madt::madt_lists_every_processor(num_cpus, cpu_id);
    assert(madt::lapic_entry(cpu_id) =~= seq![0u8, 8, cpu_id, cpu_id, 1, 0, 0, 0]) by {
        reveal_with_fuel(bytes::le_bytes, 5);
    }
}

/// After a setup that succeeded, memory from 0xE_0320 on is `APIC` and a table
/// whose length field covers all the processors. Each whose entry ends below
/// 0xE_0400, which are all up to number 21, is listed there as enabled, with its
/// own number as its UID and as its APIC ID.
pub proof fn guest_reads_every_processor(
    mem: &mut GuestMemoryMmap,
    num_cpus: u8,
    devices: &[(u64, u32, u64)],
    out: Result<(), Error>,
    cpu_id: u8,
    entry: Seq<u8>,
)
    requires
        call_ensures(setup_acpi_tables, (mem, num_cpus, devices), out),
        num_cpus < 255,
        out is Ok,
        cpu_id < num_cpus,
        cpu_id <= 21,
        entry == Seq::new(
            8,
            |k: int| guest_memory::stored(*final(mem))[0xE_034C + 8 * cpu_id + k],
        ),
    ensures
        ({
            let after = guest_memory::stored(*final(mem));
            &&& after[0xE_0320] == 0x41
            &&& after[0xE_0321] == 0x50
            &&& after[0xE_0322] == 0x49
            &&& after[0xE_0323] == 0x43
            &&& after[0xE_0324] + 256 * (after[0xE_0325] + 256 * (after[0xE_0326] + 256
                * after[0xE_0327])) == 56 + 8 * num_cpus
        }),
        entry == seq![0u8, 8, cpu_id, cpu_id, 1, 0, 0, 0],
{
    let addresses = guest_memory::mapped(*old(mem));
    let before = guest_memory::stored(*old(mem));
    let after = guest_memory::stored(*final(mem));
    lemma_success_stores_all(mem, num_cpus, devices, out);
    lemma_madt_in_memory(addresses, before, num_cpus, devices@);
    lemma_processor_read_from_memory(after, num_cpus, cpu_id, entry);
}

} // verus!
