use krun_boot::acpi::{
    acpi_checksum, acpi_header, build_dsdt, build_fadt, build_madt, build_rsdp, build_xsdt,
    setup_acpi_tables, Error, DSDT_OFFSET, FADT_LEN, FADT_OFFSET, MADT_OFFSET, XSDT_OFFSET,
};
use krun_boot::layout::RSDP_ADDR;
use vm_memory::{Bytes, GuestAddress, GuestMemoryMmap};

fn byte_sum(bytes: &[u8]) -> u8 {
    bytes.iter().fold(0u8, |acc, &b| acc.wrapping_add(b))
}

fn read(mem: &GuestMemoryMmap, addr: u64, len: usize) -> Vec<u8> {
    let mut out = vec![0u8; len];
    mem.read_slice(&mut out, GuestAddress(addr)).unwrap();
    out
}

fn memory(len: usize) -> GuestMemoryMmap {
    GuestMemoryMmap::from_ranges(&[(GuestAddress(0), len)]).unwrap()
}

fn le64(bytes: &[u8]) -> u64 {
    u64::from_le_bytes(bytes.try_into().unwrap())
}

#[test]
fn test_acpi_checksum() {
    let data = [0x01, 0x02, 0x03];
    let cksum = acpi_checksum(&data);
    assert_eq!(
        data[0]
            .wrapping_add(data[1])
            .wrapping_add(data[2])
            .wrapping_add(cksum),
        0
    );
}

#[test]
fn test_build_dsdt_single_device() {
    let devices = vec![(0xd000_0000u64, 5u32, 0x1000u64)];
    let dsdt = build_dsdt(&devices);

    assert_eq!(&dsdt[0..4], b"DSDT");
    let len = u32::from_le_bytes(dsdt[4..8].try_into().unwrap());
    assert_eq!(len as usize, dsdt.len());

    let sum: u8 = dsdt.iter().fold(0u8, |acc, &b| acc.wrapping_add(b));
    assert_eq!(sum, 0);
}

#[test]
fn test_build_madt() {
    let madt = build_madt(4);

    assert_eq!(&madt[0..4], b"APIC");
    let len = u32::from_le_bytes(madt[4..8].try_into().unwrap());
    assert_eq!(len as usize, madt.len());
    // header(36) + lapic_addr(4) + flags(4) + 4*lapic(32) + ioapic(12) = 88
    assert_eq!(madt.len(), 88);

    let sum: u8 = madt.iter().fold(0u8, |acc, &b| acc.wrapping_add(b));
    assert_eq!(sum, 0);
}

#[test]
fn test_setup_acpi_tables() {
    let mut mem = GuestMemoryMmap::from_ranges(&[(GuestAddress(0), 0x10_0000)]).unwrap();
    let devices = vec![
        (0xd000_0000u64, 5u32, 0x1000u64),
        (0xd000_1000u64, 6u32, 0x1000u64),
    ];
    setup_acpi_tables(&mut mem, 4, &devices).unwrap();

    let mut rsdp = [0u8; 36];
    mem.read_slice(&mut rsdp, GuestAddress(RSDP_ADDR)).unwrap();
    assert_eq!(&rsdp[0..8], b"RSD PTR ");
    let sum: u8 = rsdp[0..20].iter().fold(0u8, |acc, &b| acc.wrapping_add(b));
    assert_eq!(sum, 0);
    let sum: u8 = rsdp.iter().fold(0u8, |acc, &b| acc.wrapping_add(b));
    assert_eq!(sum, 0);

    let xsdt_addr = RSDP_ADDR + XSDT_OFFSET;
    let mut xsdt = [0u8; 52];
    mem.read_slice(&mut xsdt, GuestAddress(xsdt_addr)).unwrap();
    assert_eq!(&xsdt[0..4], b"XSDT");
    let sum: u8 = xsdt.iter().fold(0u8, |acc, &b| acc.wrapping_add(b));
    assert_eq!(sum, 0);

    let fadt_addr = RSDP_ADDR + FADT_OFFSET;
    let mut fadt = [0u8; FADT_LEN];
    mem.read_slice(&mut fadt, GuestAddress(fadt_addr)).unwrap();
    assert_eq!(&fadt[0..4], b"FACP");
    let sum: u8 = fadt.iter().fold(0u8, |acc, &b| acc.wrapping_add(b));
    assert_eq!(sum, 0);

    let madt_addr = RSDP_ADDR + MADT_OFFSET;
    let mut madt = [0u8; 88];
    mem.read_slice(&mut madt, GuestAddress(madt_addr)).unwrap();
    assert_eq!(&madt[0..4], b"APIC");
    let sum: u8 = madt.iter().fold(0u8, |acc, &b| acc.wrapping_add(b));
    assert_eq!(sum, 0);
}

#[test]
fn checksum_exact_values() {
    assert_eq!(acpi_checksum(&[1, 2, 3]), 250);
    assert_eq!(acpi_checksum(&[]), 0);
    assert_eq!(acpi_checksum(&[0x80, 0x80]), 0);
    assert_eq!(acpi_checksum(&[0xff]), 1);
}

#[test]
fn header_exact_bytes() {
    let hdr = acpi_header(b"DSDT", 0x0102_0304, 2, b"KRUNDSDT");
    let mut expected = Vec::new();
    expected.extend_from_slice(b"DSDT");
    expected.extend_from_slice(&[0x04, 0x03, 0x02, 0x01, 2, 0]);
    expected.extend_from_slice(b"LIBKRNKRUNDSDT");
    expected.extend_from_slice(&[1, 0, 0, 0]);
    expected.extend_from_slice(b"KRUN");
    expected.extend_from_slice(&[1, 0, 0, 0]);
    assert_eq!(&hdr[..], &expected[..]);
}

#[test]
fn rsdp_points_at_xsdt() {
    let rsdp = build_rsdp(0x1122_3344_5566_7788);
    assert_eq!(&rsdp[0..8], b"RSD PTR ");
    assert_eq!(&rsdp[9..15], b"LIBKRN");
    assert_eq!(rsdp[15], 2);
    assert_eq!(&rsdp[16..20], &[0, 0, 0, 0]);
    assert_eq!(&rsdp[20..24], &[36, 0, 0, 0]);
    assert_eq!(le64(&rsdp[24..32]), 0x1122_3344_5566_7788);
    assert_eq!(&rsdp[33..36], &[0, 0, 0]);
    assert_eq!(byte_sum(&rsdp[0..20]), 0);
    assert_eq!(byte_sum(&rsdp), 0);
}

#[test]
fn xsdt_lists_fadt_then_madt() {
    let xsdt = build_xsdt(0x1000, 0x2000);
    assert_eq!(xsdt.len(), 52);
    assert_eq!(&xsdt[4..9], &[52, 0, 0, 0, 1]);
    assert_eq!(&xsdt[16..24], b"KRUNXSDT");
    assert_eq!(le64(&xsdt[36..44]), 0x1000);
    assert_eq!(le64(&xsdt[44..52]), 0x2000);
    assert_eq!(byte_sum(&xsdt), 0);
}

#[test]
fn fadt_declares_reduced_hardware() {
    let fadt = build_fadt(0xe_0400);
    assert_eq!(fadt.len(), FADT_LEN);
    assert_eq!(&fadt[0..4], b"FACP");
    assert_eq!(&fadt[4..9], &[0x14, 0x01, 0, 0, 6]);
    assert_eq!(&fadt[16..24], b"KRUNFACP");
    assert_eq!(&fadt[112..116], &[0, 0, 0x10, 0]);
    assert_eq!(le64(&fadt[140..148]), 0xe_0400);
    assert!(fadt[36..112].iter().all(|&b| b == 0));
    assert!(fadt[116..140].iter().all(|&b| b == 0));
    assert!(fadt[148..].iter().all(|&b| b == 0));
    assert_eq!(byte_sum(&fadt), 0);
}

#[test]
fn madt_exact_entries() {
    let madt = build_madt(2);
    assert_eq!(madt.len(), 72);
    assert_eq!(madt[8], 5);
    assert_eq!(&madt[16..24], b"KRUNMADT");
    assert_eq!(&madt[36..44], &[0, 0, 0xE0, 0xFE, 1, 0, 0, 0]);
    assert_eq!(&madt[44..52], &[0, 8, 0, 0, 1, 0, 0, 0]);
    assert_eq!(&madt[52..60], &[0, 8, 1, 1, 1, 0, 0, 0]);
    assert_eq!(&madt[60..72], &[1, 12, 3, 0, 0, 0, 0xC0, 0xFE, 0, 0, 0, 0]);
}

#[test]
fn madt_extremes() {
    let none = build_madt(0);
    assert_eq!(none.len(), 56);
    assert_eq!(none[46], 1);
    let most = build_madt(254);
    assert_eq!(most.len(), 56 + 8 * 254);
    assert_eq!(most[46 + 8 * 254], 255);
    assert_eq!(byte_sum(&most), 0);
}

#[test]
fn dsdt_without_devices() {
    let dsdt = build_dsdt(&[]);
    assert_eq!(dsdt.len(), 43);
    assert_eq!(&dsdt[36..43], &[0x10, 6, 0x5C, b'_', b'S', b'B', b'_']);
    assert_eq!(byte_sum(&dsdt), 0);
}

#[test]
fn dsdt_exact_device() {
    let dsdt = build_dsdt(&[(0x1_d000_0000, 5, 0x2_0000_1000)]);
    let device = &dsdt[dsdt.len() - 61..];
    let mut expected = vec![0x5B, 0x82, 59];
    expected.extend_from_slice(b"VR00");
    expected.extend_from_slice(b"\x08_HID\x0DLNRO0005\x00");
    expected.extend_from_slice(b"\x08_UID\x0A\x00");
    expected.extend_from_slice(b"\x08_CRS\x11\x1A\x0A\x17");
    expected.extend_from_slice(&[0x86, 9, 0, 1, 0, 0, 0, 0xd0, 0, 0x10, 0, 0]);
    expected.extend_from_slice(&[0x89, 6, 0, 1, 1, 5, 0, 0, 0]);
    expected.extend_from_slice(&[0x79, 0]);
    assert_eq!(device, &expected[..]);
}

#[test]
fn dsdt_names_and_ids_of_many_devices() {
    let devices = vec![(0xd000_0000u64, 5u32, 0x1000u64); 2080];
    let dsdt = build_dsdt(&devices);
    assert_eq!(byte_sum(&dsdt), 0);
    let len = u32::from_le_bytes(dsdt[4..8].try_into().unwrap());
    assert_eq!(len as usize, dsdt.len());
    let list = &dsdt[dsdt.len() - 61 * 2080..];
    let name = |i: usize| &list[61 * i + 3..61 * i + 7];
    assert_eq!(name(0), b"VR00");
    assert_eq!(name(42), b"VR42");
    assert_eq!(name(100), b"VR:0");
    assert_eq!(name(2079), &[b'V', b'R', 255, b'9']);
    let uid = |i: usize| list[61 * i + 7 + 21];
    assert_eq!(uid(7), 7);
    assert_eq!(uid(255), 255);
    assert_eq!(uid(256), 0);
}

#[test]
fn scope_length_reaches_the_end() {
    // One byte of package length, then two, then three.
    for count in [0usize, 1, 66, 67, 2080] {
        let dsdt = build_dsdt(&vec![(0, 0, 0); count]);
        let lead = dsdt[37];
        let following = (lead >> 6) as usize;
        let mut total = if following == 0 {
            lead as usize
        } else {
            (lead & 0x0F) as usize
        };
        for i in 0..following {
            total |= (dsdt[38 + i] as usize) << (4 + 8 * i);
        }
        assert_eq!(total, dsdt.len() - 37);
    }
}

#[test]
fn guest_follows_the_tables() {
    let mut mem = memory(0x10_0000);
    let devices = [(0xd000_0000u64, 5u32, 0x1000u64)];
    assert_eq!(setup_acpi_tables(&mut mem, 4, &devices), Ok(()));
    let rsdp = read(&mem, RSDP_ADDR, 36);
    let xsdt_addr = le64(&rsdp[24..32]);
    assert_eq!(xsdt_addr, RSDP_ADDR + XSDT_OFFSET);
    let xsdt = read(&mem, xsdt_addr, 52);
    let fadt_addr = le64(&xsdt[36..44]);
    let madt_addr = le64(&xsdt[44..52]);
    assert_eq!(read(&mem, madt_addr, 88), build_madt(4));
    let fadt = read(&mem, fadt_addr, FADT_LEN);
    let dsdt_addr = le64(&fadt[140..148]);
    let dsdt = build_dsdt(&devices);
    assert_eq!(read(&mem, dsdt_addr, dsdt.len()), dsdt);
}

#[test]
fn setup_leaves_other_memory_alone() {
    let mut mem = memory(0x10_0000);
    mem.write_slice(&[0xAA; 0x1000], GuestAddress(RSDP_ADDR - 0x400))
        .unwrap();
    setup_acpi_tables(&mut mem, 1, &[]).unwrap();
    assert!(read(&mem, RSDP_ADDR - 0x400, 0x400).iter().all(|&b| b == 0xAA));
    assert!(read(&mem, RSDP_ADDR + 36, 0x100 - 36).iter().all(|&b| b == 0xAA));
    assert!(read(&mem, RSDP_ADDR + DSDT_OFFSET + 43, 0x100).iter().all(|&b| b == 0xAA));
}

#[test]
fn madt_meets_dsdt_above_twenty_one_processors() {
    let mut mem = memory(0x10_0000);
    setup_acpi_tables(&mut mem, 21, &[]).unwrap();
    let madt = build_madt(21);
    assert_eq!(read(&mem, RSDP_ADDR + MADT_OFFSET, madt.len()), madt);

    let mut mem = memory(0x10_0000);
    setup_acpi_tables(&mut mem, 22, &[]).unwrap();
    let madt = build_madt(22);
    let found = read(&mem, RSDP_ADDR + MADT_OFFSET, madt.len());
    assert_eq!(&found[..224], &madt[..224]);
    assert_eq!(&found[224..228], b"DSDT");
}

#[test]
fn each_table_reports_its_own_failure() {
    let base = RSDP_ADDR as usize;
    let cases = [
        (base, Error::WriteRsdp),
        (base + 35, Error::WriteRsdp),
        (base + 36, Error::WriteXsdt),
        (base + 0x100 + 51, Error::WriteXsdt),
        (base + 0x100 + 52, Error::WriteFadt),
        (base + 0x200 + FADT_LEN, Error::WriteMadt),
        (base + 0x320 + 63, Error::WriteMadt),
        (base + 0x320 + 64, Error::WriteDsdt),
        (base + 0x400 + 42, Error::WriteDsdt),
    ];
    for (len, error) in cases {
        assert_eq!(setup_acpi_tables(&mut memory(len), 1, &[]), Err(error));
    }
    assert_eq!(setup_acpi_tables(&mut memory(base + 0x400 + 43), 1, &[]), Ok(()));
}

#[test]
fn earlier_failures_come_before_the_limits() {
    let base = RSDP_ADDR as usize;
    let devices = vec![(0u64, 0u32, 0u64); 2081];
    assert_eq!(
        setup_acpi_tables(&mut memory(base), 255, &devices),
        Err(Error::WriteRsdp)
    );
    assert_eq!(
        setup_acpi_tables(&mut memory(base + 0x200), 255, &devices),
        Err(Error::WriteFadt)
    );
    assert_eq!(
        setup_acpi_tables(&mut memory(base + 0x320), 1, &devices),
        Err(Error::WriteMadt)
    );
}

#[test]
fn failed_table_is_stored_up_to_the_end_of_memory() {
    let mut mem = memory(RSDP_ADDR as usize + 10);
    assert_eq!(setup_acpi_tables(&mut mem, 1, &[]), Err(Error::WriteRsdp));
    let rsdp = build_rsdp(RSDP_ADDR + XSDT_OFFSET);
    assert_eq!(read(&mem, RSDP_ADDR, 10), &rsdp[..10]);
}

#[test]
fn tables_may_span_regions_that_touch() {
    let split = RSDP_ADDR + 20;
    let mut mem = GuestMemoryMmap::from_ranges(&[
        (GuestAddress(0), split as usize),
        (GuestAddress(split), 0x1_0000),
    ])
    .unwrap();
    assert_eq!(setup_acpi_tables(&mut mem, 1, &[]), Ok(()));
    assert_eq!(byte_sum(&read(&mem, RSDP_ADDR, 36)), 0);
}
