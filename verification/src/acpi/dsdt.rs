//! The DSDT (Differentiated System Description Table): the virtio devices.

use super::aml::{self, aml_device, aml_name, aml_pkg_length, aml_resource_template, aml_string};
use super::sdt::{self, acpi_checksum, acpi_header};
use crate::bytes;
use vstd::prelude::*;

verus! {

broadcast use {
    crate::bytes::lemma_le_bytes_len,
    crate::acpi::aml::lemma_package_length_len,
    crate::acpi::aml::lemma_resource_template_len,
};

/// `DSDT`.
pub const DSDT_SIGNATURE: [u8; 4] = ['D' as u8, 'S' as u8, 'D' as u8, 'T' as u8];

/// `KRUNDSDT`.
pub const DSDT_TABLE_ID: [u8; 8] = [
    'K' as u8,
    'R' as u8,
    'U' as u8,
    'N' as u8,
    'D' as u8,
    'S' as u8,
    'D' as u8,
    'T' as u8,
];

/// Revision of the DSDT.
pub const DSDT_REVISION: u8 = 2;

/// The most devices that get a name: the digit of the tens runs up to the last
/// character code there is.
pub const MAX_DEVICES: usize = 2080;

/// `LNRO0005`, the hardware ID of a memory-mapped virtio device.
pub const VIRTIO_MMIO_HID: [u8; 8] = [
    'L' as u8,
    'N' as u8,
    'R' as u8,
    'O' as u8,
    '0' as u8,
    '0' as u8,
    '0' as u8,
    '5' as u8,
];

/// `_HID`.
pub const HID_NAME: [u8; 4] = ['_' as u8, 'H' as u8, 'I' as u8, 'D' as u8];

/// `_UID`.
pub const UID_NAME: [u8; 4] = ['_' as u8, 'U' as u8, 'I' as u8, 'D' as u8];

/// `_CRS`.
pub const CRS_NAME: [u8; 4] = ['_' as u8, 'C' as u8, 'R' as u8, 'S' as u8];

/// `\_SB_`.
pub const SCOPE_NAME: [u8; 5] = [0x5C, '_' as u8, 'S' as u8, 'B' as u8, '_' as u8];

/// The name of the device at `index`: `VR`, then the tens and the ones.
pub open spec fn device_name(index: nat) -> Seq<u8> {
    seq!['V' as u8, 'R' as u8, ('0' as u8 + index / 10) as u8, ('0' as u8 + index % 10) as u8]
}

/// What the device at `index` says of itself: hardware ID, unique ID, and the
/// resources. A device is its address, its interrupt, and its length; the
/// address and the length lose all but their low 32 bits.
pub open spec fn device_contents(index: nat, device: (u64, u32, u64)) -> Seq<u8> {
    aml::name_object(HID_NAME@, aml::string_object(VIRTIO_MMIO_HID@)) + aml::name_object(
        UID_NAME@,
        seq![0x0Au8, (index % 256) as u8],
    ) + aml::name_object(
        CRS_NAME@,
        aml::resource_template(
            (device.0 % 0x1_0000_0000) as u32,
            (device.2 % 0x1_0000_0000) as u32,
            device.1,
        ),
    )
}

/// The device at `index`, as it stands in the table.
pub open spec fn device(index: nat, device: (u64, u32, u64)) -> Seq<u8> {
    aml::device_object(device_name(index), device_contents(index, device))
}

/// All devices, in order.
pub open spec fn device_list(devices: Seq<(u64, u32, u64)>) -> Seq<u8>
    decreases devices.len(),
{
    if devices.len() == 0 {
        Seq::empty()
    } else {
        device_list(devices.drop_last()) + device(
            (devices.len() - 1) as nat,
            devices.last(),
        )
    }
}

/// `Scope(\_SB) { devices }`.
pub open spec fn dsdt_body(devices: Seq<(u64, u32, u64)>) -> Seq<u8> {
    seq![0x10u8] + aml::package(SCOPE_NAME@ + device_list(devices))
}

/// The DSDT that lists `devices`.
pub open spec fn dsdt(devices: Seq<(u64, u32, u64)>) -> Seq<u8> {
    sdt::table(DSDT_SIGNATURE@, DSDT_REVISION, DSDT_TABLE_ID@, dsdt_body(devices))
}

/// A device's contents take 54 bytes.
pub proof fn lemma_device_contents_len(index: nat, device: (u64, u32, u64))
    ensures
        device_contents(index, device).len() == 54,
{
}

/// A device takes 61 bytes.
pub proof fn lemma_device_len(index: nat, dev: (u64, u32, u64))
    ensures
        device(index, dev).len() == 61,
{
    lemma_device_contents_len(index, dev);
}

/// The devices take 61 bytes each.
pub proof fn lemma_device_list_len(devices: Seq<(u64, u32, u64)>)
    ensures
        device_list(devices).len() == 61 * devices.len(),
    decreases devices.len(),
{
    if devices.len() > 0 {
        lemma_device_list_len(devices.drop_last());
        lemma_device_len((devices.len() - 1) as nat, devices.last());
    }
}

/// The device at `index` stands where its position in the list says.
pub proof fn lemma_device_position(devices: Seq<(u64, u32, u64)>, index: int)
    requires
        0 <= index < devices.len(),
    ensures
        device_list(devices).subrange(61 * index, 61 * index + 61) == device(
            index as nat,
            devices[index],
        ),
    decreases devices.len(),
{
    let before = device_list(devices.drop_last());
    lemma_device_list_len(devices.drop_last());
    lemma_device_len((devices.len() - 1) as nat, devices.last());
    let found = device_list(devices).subrange(61 * index, 61 * index + 61);
    if index == devices.len() - 1 {
        assert(found =~= device(index as nat, devices[index]));
    } else {
        lemma_device_position(devices.drop_last(), index);
        assert(found =~= before.subrange(61 * index, 61 * index + 61));
    }
}

/// The DSDT is a well-formed table, and the package length of its scope, read
/// behind the header and the opcode, reaches exactly to the end of the table.
pub proof fn dsdt_is_well_formed(devices: Seq<(u64, u32, u64)>)
    requires
        devices.len() <= MAX_DEVICES,
    ensures
        ({
            let table = dsdt(devices);
            &&& table.subrange(0, 4) == DSDT_SIGNATURE@
            &&& bytes::le_value(table.subrange(4, 8)) == table.len()
            &&& bytes::byte_sum(table) % 256 == 0
            &&& aml::read_package_length(table.skip(37)) == table.len() - 37
        }),
{
    let scope = SCOPE_NAME@ + device_list(devices);
    lemma_device_list_len(devices);
    sdt::table_is_well_formed(
        DSDT_SIGNATURE@,
        DSDT_REVISION,
        DSDT_TABLE_ID@,
        dsdt_body(devices),
    );
    aml::package_length_spans_the_package(scope);
    assert(dsdt(devices).skip(37) =~= aml::package(scope));
}

/// Every device is listed: the table ends with the devices in order, 61 bytes
/// each.
pub proof fn dsdt_lists_every_device(devices: Seq<(u64, u32, u64)>, index: int)
    requires
        devices.len() <= MAX_DEVICES,
        0 <= index < devices.len(),
    ensures
        ({
            let table = dsdt(devices);
            let start = table.len() - 61 * (devices.len() - index);
            table.subrange(start, start + 61) == device(index as nat, devices[index])
        }),
{
    let table = dsdt(devices);
    let list = device_list(devices);
    let start = table.len() - 61 * (devices.len() - index);
    lemma_device_list_len(devices);
    lemma_device_position(devices, index);
    assert(table.subrange(start, start + 61) =~= list.subrange(61 * index, 61 * index + 61));
}

/// No two devices of one table share a name.
pub proof fn device_names_are_distinct(first: nat, second: nat)
    requires
        first < MAX_DEVICES,
        second < MAX_DEVICES,
        first != second,
    ensures
        device_name(first) != device_name(second),
{
    assert(device_name(first)[2] == '0' as u8 + first / 10);
    assert(device_name(second)[2] == '0' as u8 + second / 10);
    assert(device_name(first)[3] == '0' as u8 + first % 10);
    assert(device_name(second)[3] == '0' as u8 + second % 10);
}

/// As long as a unique ID fits its byte, no two devices share one.
pub proof fn device_uids_are_distinct(
    first: nat,
    first_device: (u64, u32, u64),
    second: nat,
    second_device: (u64, u32, u64),
)
    requires
        first < 256,
        second < 256,
        first != second,
    ensures
        device_contents(first, first_device)[21] == first,
        device_contents(second, second_device)[21] == second,
        device_contents(first, first_device)[21] != device_contents(second, second_device)[21],
{
}

/// The DSDT that lists `devices`, each given as its address, its interrupt,
/// and its length.
pub fn build_dsdt(devices: &[(u64, u32, u64)]) -> (out: Vec<u8>)
    requires
        devices@.len() <= MAX_DEVICES,
    ensures
        out@ == dsdt(devices@),
{
    let mut device_bytes: Vec<u8> = Vec::new();
    let mut i: usize = 0;
    while i < devices.len()
        invariant
            i <= devices@.len() <= MAX_DEVICES,
            device_bytes@ == device_list(devices@.take(i as int)),
        decreases devices@.len() - i,
    {
        let (addr, irq, len) = devices[i];
        let name = ['V' as u8, 'R' as u8, '0' as u8 + (i / 10) as u8, '0' as u8 + (i % 10) as u8];
        assert(name@ =~= device_name(i as nat));

        let mut dev_content: Vec<u8> = Vec::new();
        let hid = aml_string(&VIRTIO_MMIO_HID);
        dev_content.extend_from_slice(&aml_name(&HID_NAME, &hid));
        let uid = [0x0A, i as u8];
        dev_content.extend_from_slice(&aml_name(&UID_NAME, &uid));
        let crs = aml_resource_template(addr as u32, len as u32, irq);
        dev_content.extend_from_slice(&aml_name(&CRS_NAME, &crs));
        proof {
            assert(i as u8 == (i % 256) as u8) by (bit_vector);
            assert(addr as u32 == (addr % 0x1_0000_0000) as u32) by (bit_vector);
            assert(len as u32 == (len % 0x1_0000_0000) as u32) by (bit_vector);
            assert(uid@ =~= seq![0x0Au8, (i as nat % 256) as u8]);
            assert(dev_content@ =~= device_contents(i as nat, devices@[i as int]));
            lemma_device_contents_len(i as nat, devices@[i as int]);
        }

        device_bytes.extend_from_slice(&aml_device(&name, &dev_content));
        assert(devices@.take(i + 1).drop_last() =~= devices@.take(i as int));
        assert(device_bytes@ =~= device_list(devices@.take(i + 1)));
        i = i + 1;
    }
    assert(devices@.take(i as int) =~= devices@);
    proof {
        lemma_device_list_len(devices@);
    }

    let pkg_len = aml_pkg_length(5 + device_bytes.len());

    let mut body: Vec<u8> = Vec::new();
    body.push(0x10);
    body.extend_from_slice(&pkg_len);
    body.extend_from_slice(&SCOPE_NAME);
    body.extend_from_slice(&device_bytes);
    assert(body@ =~= dsdt_body(devices@));

    let total_len: usize = 36 + body.len();
    let hdr = acpi_header(&DSDT_SIGNATURE, total_len as u32, DSDT_REVISION, &DSDT_TABLE_ID);

    let mut out: Vec<u8> = Vec::with_capacity(total_len);
    out.extend_from_slice(&hdr);
    out.extend_from_slice(&body);
    assert(out@ =~= hdr@ + dsdt_body(devices@));
    let checksum: u8 = acpi_checksum(&out);
    out[9] = checksum;
    out
}

/// Byte by byte what the device at `index` holds.
pub proof fn lemma_device_bytes(index: nat, dev: (u64, u32, u64))
    requires
        index < 2080,
    ensures
        ({
            let d = device(index, dev);
            &&& d.len() == 61
            &&& d.subrange(0, 7) == seq![
                0x5Bu8,
                0x82,
                0x3B,
                0x56,
                0x52,
                (48 + index / 10) as u8,
                (48 + index % 10) as u8,
            ]
            &&& d.subrange(7, 13) == seq![0x08u8, 0x5F, 0x48, 0x49, 0x44, 0x0D]
            &&& d.subrange(13, 22) == seq![
                0x4Cu8,
                0x4E,
                0x52,
                0x4F,
                0x30,
                0x30,
                0x30,
                0x35,
                0x00,
            ]
            &&& d.subrange(22, 29) == seq![
                0x08u8,
                0x5F,
                0x55,
                0x49,
                0x44,
                0x0A,
                (index % 256) as u8,
            ]
            &&& d.subrange(29, 34) == seq![0x08u8, 0x5F, 0x43, 0x52, 0x53]
            &&& d.subrange(34, 61) == aml::resource_template(
                (dev.0 % 0x1_0000_0000) as u32,
                (dev.2 % 0x1_0000_0000) as u32,
                dev.1,
            )
        }),
{
    let d = device(index, dev);
    let contents = device_contents(index, dev);
    lemma_device_contents_len(index, dev);
    assert(aml::package_length(58) =~= seq![59u8]);
    assert((device_name(index) + contents).len() == 58);
    assert(d =~= seq![0x5Bu8, 0x82, 0x3B] + device_name(index) + contents);
    assert(d.subrange(29, 34) =~= seq![0x08u8, 0x5F, 0x43, 0x52, 0x53]);
    assert(d.subrange(34, 61) =~= aml::resource_template(
        (dev.0 % 0x1_0000_0000) as u32,
        (dev.2 % 0x1_0000_0000) as u32,
        dev.1,
    ));
}

/// What the table holds around the devices.
pub proof fn lemma_dsdt_frame(devices: Seq<(u64, u32, u64)>)
    requires
        devices.len() <= 2080,
    ensures
        ({
            let t = dsdt(devices);
            let count = devices.len();
            &&& t.subrange(0, 4) == seq![0x44u8, 0x53, 0x44, 0x54]
            &&& t[4] + 256 * (t[5] + 256 * (t[6] + 256 * t[7])) == t.len()
            &&& t[8] == 2
            &&& t.subrange(10, 16) == seq![0x4Cu8, 0x49, 0x42, 0x4B, 0x52, 0x4E]
            &&& t.subrange(16, 24) == seq![0x4Bu8, 0x52, 0x55, 0x4E, 0x44, 0x53, 0x44, 0x54]
            &&& t.subrange(24, 36) == seq![1u8, 0, 0, 0, 0x4B, 0x52, 0x55, 0x4E, 1, 0, 0, 0]
            &&& t[36] == 0x10
            &&& count == 0 ==> t.len() == 43 && t[37] == 6
            &&& 1 <= count <= 67 ==> t.len() == 44 + 61 * count && t[37] == 64 + (t.len() - 37)
                % 16 && t[38] == (t.len() - 37) / 16
            &&& 68 <= count ==> t.len() == 45 + 61 * count && t[37] == 128 + (t.len() - 37) % 16
                && t[38] == (t.len() - 37) / 16 % 256 && t[39] == (t.len() - 37) / 0x1000
            &&& t.subrange(t.len() - 61 * count - 5, t.len() - 61 * count) == seq![
                0x5Cu8,
                0x5F,
                0x53,
                0x42,
                0x5F,
            ]
        }),
{
    let t = dsdt(devices);
    let list = device_list(devices);
    let scope = SCOPE_NAME@ + list;
    let body = dsdt_body(devices);
    lemma_device_list_len(devices);
    let pkg = aml::package_length(scope.len());
    aml::lemma_package_length_bytes(scope.len());
    sdt::lemma_table_bytes(DSDT_SIGNATURE@, DSDT_REVISION, DSDT_TABLE_ID@, body);
    assert(DSDT_SIGNATURE@ =~= seq![0x44u8, 0x53, 0x44, 0x54]);
    assert(DSDT_TABLE_ID@ =~= seq![0x4Bu8, 0x52, 0x55, 0x4E, 0x44, 0x53, 0x44, 0x54]);
    assert(t.len() == 42 + pkg.len() + list.len());
    assert forall|k: int| 36 <= k < t.len() implies t[k] == body[k - 36] by {
        assert(t.skip(36)[k - 36] == t[k]);
    }
    assert forall|k: int| 0 <= k < pkg.len() implies t[37 + k] == pkg[k] by {
        assert(body[1 + k] == pkg[k]);
    }
    assert(t[37] == pkg[0]);
    assert(pkg.len() > 1 ==> t[38] == pkg[1]);
    assert(pkg.len() > 2 ==> t[39] == pkg[2]);
    let start = t.len() - 61 * devices.len() - 5;
    assert(t.subrange(start, start + 5) =~= SCOPE_NAME@);
    assert(SCOPE_NAME@ =~= seq![0x5Cu8, 0x5F, 0x53, 0x42, 0x5F]);
}

/// Whatever devices it lists, the DSDT has the signature `DSDT`, says how long
/// it is, is of revision 2, and has the table ID `KRUNDSDT`. It is one scope:
/// opcode 0x10, the package length up to the end of the table, and `\_SB_`. Then
/// come 61 bytes for each device, and nothing else.
pub proof fn dsdt_frames_the_devices(devices: &[(u64, u32, u64)], out: Vec<u8>)
    requires
        devices@.len() <= 2080,
        call_ensures(build_dsdt, (devices,), out),
    ensures
        out@.subrange(0, 4) == seq![0x44u8, 0x53, 0x44, 0x54],
        out@[4] + 256 * (out@[5] + 256 * (out@[6] + 256 * out@[7])) == out@.len(),
        out@[8] == 2,
        out@.subrange(10, 16) == seq![0x4Cu8, 0x49, 0x42, 0x4B, 0x52, 0x4E],
        out@.subrange(16, 24) == seq![0x4Bu8, 0x52, 0x55, 0x4E, 0x44, 0x53, 0x44, 0x54],
        out@.subrange(24, 36) == seq![1u8, 0, 0, 0, 0x4B, 0x52, 0x55, 0x4E, 1, 0, 0, 0],
        out@[36] == 0x10,
        devices@.len() == 0 ==> out@.len() == 43 && out@[37] == 6,
        1 <= devices@.len() <= 67 ==> out@.len() == 44 + 61 * devices@.len() && out@[37] == 64 + (
        out@.len() - 37) % 16 && out@[38] == (out@.len() - 37) / 16,
        68 <= devices@.len() ==> out@.len() == 45 + 61 * devices@.len() && out@[37] == 128 + (
        out@.len() - 37) % 16 && out@[38] == (out@.len() - 37) / 16 % 256 && out@[39] == (out@.len()
            - 37) / 0x1000,
        out@.subrange(
            out@.len() - 61 * devices@.len() - 5,
            out@.len() - 61 * devices@.len(),
        ) == seq![0x5Cu8, 0x5F, 0x53, 0x42, 0x5F],
        call_requires(build_dsdt, (devices,)),
{
    lemma_dsdt_frame(devices@);
}

/// Byte by byte what the table holds of the device at `index`.
pub proof fn lemma_device_in_table(devices: Seq<(u64, u32, u64)>, index: int, object: Seq<u8>)
    requires
        devices.len() <= 2080,
        0 <= index < devices.len(),
        object == dsdt(devices).skip(dsdt(devices).len() - 61 * (devices.len() - index)).take(61),
    ensures
        object.len() == 61,
        object.subrange(0, 7) == seq![
            0x5Bu8,
            0x82,
            0x3B,
            0x56,
            0x52,
            (48 + index / 10) as u8,
            (48 + index % 10) as u8,
        ],
        object.subrange(7, 13) == seq![0x08u8, 0x5F, 0x48, 0x49, 0x44, 0x0D],
        object.subrange(13, 22) == seq![
            0x4Cu8,
            0x4E,
            0x52,
            0x4F,
            0x30,
            0x30,
            0x30,
            0x35,
            0x00,
        ],
        object.subrange(22, 29) == seq![
            0x08u8,
            0x5F,
            0x55,
            0x49,
            0x44,
            0x0A,
            (index % 256) as u8,
        ],
        object.subrange(29, 34) == seq![0x08u8, 0x5F, 0x43, 0x52, 0x53],
        object.subrange(34, 42) == seq![0x11u8, 0x1A, 0x0A, 0x17, 0x86, 0x09, 0x00, 0x01],
        object[42] + 256 * (object[43] + 256 * (object[44] + 256 * object[45]))
            == devices[index].0 % 0x1_0000_0000,
        object[46] + 256 * (object[47] + 256 * (object[48] + 256 * object[49]))
            == devices[index].2 % 0x1_0000_0000,
        object.subrange(50, 55) == seq![0x89u8, 0x06, 0x00, 0x01, 0x01],
        object[55] + 256 * (object[56] + 256 * (object[57] + 256 * object[58]))
            == devices[index].1,
        object.subrange(59, 61) == seq![0x79u8, 0x00],
{
    let dev = devices[index];
    let start = dsdt(devices).len() - 61 * (devices.len() - index);
    lemma_device_list_len(devices);
    dsdt_lists_every_device(devices, index);
    assert(object =~= dsdt(devices).subrange(start, start + 61));
    lemma_device_bytes(index as nat, dev);
    let base = (dev.0 % 0x1_0000_0000) as u32;
    let len = (dev.2 % 0x1_0000_0000) as u32;
    let crs = aml::resource_template(base, len, dev.1);
    aml::lemma_resource_template_bytes(base, len, dev.1);
    assert(object.subrange(34, 61) == crs);
    assert forall|k: int| 34 <= k < 61 implies object[k] == crs[k - 34] by {
        assert(object.subrange(34, 61)[k - 34] == object[k]);
    }
    assert(object.subrange(34, 42) =~= crs.subrange(0, 8));
    assert(object.subrange(50, 55) =~= crs.subrange(16, 21));
    assert(object.subrange(59, 61) =~= crs.subrange(25, 27));
}

/// The last 61 bytes for each device from the one at `index` on begin with that
/// very device: named `VR` and the tens and ones of its index, with hardware ID
/// `LNRO0005` and the index as its unique ID. Its resources are its own: the low
/// 32 bits of its address and of its length, and its interrupt.
pub proof fn dsdt_describes_every_device(
    devices: &[(u64, u32, u64)],
    out: Vec<u8>,
    index: int,
    object: Seq<u8>,
)
    requires
        devices@.len() <= 2080,
        call_ensures(build_dsdt, (devices,), out),
        0 <= index < devices@.len(),
        object == out@.skip(out@.len() - 61 * (devices@.len() - index)).take(61),
    ensures
        object.len() == 61,
        object.subrange(0, 7) == seq![
            0x5Bu8,
            0x82,
            0x3B,
            0x56,
            0x52,
            (48 + index / 10) as u8,
            (48 + index % 10) as u8,
        ],
        object.subrange(7, 13) == seq![0x08u8, 0x5F, 0x48, 0x49, 0x44, 0x0D],
        object.subrange(13, 22) == seq![
            0x4Cu8,
            0x4E,
            0x52,
            0x4F,
            0x30,
            0x30,
            0x30,
            0x35,
            0x00,
        ],
        object.subrange(22, 29) == seq![
            0x08u8,
            0x5F,
            0x55,
            0x49,
            0x44,
            0x0A,
            (index % 256) as u8,
        ],
        object.subrange(29, 34) == seq![0x08u8, 0x5F, 0x43, 0x52, 0x53],
        object.subrange(34, 42) == seq![0x11u8, 0x1A, 0x0A, 0x17, 0x86, 0x09, 0x00, 0x01],
        object[42] + 256 * (object[43] + 256 * (object[44] + 256 * object[45]))
            == devices@[index].0 % 0x1_0000_0000,
        object[46] + 256 * (object[47] + 256 * (object[48] + 256 * object[49]))
            == devices@[index].2 % 0x1_0000_0000,
        object.subrange(50, 55) == seq![0x89u8, 0x06, 0x00, 0x01, 0x01],
        object[55] + 256 * (object[56] + 256 * (object[57] + 256 * object[58]))
            == devices@[index].1,
        object.subrange(59, 61) == seq![0x79u8, 0x00],
{
    lemma_device_in_table(devices@, index, object);
}

/// The checksum of the DSDT as a whole is zero.
pub proof fn dsdt_checksum_is_zero(
    devices: &[(u64, u32, u64)],
    out: Vec<u8>,
    whole: &[u8],
    checksum: u8,
)
    requires
        devices@.len() <= 2080,
        call_ensures(build_dsdt, (devices,), out),
        whole@ == out@,
        call_ensures(acpi_checksum, (whole,), checksum),
    ensures
        checksum == 0,
{
    dsdt_is_well_formed(devices@);
}

} // verus!
