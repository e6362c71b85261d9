//! The few AML (ACPI Machine Language) objects that the tables need.

use crate::bytes::{self, u16_le, u32_le};
use vstd::prelude::*;

verus! {

broadcast use crate::bytes::lemma_le_bytes_len;

/// The largest total that a package length of `width` bytes holds: six bits in
/// a single byte, else four bits and eight more for each byte after the first.
pub open spec fn package_length_capacity(width: nat) -> nat {
    if width <= 1 {
        0x3F
    } else if width == 2 {
        0xFFF
    } else if width == 3 {
        0xF_FFFF
    } else {
        0xFFF_FFFF
    }
}

/// Number of bytes that a package length takes in front of `content_len`
/// bytes. The package length counts itself too.
pub open spec fn package_length_width(content_len: nat) -> nat {
    if content_len + 1 <= package_length_capacity(1) {
        1
    } else if content_len + 2 <= package_length_capacity(2) {
        2
    } else if content_len + 3 <= package_length_capacity(3) {
        3
    } else {
        4
    }
}

/// The package length that stands in front of `content_len` bytes: one byte
/// for a small total, else a lead byte, which holds the number of bytes after
/// it and the low four bits, and the other bits in those bytes.
pub open spec fn package_length(content_len: nat) -> Seq<u8> {
    let width = package_length_width(content_len);
    let total = content_len + width;
    if width == 1 {
        seq![total as u8]
    } else {
        seq![(64 * (width - 1) + total % 16) as u8] + bytes::le_bytes(
            total / 16,
            (width - 1) as nat,
        )
    }
}

/// The total that the package length at the start of `bytes` stands for, as a
/// reader of AML takes it.
pub open spec fn read_package_length(bytes: Seq<u8>) -> nat {
    let following = bytes[0] as int / 64;
    if following == 0 {
        bytes[0] as nat
    } else {
        bytes[0] as nat % 16 + 16 * bytes::le_value(bytes.subrange(1, 1 + following))
    }
}

/// `Name(name, data)`.
pub open spec fn name_object(name: Seq<u8>, data: Seq<u8>) -> Seq<u8> {
    seq![0x08u8] + name + data
}

/// A string constant.
pub open spec fn string_object(text: Seq<u8>) -> Seq<u8> {
    seq![0x0Du8] + text + seq![0x00u8]
}

/// `Memory32Fixed(ReadWrite, base, len)`.
pub open spec fn memory32_fixed(base: u32, len: u32) -> Seq<u8> {
    seq![0x86u8] + bytes::le_bytes(9, 2) + seq![0x01u8] + bytes::le_bytes(base as nat, 4)
        + bytes::le_bytes(len as nat, 4)
}

/// `Interrupt(ResourceConsumer, Level, ActiveHigh, Exclusive) { irq }`.
pub open spec fn interrupt(irq: u32) -> Seq<u8> {
    seq![0x89u8] + bytes::le_bytes(6, 2) + seq![0x01u8, 0x01u8] + bytes::le_bytes(irq as nat, 4)
}

/// The resources of one memory-mapped device, with the end tag.
pub open spec fn device_resources(base: u32, len: u32, irq: u32) -> Seq<u8> {
    memory32_fixed(base, len) + interrupt(irq) + seq![0x79u8, 0x00u8]
}

/// `content` behind the package length that covers it.
pub open spec fn package(content: Seq<u8>) -> Seq<u8> {
    package_length(content.len()) + content
}

/// `ResourceTemplate() { ... }`: a buffer that holds the device's resources.
pub open spec fn resource_template(base: u32, len: u32, irq: u32) -> Seq<u8> {
    let resources = device_resources(base, len, irq);
    seq![0x11u8] + package(seq![0x0Au8, resources.len() as u8] + resources)
}

/// `Device(name) { contents }`.
pub open spec fn device_object(name: Seq<u8>, contents: Seq<u8>) -> Seq<u8> {
    seq![0x5Bu8, 0x82u8] + package(name + contents)
}

/// A package length is as long as its width says.
pub broadcast proof fn lemma_package_length_len(content_len: nat)
    ensures
        #[trigger] package_length(content_len).len() == package_length_width(content_len),
{
}

/// A device's resources take 23 bytes.
pub broadcast proof fn lemma_device_resources_len(base: u32, len: u32, irq: u32)
    ensures
        #[trigger] device_resources(base, len, irq).len() == 23,
{
}

/// A resource template takes 27 bytes.
pub broadcast proof fn lemma_resource_template_len(base: u32, len: u32, irq: u32)
    ensures
        #[trigger] resource_template(base, len, irq).len() == 27,
{
    lemma_device_resources_len(base, len, irq);
    lemma_package_length_len(25);
}

/// Whatever a package holds, a reader of its package length finds where the
/// package ends, and the lead byte tells how many bytes follow it. A package
/// length has 28 bits, so the package must be shorter than that.
pub proof fn package_length_spans_the_package(content: Seq<u8>)
    requires
        content.len() + 4 <= package_length_capacity(4),
    ensures
        read_package_length(package(content)) == package(content).len(),
        package(content)[0] as int / 64 == package_length_width(content.len()) - 1,
{
    let width = package_length_width(content.len());
    let total = content.len() + width;
    if width > 1 {
        let rest = bytes::le_bytes(total / 16, (width - 1) as nat);
        let lead = (64 * (width - 1) + total % 16) as u8;
        assert(lead == 64 * (width - 1) + total % 16);
        assert(package(content)[0] == lead);
        assert(lead as int / 64 == width - 1);
        assert(package(content).subrange(1, width as int) =~= rest);
        reveal_with_fuel(vstd::arithmetic::power::pow, 4);
        assert(total / 16 < vstd::arithmetic::power::pow(256, (width - 1) as nat));
        bytes::le_field_reads_back(total / 16, (width - 1) as nat);
        assert(lead as nat % 16 == total % 16);
    }
}

/// No shorter package length could hold the total.
pub proof fn package_length_is_shortest(content_len: nat, shorter: nat)
    requires
        0 < shorter < package_length_width(content_len),
    ensures
        content_len + shorter > package_length_capacity(shorter),
{
}

/// The package length of a device, read behind the two bytes of its opcode,
/// reaches exactly to the end of the device.
pub proof fn device_package_spans_the_device(name: Seq<u8>, contents: Seq<u8>)
    requires
        name.len() == 4,
        contents.len() + 8 <= package_length_capacity(4),
    ensures
        read_package_length(device_object(name, contents).skip(2)) == device_object(
            name,
            contents,
        ).len() - 2,
{
    assert(device_object(name, contents).skip(2) =~= package(name + contents));
    package_length_spans_the_package(name + contents);
}

/// The package length of a resource template, read behind its opcode, reaches
/// exactly to the end of the template, and the size that the buffer declares
/// is that of the resources in it.
pub proof fn resource_template_declares_its_size(base: u32, len: u32, irq: u32)
    ensures
        ({
            let template = resource_template(base, len, irq);
            let resources = device_resources(base, len, irq);
            &&& read_package_length(template.skip(1)) == template.len() - 1
            &&& template[3] as nat == resources.len()
            &&& template.skip(4) == resources
        }),
{
    broadcast use {lemma_device_resources_len, lemma_package_length_len};

    let template = resource_template(base, len, irq);
    let resources = device_resources(base, len, irq);
    let content = seq![0x0Au8, resources.len() as u8] + resources;
    assert(template.skip(1) =~= package(content));
    package_length_spans_the_package(content);
    assert(template.skip(4) =~= resources);
}

/// The package length that stands in front of `content_len` bytes.
///
/// Above 28 bits the high bits of the total are lost, as AML has no room for
/// them.
pub fn aml_pkg_length(content_len: usize) -> (out: Vec<u8>)
    requires
        content_len <= usize::MAX - 4,
    ensures
        out@ == package_length(content_len as nat),
{
    reveal_with_fuel(bytes::le_bytes, 4);
    if content_len < 0x3F {
        let out: Vec<u8> = vec![(content_len + 1) as u8];
        assert(out@ =~= package_length(content_len as nat));
        out
    } else if content_len + 1 < 0xFFF {
        let total: usize = content_len + 2;
        let out: Vec<u8> = vec![0x40 | (total & 0x0F) as u8, ((total >> 4) & 0xFF) as u8];
        proof {
            assert(0x40u8 | ((total & 0x0F) as u8) == 0x40 + total % 16) by (bit_vector);
            assert((total >> 4) & 0xFF == total / 16 % 256) by (bit_vector);
            assert(out@ =~= package_length(content_len as nat));
        }
        out
    } else if content_len + 3 <= 0x0F_FFFF {
        let total: usize = content_len + 3;
        let out: Vec<u8> = vec![
            0x80 | (total & 0x0F) as u8,
            ((total >> 4) & 0xFF) as u8,
            ((total >> 12) & 0xFF) as u8,
        ];
        proof {
            assert(0x80u8 | ((total & 0x0F) as u8) == 0x80 + total % 16) by (bit_vector);
            assert((total >> 4) & 0xFF == total / 16 % 256) by (bit_vector);
            assert((total >> 12) & 0xFF == total / 16 / 256 % 256) by (bit_vector);
            assert(out@ =~= package_length(content_len as nat));
        }
        out
    } else {
        let total: usize = content_len + 4;
        let out: Vec<u8> = vec![
            0xC0 | (total & 0x0F) as u8,
            ((total >> 4) & 0xFF) as u8,
            ((total >> 12) & 0xFF) as u8,
            ((total >> 20) & 0xFF) as u8,
        ];
        proof {
            assert(0xC0u8 | ((total & 0x0F) as u8) == 0xC0 + total % 16) by (bit_vector);
            assert((total >> 4) & 0xFF == total / 16 % 256) by (bit_vector);
            assert((total >> 12) & 0xFF == total / 16 / 256 % 256) by (bit_vector);
            assert((total >> 20) & 0xFF == total / 16 / 256 / 256 % 256) by (bit_vector);
            assert(out@ =~= package_length(content_len as nat));
        }
        out
    }
}

/// `Name(name, data)`.
pub fn aml_name(name: &[u8; 4], data: &[u8]) -> (out: Vec<u8>)
    ensures
        out@ == name_object(name@, data@),
{
    let mut out: Vec<u8> = Vec::new();
    out.push(0x08);
    out.extend_from_slice(name);
    out.extend_from_slice(data);
    assert(out@ =~= name_object(name@, data@));
    out
}

/// A string constant.
pub fn aml_string(s: &[u8]) -> (out: Vec<u8>)
    ensures
        out@ == string_object(s@),
{
    let mut out: Vec<u8> = Vec::new();
    out.push(0x0D);
    out.extend_from_slice(s);
    out.push(0x00);
    assert(out@ =~= string_object(s@));
    out
}

/// The resource template of one memory-mapped device: its register window and
/// its interrupt.
pub fn aml_resource_template(base: u32, len: u32, irq: u32) -> (out: Vec<u8>)
    ensures
        out@ == resource_template(base, len, irq),
{
    let mut resources: Vec<u8> = Vec::with_capacity(23);

    resources.push(0x86);
    resources.extend_from_slice(&u16_le(9));
    resources.push(0x01);
    resources.extend_from_slice(&u32_le(base));
    resources.extend_from_slice(&u32_le(len));
    assert(resources@ =~= memory32_fixed(base, len));

    resources.push(0x89);
    resources.extend_from_slice(&u16_le(6));
    resources.push(0x01);
    resources.push(0x01);
    resources.extend_from_slice(&u32_le(irq));
    assert(resources@ =~= memory32_fixed(base, len) + interrupt(irq));

    resources.push(0x79);
    resources.push(0x00);
    assert(resources@ =~= device_resources(base, len, irq));

    let buf_size = [0x0A, resources.len() as u8];
    let pkg_len = aml_pkg_length(buf_size.len() + resources.len());

    let mut out: Vec<u8> = Vec::with_capacity(1 + pkg_len.len() + 2 + resources.len());
    out.push(0x11);
    out.extend_from_slice(&pkg_len);
    out.extend_from_slice(&buf_size);
    out.extend_from_slice(&resources);
    assert(out@ =~= resource_template(base, len, irq));
    out
}

/// `Device(name) { contents }`.
pub fn aml_device(name: &[u8; 4], contents: &[u8]) -> (out: Vec<u8>)
    requires
        contents@.len() <= usize::MAX - 8,
    ensures
        out@ == device_object(name@, contents@),
{
    let pkg_len = aml_pkg_length(4 + contents.len());

    let mut out: Vec<u8> = Vec::new();
    out.push(0x5B);
    out.push(0x82);
    out.extend_from_slice(&pkg_len);
    out.extend_from_slice(name);
    out.extend_from_slice(contents);
    assert(out@ =~= device_object(name@, contents@));
    out
}

/// A package length counts the content and itself. Up to 62 bytes of content it
/// is that count in one byte. Else its first byte holds the count's low four
/// bits and, in its top two bits, how many bytes follow: one up to 4093 bytes
/// of content, two up to 0xF_FFFC, and else three. Those hold the next bits of
/// the count, eight each and the lower ones first.
pub proof fn package_length_counts_content_and_itself(content_len: usize, out: Vec<u8>)
    requires
        content_len <= usize::MAX - 4,
        call_ensures(aml_pkg_length, (content_len,), out),
    ensures
        content_len <= 62 ==> out@ == seq![(content_len + 1) as u8],
        63 <= content_len <= 4093 ==> out@.len() == 2 && out@[0] == 64 + (content_len + 2) % 16
            && out@[1] == (content_len + 2) / 16,
        4094 <= content_len <= 0xF_FFFC ==> out@.len() == 3 && out@[0] == 128 + (content_len + 3)
            % 16 && out@[1] == (content_len + 3) / 16 % 256 && out@[2] == (content_len + 3)
            / 0x1000,
        0xF_FFFC < content_len ==> out@.len() == 4 && out@[0] == 192 + (content_len + 4) % 16
            && out@[1] == (content_len + 4) / 16 % 256 && out@[2] == (content_len + 4) / 0x1000
            % 256 && out@[3] == (content_len + 4) / 0x10_0000 % 256,
        call_requires(aml_pkg_length, (content_len,)),
{
    lemma_package_length_bytes(content_len as nat);
}

/// Byte by byte what a package length holds.
pub proof fn lemma_package_length_bytes(content_len: nat)
    ensures
        ({
            let out = package_length(content_len);
            &&& content_len <= 62 ==> out == seq![(content_len + 1) as u8]
            &&& 63 <= content_len <= 4093 ==> out.len() == 2 && out[0] == 64 + (content_len + 2)
                % 16 && out[1] == (content_len + 2) / 16
            &&& 4094 <= content_len <= 0xF_FFFC ==> out.len() == 3 && out[0] == 128 + (content_len
                + 3) % 16 && out[1] == (content_len + 3) / 16 % 256 && out[2] == (content_len + 3)
                / 0x1000
            &&& 0xF_FFFC < content_len ==> out.len() == 4 && out[0] == 192 + (content_len + 4) % 16
                && out[1] == (content_len + 4) / 16 % 256 && out[2] == (content_len + 4) / 0x1000
                % 256 && out[3] == (content_len + 4) / 0x10_0000 % 256
        }),
{
    reveal_with_fuel(bytes::le_bytes, 4);
    let total = content_len + package_length_width(content_len);
    assert(total / 16 / 256 == total / 0x1000);
    assert(total / 16 / 256 / 256 == total / 0x10_0000);
}

/// A name object is the byte 0x08, the name, and the data as it is.
pub proof fn name_object_keeps_name_and_data(name: &[u8; 4], data: &[u8], out: Vec<u8>)
    requires
        call_ensures(aml_name, (name, data), out),
    ensures
        out@.len() == 5 + data@.len(),
        out@[0] == 0x08,
        out@.subrange(1, 5) == name@,
        out@.skip(5) == data@,
        call_requires(aml_name, (name, data)),
{
    assert(out@.subrange(1, 5) =~= name@);
    assert(out@.skip(5) =~= data@);
}

/// A string is the byte 0x0D, the text as it is, and a zero.
pub proof fn string_keeps_its_text(s: &[u8], out: Vec<u8>)
    requires
        call_ensures(aml_string, (s,), out),
    ensures
        out@.len() == s@.len() + 2,
        out@[0] == 0x0D,
        out@.subrange(1, out@.len() - 1) == s@,
        out@.last() == 0,
        call_requires(aml_string, (s,)),
{
    assert(out@.subrange(1, out@.len() - 1) =~= s@);
}

/// A resource template has 27 bytes: a buffer of 23 bytes that holds a memory
/// window, an interrupt, and the end tag. The base, the length and the
/// interrupt stand in it with the lowest byte first, and can be read back.
pub proof fn resource_template_holds_window_and_interrupt(
    base: u32,
    len: u32,
    irq: u32,
    out: Vec<u8>,
)
    requires
        call_ensures(aml_resource_template, (base, len, irq), out),
    ensures
        out@.len() == 27,
        out@.subrange(0, 8) == seq![0x11u8, 0x1A, 0x0A, 0x17, 0x86, 0x09, 0x00, 0x01],
        out@[8] + 256 * (out@[9] + 256 * (out@[10] + 256 * out@[11])) == base,
        out@[12] + 256 * (out@[13] + 256 * (out@[14] + 256 * out@[15])) == len,
        out@.subrange(16, 21) == seq![0x89u8, 0x06, 0x00, 0x01, 0x01],
        out@[21] + 256 * (out@[22] + 256 * (out@[23] + 256 * out@[24])) == irq,
        out@.subrange(25, 27) == seq![0x79u8, 0x00],
        call_requires(aml_resource_template, (base, len, irq)),
{
    lemma_resource_template_bytes(base, len, irq);
}

/// Byte by byte what a resource template holds.
pub proof fn lemma_resource_template_bytes(base: u32, len: u32, irq: u32)
    ensures
        ({
            let t = resource_template(base, len, irq);
            &&& t.len() == 27
            &&& t.subrange(0, 8) == seq![0x11u8, 0x1A, 0x0A, 0x17, 0x86, 0x09, 0x00, 0x01]
            &&& t[8] + 256 * (t[9] + 256 * (t[10] + 256 * t[11])) == base
            &&& t[12] + 256 * (t[13] + 256 * (t[14] + 256 * t[15])) == len
            &&& t.subrange(16, 21) == seq![0x89u8, 0x06, 0x00, 0x01, 0x01]
            &&& t[21] + 256 * (t[22] + 256 * (t[23] + 256 * t[24])) == irq
            &&& t.subrange(25, 27) == seq![0x79u8, 0x00]
        }),
{
    let t = resource_template(base, len, irq);
    let resources = device_resources(base, len, irq);
    lemma_resource_template_len(base, len, irq);
    lemma_device_resources_len(base, len, irq);
    let nine = bytes::le_bytes(9, 2);
    let six = bytes::le_bytes(6, 2);
    assert(nine =~= seq![9u8, 0] && six =~= seq![6u8, 0]) by {
        reveal_with_fuel(bytes::le_bytes, 3);
    }
    assert(package_length(25) =~= seq![26u8]);
    assert(t =~= seq![0x11u8, 0x1A, 0x0A, 0x17] + resources);
    let base_field = bytes::le_bytes(base as nat, 4);
    let len_field = bytes::le_bytes(len as nat, 4);
    let irq_field = bytes::le_bytes(irq as nat, 4);
    bytes::lemma_le_bytes_4(base as nat);
    bytes::lemma_le_bytes_4(len as nat);
    bytes::lemma_le_bytes_4(irq as nat);
    assert(t.subrange(8, 12) =~= base_field);
    assert(t[8] == t.subrange(8, 12)[0] && t[9] == t.subrange(8, 12)[1]);
    assert(t[10] == t.subrange(8, 12)[2] && t[11] == t.subrange(8, 12)[3]);
    assert(t.subrange(12, 16) =~= len_field);
    assert(t[12] == t.subrange(12, 16)[0] && t[13] == t.subrange(12, 16)[1]);
    assert(t[14] == t.subrange(12, 16)[2] && t[15] == t.subrange(12, 16)[3]);
    assert(t.subrange(21, 25) =~= irq_field);
    assert(t[21] == t.subrange(21, 25)[0] && t[22] == t.subrange(21, 25)[1]);
    assert(t[23] == t.subrange(21, 25)[2] && t[24] == t.subrange(21, 25)[3]);
}

/// A device is the bytes 0x5B and 0x82, the package length in front of its name
/// and contents, the name, and the contents as they are.
pub proof fn device_keeps_name_and_contents(
    name: &[u8; 4],
    contents: &[u8],
    out: Vec<u8>,
    pkg_len: Vec<u8>,
)
    requires
        contents@.len() <= usize::MAX - 8,
        call_ensures(aml_device, (name, contents), out),
        call_ensures(aml_pkg_length, ((4 + contents@.len()) as usize,), pkg_len),
    ensures
        out@.subrange(0, 2) == seq![0x5Bu8, 0x82],
        out@.subrange(2, (2 + pkg_len@.len()) as int) == pkg_len@,
        out@.subrange((2 + pkg_len@.len()) as int, (6 + pkg_len@.len()) as int) == name@,
        out@.skip((6 + pkg_len@.len()) as int) == contents@,
        call_requires(aml_device, (name, contents)),
{
    assert((name@ + contents@).len() == 4 + contents@.len());
    assert(out@ =~= seq![0x5Bu8, 0x82] + pkg_len@ + name@ + contents@);
}

} // verus!
