use krun_boot::acpi::{aml_device, aml_name, aml_pkg_length, aml_resource_template, aml_string};

fn total(pkg: &[u8]) -> usize {
    let following = (pkg[0] >> 6) as usize;
    assert_eq!(pkg.len(), following + 1);
    if following == 0 {
        return pkg[0] as usize;
    }
    let mut out = (pkg[0] & 0x0F) as usize;
    for i in 0..following {
        out |= (pkg[i + 1] as usize) << (4 + 8 * i);
    }
    out
}

#[test]
fn test_pkg_length_one_byte() {
    let pkg = aml_pkg_length(10);
    assert_eq!(pkg.len(), 1);
    assert_eq!(pkg[0], 11);
}

#[test]
fn test_pkg_length_two_bytes() {
    let pkg = aml_pkg_length(100);
    assert_eq!(pkg.len(), 2);
    let total = 102;
    assert_eq!(pkg[0], 0x40 | (total & 0x0F) as u8);
    assert_eq!(pkg[1], ((total >> 4) & 0xFF) as u8);
}

#[test]
fn pkg_length_at_every_boundary() {
    let cases = [
        (0usize, 1usize),
        (0x3E, 1),
        (0x3F, 2),
        (0xFFD, 2),
        (0xFFE, 3),
        (0xF_FFFC, 3),
        (0xF_FFFD, 4),
        (0xFFF_FFFB, 4),
    ];
    for (content, width) in cases {
        let pkg = aml_pkg_length(content);
        assert_eq!(pkg.len(), width);
        assert_eq!(total(&pkg), content + width);
    }
    assert_eq!(aml_pkg_length(0xFFD), vec![0x4F, 0xFF]);
    assert_eq!(aml_pkg_length(0xFFE), vec![0x81, 0x00, 0x01]);
    assert_eq!(aml_pkg_length(0xF_FFFD), vec![0xC1, 0x00, 0x00, 0x01]);
}

#[test]
fn pkg_length_drops_what_it_has_no_room_for() {
    assert_eq!(aml_pkg_length(0xFFF_FFFC), vec![0xC0, 0, 0, 0]);
}

#[test]
fn name_and_string() {
    assert_eq!(aml_name(b"_UID", &[0x0A, 3]), b"\x08_UID\x0A\x03");
    assert_eq!(aml_name(b"_UID", &[]), b"\x08_UID");
    assert_eq!(aml_string(b"AB"), b"\x0DAB\x00");
    assert_eq!(aml_string(b""), b"\x0D\x00");
}

#[test]
fn resource_template_exact_bytes() {
    let template = aml_resource_template(0xd000_0000, 0x1000, 0x0102_0304);
    assert_eq!(
        template,
        vec![
            0x11, 26, 0x0A, 23, 0x86, 9, 0, 1, 0, 0, 0, 0xd0, 0, 0x10, 0, 0, 0x89, 6, 0, 1, 1, 4,
            3, 2, 1, 0x79, 0
        ]
    );
    assert_eq!(total(&template[1..2]), template.len() - 1);
    assert_eq!(template[3] as usize, template.len() - 4);
}

#[test]
fn device_length_reaches_its_end() {
    let small = aml_device(b"VR07", &[1, 2, 3]);
    assert_eq!(small, b"\x5B\x82\x08VR07\x01\x02\x03");
    let large = aml_device(b"VR07", &[0; 100]);
    assert_eq!(large.len(), 2 + 2 + 4 + 100);
    assert_eq!(total(&large[2..4]), large.len() - 2);
}
