use bootboot_loader::initrd::ustar::read_ustar;
use bootboot_loader::initrd::Initrd;

/// Appends one ustar member: a 512-byte header block, then the data
/// padded to whole blocks.
fn push_member(archive: &mut Vec<u8>, name: &[u8], data: &[u8]) {
    let mut header = vec![0u8; 512];
    header[..name.len()].copy_from_slice(name);
    let size_field = format!("{:011o}", data.len());
    header[124..135].copy_from_slice(size_field.as_bytes());
    archive.extend_from_slice(&header);
    archive.extend_from_slice(data);
    let extra = data.len() % 512;
    if extra > 0 {
        archive.extend_from_slice(&vec![0u8; 512 - extra]);
    }
}

#[test]
fn finds_a_member_by_name() {
    let mut archive = Vec::new();
    push_member(&mut archive, b"sys/config", b"screen=800x600\n");
    push_member(&mut archive, b"sys/core", b"KERNELDATA");
    assert_eq!(read_ustar(&archive, "sys/core"), Some(&b"KERNELDATA"[..]));
    assert_eq!(
        read_ustar(&archive, "sys/config"),
        Some(&b"screen=800x600\n"[..])
    );
    assert_eq!(read_ustar(&archive, "missing"), None);
}

#[test]
fn finds_members_larger_than_one_block() {
    let big: Vec<u8> = (0..1000u32).map(|i| (i % 251) as u8).collect();
    let mut archive = Vec::new();
    push_member(&mut archive, b"first", b"x");
    push_member(&mut archive, b"big", &big);
    push_member(&mut archive, b"last", b"end");
    assert_eq!(read_ustar(&archive, "big").map(|d| d.to_vec()), Some(big));
    assert_eq!(read_ustar(&archive, "last"), Some(&b"end"[..]));
}

#[test]
fn member_data_past_the_archive_end_is_not_returned() {
    let mut archive = Vec::new();
    push_member(&mut archive, b"file", b"0123456789");
    archive.truncate(516); // keep the header but only 4 data bytes
    assert_eq!(read_ustar(&archive, "file"), None);
}

#[test]
fn header_with_unparsable_size_is_stepped_over() {
    let mut archive = Vec::new();
    // A block whose size field is not octal: the scan steps one block
    // ahead without skipping data
    let mut bogus = vec![0u8; 512];
    bogus[..4].copy_from_slice(b"junk");
    bogus[124..135].copy_from_slice(b"not-a-size!");
    archive.extend_from_slice(&bogus);
    push_member(&mut archive, b"real", b"payload");
    assert_eq!(read_ustar(&archive, "real"), Some(&b"payload"[..]));
}

#[test]
fn header_with_non_utf8_name_is_stepped_over() {
    let mut archive = Vec::new();
    // An entry whose name is not valid UTF-8 but whose size field parses:
    // the scan moves one block ahead without skipping the data, so a
    // member header stored there is still found
    let mut bad = vec![0u8; 512];
    bad[0] = 0xff;
    bad[1] = 0xfe;
    bad[124..135].copy_from_slice(b"00000001000");
    archive.extend_from_slice(&bad);
    push_member(&mut archive, b"inside", b"seen");
    assert_eq!(read_ustar(&archive, "inside"), Some(&b"seen"[..]));
}

#[test]
fn empty_and_short_archives_hold_nothing() {
    assert_eq!(read_ustar(&[], "x"), None);
    assert_eq!(read_ustar(&[0u8; 100], "x"), None);
}

#[test]
fn initrd_wraps_an_archive() {
    let mut archive = Vec::new();
    push_member(&mut archive, b"sys/core", b"KERNEL");
    let len = archive.len();
    let initrd = Initrd::new(archive);
    assert_eq!(initrd.size(), len);
    assert_eq!(initrd.read_file("sys/core"), Some(&b"KERNEL"[..]));
    assert_eq!(initrd.read_file("nope"), None);
}
