use bootboot_loader::acpi::{
    get_acpi_table, is_table_signature, locate_rsdp, table_address, AcpiSystemDescriptionTable,
    DescriptionHeader, ExtendedDescriptionPointer, RootDescriptionPointer,
};
use bootboot_loader::config::{ConfigTableEntry, ACPI2_GUID, ACPI_GUID, SMBIOS_GUID};
use bootboot_loader::utils::{Checksum, Magic, ParseError};

fn fix_checksum(data: &mut [u8], at: usize) {
    data[at] = 0;
    let sum: u32 = data.iter().map(|&b| b as u32).sum();
    data[at] = ((256 - sum % 256) % 256) as u8;
}

fn set_u32(data: &mut [u8], off: usize, v: u32) {
    data[off..off + 4].copy_from_slice(&v.to_le_bytes());
}

fn set_u64(data: &mut [u8], off: usize, v: u64) {
    data[off..off + 8].copy_from_slice(&v.to_le_bytes());
}

fn valid_rsdp(revision: u8, rsdt_addr: u32) -> Vec<u8> {
    let mut b = vec![0u8; 20];
    b[0..8].copy_from_slice(b"RSD PTR ");
    b[9..15].copy_from_slice(b"OEMIDX");
    b[15] = revision;
    set_u32(&mut b, 16, rsdt_addr);
    fix_checksum(&mut b, 8);
    b
}

fn valid_rsdt(entries: &[u8]) -> Vec<u8> {
    let mut b = vec![0u8; 36 + entries.len()];
    b[0..4].copy_from_slice(b"RSDT");
    set_u32(&mut b, 4, (36 + entries.len()) as u32);
    b[8] = 1; // revision
    b[10..16].copy_from_slice(b"OEMIDX");
    set_u64(&mut b, 16, 0x4142434445464748);
    set_u32(&mut b, 24, 7); // oem revision
    set_u32(&mut b, 28, 0x20202020); // creator id
    set_u32(&mut b, 32, 3); // creator revision
    b[36..].copy_from_slice(entries);
    fix_checksum(&mut b, 9);
    b
}

#[test]
fn rsdp_parses_and_reports_fields() {
    let b = valid_rsdp(0, 0x1234_5678);
    let p = RootDescriptionPointer::parse(&b).unwrap();
    assert_eq!(p.magic(), *b"RSD PTR ");
    assert_eq!(p.oem_id, *b"OEMIDX");
    assert_eq!(p.revision, 0);
    assert_eq!(p.rsdt_addr, 0x1234_5678);
    assert!(p.checksum_valid());
    assert_eq!(p.checksum(), 0);
}

#[test]
fn rsdp_corrupt_checksum_fails() {
    let mut b = valid_rsdp(0, 0x1000);
    b[8] = b[8].wrapping_add(1);
    assert_eq!(
        RootDescriptionPointer::parse(&b).err(), Some(ParseError::FailedChecksum));
}

#[test]
fn rsdp_corrupt_signature_fails() {
    let mut b = valid_rsdp(0, 0x1000);
    b[0] = b'X';
    assert_eq!(RootDescriptionPointer::parse(&b).err(), Some(ParseError::InvalidSignature));
}

#[test]
fn rsdp_valid_magic_bytes() {
    assert_eq!(RootDescriptionPointer::valid_magic(), *b"RSD PTR ");
}

#[test]
fn locate_rsdp_prefers_acpi2_and_rejects_null() {
    let acpi1 = ConfigTableEntry { guid: ACPI_GUID, address: 0x111 };
    let acpi2 = ConfigTableEntry { guid: ACPI2_GUID, address: 0x222 };
    let other = ConfigTableEntry { guid: SMBIOS_GUID, address: 0x333 };

    assert_eq!(locate_rsdp(&[other, acpi1, acpi2]), Ok(0x222));
    assert_eq!(locate_rsdp(&[other, acpi1]), Ok(0x111));
    assert_eq!(locate_rsdp(&[other]).err(), Some(ParseError::NoTable));
    assert_eq!(locate_rsdp(&[]).err(), Some(ParseError::NoTable));

    let null2 = ConfigTableEntry { guid: ACPI2_GUID, address: 0 };
    assert_eq!(locate_rsdp(&[null2, acpi1]).err(), Some(ParseError::InvalidPointer));
}

#[test]
fn get_acpi_table_returns_first_match() {
    let a2a = ConfigTableEntry { guid: ACPI2_GUID, address: 0x10 };
    let a2b = ConfigTableEntry { guid: ACPI2_GUID, address: 0x20 };
    let got = get_acpi_table(&[a2b, a2a]).unwrap();
    assert_eq!(got.address, 0x20);
}

#[test]
fn xsdp_parses_and_selects_xsdt_address() {
    let mut b = vec![0u8; 36];
    b[0..20].copy_from_slice(&valid_rsdp(2, 0xdead_0000));
    set_u32(&mut b, 20, 36);
    set_u64(&mut b, 24, 0xfee1_dead_cafe_f00d);
    fix_checksum(&mut b, 32);

    let rsdp = RootDescriptionPointer::parse(&b).unwrap();
    assert_eq!(rsdp.revision, 2);
    let xsdp = ExtendedDescriptionPointer::parse(&b).unwrap();
    assert!(xsdp.checksum_valid());
    assert_eq!(xsdp.xsdt_addr, 0xfee1_dead_cafe_f00d);

    assert_eq!(
        table_address(&rsdp, Some(&xsdp)),
        Ok(0xfee1_dead_cafe_f00d)
    );
}

#[test]
fn xsdp_corrupt_extended_checksum_fails() {
    let mut b = vec![0u8; 36];
    b[0..20].copy_from_slice(&valid_rsdp(2, 0));
    set_u64(&mut b, 24, 0x1000);
    fix_checksum(&mut b, 32);
    b[33] = 1; // corrupt a reserved byte without re-fixing
    assert_eq!(
        ExtendedDescriptionPointer::parse(&b).err(), Some(ParseError::FailedChecksum));
}

#[test]
fn table_address_zero_extends_rsdt_and_rejects_null() {
    let b = valid_rsdp(0, 0x8000_0001);
    let rsdp = RootDescriptionPointer::parse(&b).unwrap();
    assert_eq!(table_address(&rsdp, None), Ok(0x8000_0001u64));

    let b0 = valid_rsdp(0, 0);
    let rsdp0 = RootDescriptionPointer::parse(&b0).unwrap();
    assert_eq!(table_address(&rsdp0, None).err(), Some(ParseError::InvalidPointer));
}

#[test]
fn direct_table_quirk_is_recognized() {
    assert!(is_table_signature(b"RSDT...."));
    assert!(is_table_signature(b"XSDT...."));
    assert!(!is_table_signature(b"RSD PTR "));
}

#[test]
fn rsdt_parses_and_reports_declared_length() {
    let entries = [0xabu8; 8];
    let b = valid_rsdt(&entries);
    let table = AcpiSystemDescriptionTable::parse(&b).unwrap();
    assert_eq!(table.length(), 44);
    assert_eq!(table.entries(), &entries);
    assert!(table.checksum_valid());
    let h = table.header();
    assert_eq!(h.magic(), *b"RSDT");
    assert_eq!(h.length, 44);
    assert_eq!(h.oem_table_id, 0x4142434445464748);
}

#[test]
fn rsdt_corrupt_checksum_byte_fails() {
    let mut b = valid_rsdt(&[1, 2, 3, 4]);
    b[9] = b[9].wrapping_add(7);
    assert!(matches!(
        AcpiSystemDescriptionTable::parse(&b),
        Err(ParseError::FailedChecksum)
    ));
}

#[test]
fn rsdt_corrupt_signature_fails() {
    let mut b = valid_rsdt(&[]);
    b[0] = b'Q';
    assert!(matches!(
        AcpiSystemDescriptionTable::parse(&b),
        Err(ParseError::InvalidSignature)
    ));
}

#[test]
fn rsdt_bad_sizes_fail() {
    // region shorter than a header
    assert!(matches!(
        AcpiSystemDescriptionTable::parse(&[0u8; 20]),
        Err(ParseError::InvalidSize)
    ));
    // declared length shorter than the header
    let mut b = valid_rsdt(&[]);
    set_u32(&mut b, 4, 20);
    fix_checksum(&mut b, 9);
    assert!(matches!(
        AcpiSystemDescriptionTable::parse(&b),
        Err(ParseError::InvalidSize)
    ));
    // declared length beyond the supplied region
    let mut b2 = valid_rsdt(&[]);
    set_u32(&mut b2, 4, 100);
    fix_checksum(&mut b2, 9);
    assert!(matches!(
        AcpiSystemDescriptionTable::parse(&b2),
        Err(ParseError::InvalidSize)
    ));
}

#[test]
fn description_header_rejects_unknown_signature() {
    let mut b = valid_rsdt(&[]);
    b[0..4].copy_from_slice(b"FACP");
    assert!(matches!(
        DescriptionHeader::parse(&b),
        Err(ParseError::InvalidSignature)
    ));
}
