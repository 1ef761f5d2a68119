use bootboot_loader::elf::{ElfHeader64, ElfParseError};
use bootboot_loader::utils::Magic;

fn set_u16(b: &mut [u8], off: usize, v: u16) {
    b[off..off + 2].copy_from_slice(&v.to_le_bytes());
}

fn set_u32(b: &mut [u8], off: usize, v: u32) {
    b[off..off + 4].copy_from_slice(&v.to_le_bytes());
}

fn set_u64(b: &mut [u8], off: usize, v: u64) {
    b[off..off + 8].copy_from_slice(&v.to_le_bytes());
}

fn valid_header_bytes() -> Vec<u8> {
    let mut b = vec![0u8; 64];
    b[0..4].copy_from_slice(&[0x7f, 0x45, 0x4c, 0x46]);
    b[4] = 2; // 64-bit
    b[5] = 1; // little endian
    b[6] = 1; // ident version
    b[7] = 0; // System V
    set_u16(&mut b, 16, 2); // executable
    set_u16(&mut b, 18, 0x3e); // x86-64
    set_u32(&mut b, 20, 1); // version
    set_u64(&mut b, 24, 0x1000); // entry
    set_u64(&mut b, 32, 64); // ph offset
    set_u64(&mut b, 40, 120); // sh offset
    set_u16(&mut b, 52, 64); // header size
    set_u16(&mut b, 54, 56); // ph entry size
    set_u16(&mut b, 56, 1); // ph num
    set_u16(&mut b, 58, 64); // sh entry size
    set_u16(&mut b, 60, 0); // sh num
    set_u16(&mut b, 62, 0); // sh string index
    b
}

#[test]
fn minimal_valid_header_parses() {
    let b = valid_header_bytes();
    let h = ElfHeader64::new(&b).unwrap();
    assert_eq!(h.magic(), [0x7f, 0x45, 0x4c, 0x46]);
    assert_eq!(h.class(), 2);
    assert_eq!(h.data(), 1);
    assert_eq!(h.ident_version(), 1);
    assert_eq!(h.os_abi(), 0);
    assert_eq!(h.file_type, 2);
    assert_eq!(h.isa, 0x3e);
    assert_eq!(h.version, 1);
    assert_eq!(h.entry, 0x1000);
    assert_eq!(h.ph_offset, 64);
    assert_eq!(h.sh_offset, 120);
    assert_eq!(h.header_size, 64);
    assert_eq!(h.ph_entry_size, 56);
    assert_eq!(h.ph_num, 1);
    assert_eq!(h.sh_entry_size, 64);
    assert_eq!(h.sh_num, 0);
    assert_eq!(h.sh_string_index, 0);
}

#[test]
fn each_corrupted_field_gives_exactly_its_error() {
    let cases: [(usize, u8, ElfParseError); 8] = [
        (0, 0x7e, ElfParseError::InvalidMagic),
        (4, 1, ElfParseError::Not64Bit),
        (5, 2, ElfParseError::NotLittleEndian),
        (6, 2, ElfParseError::InvalidVersion),
        (7, 3, ElfParseError::InvalidAbi),
        (16, 1, ElfParseError::InvalidFileType),
        (18, 0x28, ElfParseError::InvalidIsa),
        (52, 52, ElfParseError::InvalidSize),
    ];
    for (off, val, expected) in cases {
        let mut b = valid_header_bytes();
        b[off] = val;
        assert_eq!(ElfHeader64::new(&b).err(), Some(expected), "corrupting offset {}", off);
    }
}

#[test]
fn version_check_applies_only_to_old_version_files() {
    // ident version != 1 while the file version field reads 1: rejected
    let mut b = valid_header_bytes();
    b[6] = 2;
    assert_eq!(ElfHeader64::new(&b).err(), Some(ElfParseError::InvalidVersion));

    // ident version != 1 with a different file version: passes the check
    let mut b2 = valid_header_bytes();
    b2[6] = 2;
    set_u32(&mut b2, 20, 2);
    let h = ElfHeader64::new(&b2).unwrap();
    assert_eq!(h.ident_version(), 2);
    assert_eq!(h.version, 2);
}

#[test]
fn elf_valid_magic_bytes() {
    assert_eq!(ElfHeader64::valid_magic(), [0x7f, 0x45, 0x4c, 0x46]);
}

#[test]
fn get_headers_decodes_program_headers() {
    let mut data = valid_header_bytes();
    data.resize(64 + 56, 0);
    set_u64(&mut data, 40, 64); // sh offset inside the file (no sections)
    let h = ElfHeader64::new(&data[0..64].to_vec()).unwrap();
    let mut img = data.clone();
    // one program header at offset 64
    set_u32(&mut img, 64, 1); // LOAD
    set_u64(&mut img, 64 + 8, 0x40); // offset
    set_u64(&mut img, 64 + 32, 0x10); // file size
    set_u64(&mut img, 64 + 40, 0x20); // mem size
    let (sections, programs) = h.get_headers(&img).unwrap();
    assert_eq!(sections.len(), 0);
    assert_eq!(programs.len(), 1);
    assert_eq!(programs[0].program_type, 1);
    assert_eq!(programs[0].offset, 0x40);
    assert_eq!(programs[0].file_size, 0x10);
    assert_eq!(programs[0].mem_size, 0x20);
}

#[test]
fn get_headers_rejects_malformed_tables() {
    // tables longer than the file
    let mut b = valid_header_bytes();
    set_u16(&mut b, 56, 100); // ph num
    let h = ElfHeader64::new(&b).unwrap();
    assert_eq!(h.get_headers(&b).err(), Some(ElfParseError::TooManyHeaders));

    // wrong declared entry size
    let mut b2 = valid_header_bytes();
    set_u16(&mut b2, 56, 0); // no program headers
    set_u16(&mut b2, 54, 40); // but a wrong entry size
    let h2 = ElfHeader64::new(&b2).unwrap();
    assert_eq!(h2.get_headers(&b2).err(), Some(ElfParseError::InvalidSize));

    // table offset outside the file
    let mut b3 = valid_header_bytes();
    set_u16(&mut b3, 56, 0);
    set_u64(&mut b3, 32, 4096); // ph offset past the end
    let h3 = ElfHeader64::new(&b3).unwrap();
    assert_eq!(h3.get_headers(&b3).err(), Some(ElfParseError::InvalidOffset));
}
