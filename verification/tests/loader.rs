use bootboot_loader::elf::{
    load_elf, ElfHeader64, ElfLoadError, ElfParseError, ElfSectionHeader64, ElfSymbol64,
    ELF_SH_TYPE_STRTAB, ELF_SH_TYPE_SYMTAB,
};

fn set_u16(b: &mut [u8], off: usize, v: u16) {
    b[off..off + 2].copy_from_slice(&v.to_le_bytes());
}

fn set_u32(b: &mut [u8], off: usize, v: u32) {
    b[off..off + 4].copy_from_slice(&v.to_le_bytes());
}

fn set_u64(b: &mut [u8], off: usize, v: u64) {
    b[off..off + 8].copy_from_slice(&v.to_le_bytes());
}

/// A small complete image: one LOAD segment, a section-name string
/// table, a symbol table with a `bootboot` symbol, and its string table.
fn base_image() -> Vec<u8> {
    let mut b = vec![0u8; 394];
    // ELF header
    b[0..4].copy_from_slice(&[0x7f, 0x45, 0x4c, 0x46]);
    b[4] = 2;
    b[5] = 1;
    b[6] = 1;
    set_u16(&mut b, 16, 2);
    set_u16(&mut b, 18, 0x3e);
    set_u32(&mut b, 20, 1);
    set_u64(&mut b, 24, 0x1000); // entry
    set_u64(&mut b, 32, 64); // ph offset
    set_u64(&mut b, 40, 120); // sh offset
    set_u16(&mut b, 52, 64);
    set_u16(&mut b, 54, 56);
    set_u16(&mut b, 56, 1); // one program header
    set_u16(&mut b, 58, 64);
    set_u16(&mut b, 60, 3); // three section headers
    set_u16(&mut b, 62, 0); // section names live in section 0
    // program header: LOAD, first 64 bytes of the file, 128 bytes in memory
    set_u32(&mut b, 64, 1);
    set_u64(&mut b, 64 + 8, 0); // offset
    set_u64(&mut b, 64 + 32, 64); // file size
    set_u64(&mut b, 64 + 40, 128); // mem size
    // section 0: the section-name string table
    set_u32(&mut b, 120, 0); // name
    set_u32(&mut b, 124, 3); // STRTAB
    set_u64(&mut b, 120 + 24, 312); // offset
    set_u64(&mut b, 120 + 32, 17); // size
    // section 1: .symtab
    set_u32(&mut b, 184, 1); // name ".symtab"
    set_u32(&mut b, 188, 2); // SYMTAB
    set_u64(&mut b, 184 + 24, 336); // offset
    set_u64(&mut b, 184 + 32, 48); // size
    set_u64(&mut b, 184 + 56, 24); // entry size
    // section 2: .strtab
    set_u32(&mut b, 248, 9); // name ".strtab"
    set_u32(&mut b, 252, 3); // STRTAB
    set_u64(&mut b, 248 + 24, 384); // offset
    set_u64(&mut b, 248 + 32, 10); // size
    // section-name strings
    b[312..329].copy_from_slice(b"\0.symtab\0.strtab\0");
    // symbols: a null symbol, then `bootboot`
    set_u32(&mut b, 360, 1); // name "bootboot"
    set_u64(&mut b, 360 + 8, 0x1234); // value
    // symbol names
    b[384..394].copy_from_slice(b"\0bootboot\0");
    b
}

fn header_of(img: &[u8]) -> ElfHeader64 {
    ElfHeader64::new(&img[0..64]).unwrap()
}

#[test]
fn whole_image_loads_with_symbols_and_zeroed_bss() {
    let img = base_image();
    let h = header_of(&img);
    let (loaded, symbols, ph) = load_elf(&h, &img).unwrap();

    assert_eq!(ph.program_type, 1);
    assert_eq!(ph.file_size, 64);
    assert_eq!(ph.mem_size, 128);

    assert_eq!(loaded.len(), 128);
    assert_eq!(&loaded[0..64], &img[0..64]);
    assert!(loaded[64..].iter().all(|&x| x == 0));

    let bootboot = symbols[0].expect("bootboot symbol resolved");
    assert_eq!(bootboot.name_idx, 1);
    assert_eq!(bootboot.value, 0x1234);
    assert!(symbols[1].is_none()); // environment
    assert!(symbols[2].is_none()); // fb
    assert!(symbols[3].is_none()); // initstack
}

#[test]
fn load_fails_when_file_size_exceeds_mem_size() {
    let mut img = base_image();
    set_u64(&mut img, 64 + 32, 200);
    set_u64(&mut img, 64 + 40, 100);
    let h = header_of(&img);
    assert_eq!(load_elf(&h, &img).err(), Some(ElfLoadError::LoadSegmentTooLarge));
}

#[test]
fn load_fails_when_segment_runs_past_the_file() {
    let mut img = base_image();
    set_u64(&mut img, 64 + 8, 1000); // offset + file size > file length
    let h = header_of(&img);
    assert_eq!(load_elf(&h, &img).err(), Some(ElfLoadError::LoadSegmentOutOfBounds));
}

#[test]
fn load_propagates_header_table_errors() {
    let mut img = base_image();
    set_u16(&mut img, 54, 55); // wrong program-header entry size
    let h = header_of(&img);
    assert_eq!(load_elf(&h, &img).err(), Some(ElfLoadError::Headers(ElfParseError::InvalidSize)));
}

#[test]
fn load_fails_without_a_load_segment() {
    let mut img = base_image();
    set_u32(&mut img, 64, 2); // not LOAD
    let h = header_of(&img);
    assert_eq!(load_elf(&h, &img).err(), Some(ElfLoadError::NoLoadSegment));
}

#[test]
fn load_fails_on_bad_string_table_index() {
    let mut img = base_image();
    set_u16(&mut img, 62, 3); // only sections 0..2 exist
    let h = header_of(&img);
    assert_eq!(load_elf(&h, &img).err(), Some(ElfLoadError::InvalidStringTableIndex));
}

#[test]
fn load_fails_when_string_table_overruns() {
    let mut img = base_image();
    set_u64(&mut img, 120 + 32, 1000);
    let h = header_of(&img);
    assert_eq!(load_elf(&h, &img).err(), Some(ElfLoadError::StringTableOutOfBounds));
}

#[test]
fn load_fails_without_symbol_table() {
    let mut img = base_image();
    set_u32(&mut img, 188, 5); // .symtab section no longer SYMTAB
    let h = header_of(&img);
    assert_eq!(load_elf(&h, &img).err(), Some(ElfLoadError::NoSymbolTable));
}

#[test]
fn load_fails_on_wrong_symbol_entry_size() {
    let mut img = base_image();
    set_u64(&mut img, 184 + 56, 16);
    let h = header_of(&img);
    assert_eq!(load_elf(&h, &img).err(), Some(ElfLoadError::InvalidSymbolEntrySize));
}

#[test]
fn load_fails_when_symbol_table_overruns() {
    let mut img = base_image();
    set_u64(&mut img, 184 + 24, 390);
    let h = header_of(&img);
    assert_eq!(load_elf(&h, &img).err(), Some(ElfLoadError::SymbolTableOutOfBounds));
}

#[test]
fn load_fails_on_ragged_symbol_table() {
    let mut img = base_image();
    set_u64(&mut img, 184 + 32, 36); // not a multiple of the entry size
    let h = header_of(&img);
    assert_eq!(load_elf(&h, &img).err(), Some(ElfLoadError::InvalidSymbolTableSize));
}

#[test]
fn load_fails_without_symbol_string_table() {
    let mut img = base_image();
    set_u32(&mut img, 252, 2); // .strtab section no longer STRTAB
    let h = header_of(&img);
    assert_eq!(load_elf(&h, &img).err(), Some(ElfLoadError::NoSymbolStringTable));
}

#[test]
fn load_fails_when_symbol_string_table_overruns() {
    let mut img = base_image();
    set_u64(&mut img, 248 + 32, 100);
    let h = header_of(&img);
    assert_eq!(load_elf(&h, &img).err(), Some(ElfLoadError::SymbolStringTableOutOfBounds));
}

#[test]
fn find_section_and_symbol_return_first_match() {
    let img = base_image();
    let h = header_of(&img);
    let (sections, _programs) = h.get_headers(&img).unwrap();
    let str_table = &img[312..329];

    let symtab =
        ElfSectionHeader64::find_section(&sections, b".symtab", ELF_SH_TYPE_SYMTAB, str_table)
            .expect("symbol table section");
    assert_eq!(symtab.offset, 336);

    assert!(ElfSectionHeader64::find_section(
        &sections,
        b".symtab",
        ELF_SH_TYPE_STRTAB,
        str_table
    )
    .is_none());

    let sym_str_table = &img[384..394];
    let symbols = [
        ElfSymbol64 { name_idx: 0, info: 0, other: 0, sh_index: 0, value: 0, size: 0 },
        ElfSymbol64 { name_idx: 1, info: 0, other: 0, sh_index: 0, value: 0x1234, size: 0 },
    ];
    let found = ElfSymbol64::find_symbol(&symbols, b"bootboot", sym_str_table)
        .expect("bootboot symbol");
    assert_eq!(found.value, 0x1234);
    assert!(ElfSymbol64::find_symbol(&symbols, b"missing", sym_str_table).is_none());
}
