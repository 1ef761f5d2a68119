//! ELF64 image parsing and kernel loading.
//!
//! The kernel arrives as one byte buffer.  Its first 64 bytes form the
//! ELF header, which names the program-header and section-header tables;
//! the loader picks the first `LOAD` program header, copies that segment
//! into a fresh buffer (zero-filling the BSS tail) and resolves a fixed
//! set of symbols the kernel's ABI expects.

use vstd::prelude::*;

use crate::utils::{self, le16, le32, le64, match_sig};

verus! {

/// An error resulting from parsing an ELF file.
#[derive(Copy, Clone, Debug, PartialEq, Eq, Structural)]
pub enum ElfParseError {
    InvalidAbi,
    InvalidFileType,
    InvalidIsa,
    InvalidMagic,
    InvalidOffset,
    InvalidSize,
    InvalidVersion,
    Not64Bit,
    NotLittleEndian,
    TooManyHeaders,
}

/// Section type of a symbol table.
pub const ELF_SH_TYPE_SYMTAB: u32 = 2;

/// Section type of a string table.
pub const ELF_SH_TYPE_STRTAB: u32 = 3;

/// Program-header type of a loadable segment.
pub const ELF_PH_TYPE_LOAD: u32 = 1;

/// The 4-byte ELF magic, `0x7f` `"ELF"`.
pub open spec fn elf_magic() -> Seq<u8> {
    seq![0x7fu8, 0x45u8, 0x4cu8, 0x46u8]
}

/// The header for an ELF64 file, decoded from its first 64 bytes.
#[derive(Copy, Clone, Debug)]
pub struct ElfHeader64 {
    pub ident: [u8; 16],
    pub file_type: u16,
    pub isa: u16,
    pub version: u32,
    pub entry: u64,
    pub ph_offset: u64,
    pub sh_offset: u64,
    pub flags: u32,
    pub header_size: u16,
    pub ph_entry_size: u16,
    pub ph_num: u16,
    pub sh_entry_size: u16,
    pub sh_num: u16,
    pub sh_string_index: u16,
}

/// The first validation failure of a candidate ELF64 header region, if any.
///
/// The checks run in a fixed order, each mapped to its own error: magic,
/// 64-bit class, little-endian data, version consistency, System V ABI,
/// executable file type, x86-64 ISA, and the header-size field.
pub open spec fn spec_validate_header(b: Seq<u8>) -> Option<ElfParseError> {
    if b.subrange(0, 4) != elf_magic() {
        Some(ElfParseError::InvalidMagic)
    } else if b[4] != 2 {
        Some(ElfParseError::Not64Bit)
    } else if b[5] != 1 {
        Some(ElfParseError::NotLittleEndian)
    } else if b[6] != 1 && le32(b, 20) == 1 {
        Some(ElfParseError::InvalidVersion)
    } else if b[7] != 0 {
        Some(ElfParseError::InvalidAbi)
    } else if le16(b, 16) != 2 {
        Some(ElfParseError::InvalidFileType)
    } else if le16(b, 18) != 0x3e {
        Some(ElfParseError::InvalidIsa)
    } else if le16(b, 52) != 64 {
        Some(ElfParseError::InvalidSize)
    } else {
        None
    }
}

impl ElfHeader64 {
    /// The decoded fields equal the fields stored in the 64-byte region `b`.
    pub open spec fn decodes(self, b: Seq<u8>) -> bool {
        &&& self.ident@ == b.subrange(0, 16)
        &&& self.file_type == le16(b, 16)
        &&& self.isa == le16(b, 18)
        &&& self.version == le32(b, 20)
        &&& self.entry == le64(b, 24)
        &&& self.ph_offset == le64(b, 32)
        &&& self.sh_offset == le64(b, 40)
        &&& self.flags == le32(b, 48)
        &&& self.header_size == le16(b, 52)
        &&& self.ph_entry_size == le16(b, 54)
        &&& self.ph_num == le16(b, 56)
        &&& self.sh_entry_size == le16(b, 58)
        &&& self.sh_num == le16(b, 60)
        &&& self.sh_string_index == le16(b, 62)
    }

    /// Returns the class of this ELF64 header (32/64 bits).
    ///
    /// After being parsed in [`ElfHeader64::new`], this header is
    /// guaranteed to be 64 bits.
    pub fn class(&self) -> (r: u8)
        ensures
            r == self.ident@[4],
    {
        self.ident[4]
    }

    /// Returns the byte format of this ELF64 header (little/big endian).
    ///
    /// After being parsed in [`ElfHeader64::new`], this header is
    /// guaranteed to be little endian.
    pub fn data(&self) -> (r: u8)
        ensures
            r == self.ident@[5],
    {
        self.ident[5]
    }

    /// Returns the version number in the identification part of the header.
    pub fn ident_version(&self) -> (r: u8)
        ensures
            r == self.ident@[6],
    {
        self.ident[6]
    }

    /// Returns the ABI used in this ELF64 header.
    ///
    /// After being parsed in [`ElfHeader64::new`], this header is
    /// guaranteed to use the System V ABI.
    pub fn os_abi(&self) -> (r: u8)
        ensures
            r == self.ident@[7],
    {
        self.ident[7]
    }

    /// Returns the valid ELF magic numbers.
    pub fn valid_magic() -> (r: [u8; 4])
        ensures
            r@ == elf_magic(),
    {
        let r: [u8; 4] = [0x7f, 0x45, 0x4c, 0x46];
        proof {
            assert(r@ =~= elf_magic());
        }
        r
    }

    /// Parses `data` into an ELF64 header and ensures that it is valid and
    /// able to be loaded by this boot loader.
    ///
    /// Each of the validated fields maps to its own error; see
    /// [`spec_validate_header`] for the order.
    pub fn new(data: &[u8]) -> (r: Result<Self, ElfParseError>)
        requires
            data@.len() >= 64,
        ensures
            r is Ok <==> spec_validate_header(data@) is None,
            r matches Err(e) ==> spec_validate_header(data@) == Some(e),
            r matches Ok(h) ==> h.decodes(data@),
    {
        let magic = Self::valid_magic();
        if !match_sig(data, 0, magic.as_slice()) {
            proof {
                assert(data@.subrange(0, 4) != elf_magic());
            }
            return Err(ElfParseError::InvalidMagic);
        }
        if data[4] != 2 {
            return Err(ElfParseError::Not64Bit);
        }
        if data[5] != 1 {
            return Err(ElfParseError::NotLittleEndian);
        }
        let version = utils::read_u32(data, 20);
        if data[6] != 1 && version == 1 {
            return Err(ElfParseError::InvalidVersion);
        }
        if data[7] != 0 {
            return Err(ElfParseError::InvalidAbi);
        }
        let file_type = utils::read_u16(data, 16);
        if file_type != 2 {
            return Err(ElfParseError::InvalidFileType);
        }
        let isa = utils::read_u16(data, 18);
        if isa != 0x3e {
            return Err(ElfParseError::InvalidIsa);
        }
        let header_size = utils::read_u16(data, 52);
        if header_size != 64 {
            return Err(ElfParseError::InvalidSize);
        }
        let h = ElfHeader64 {
            ident: [data[0], data[1], data[2], data[3], data[4], data[5], data[6], data[7],
                data[8], data[9], data[10], data[11], data[12], data[13], data[14], data[15]],
            file_type,
            isa,
            version,
            entry: utils::read_u64(data, 24),
            ph_offset: utils::read_u64(data, 32),
            sh_offset: utils::read_u64(data, 40),
            flags: utils::read_u32(data, 48),
            header_size,
            ph_entry_size: utils::read_u16(data, 54),
            ph_num: utils::read_u16(data, 56),
            sh_entry_size: utils::read_u16(data, 58),
            sh_num: utils::read_u16(data, 60),
            sh_string_index: utils::read_u16(data, 62),
        };
        proof {
            assert(h.ident@ =~= data@.subrange(0, 16));
        }
        Ok(h)
    }
}

impl utils::Magic<4> for ElfHeader64 {
    open spec fn spec_magic(&self) -> Seq<u8> {
        self.ident@.subrange(0, 4)
    }

    fn magic(&self) -> (r: [u8; 4]) {
        let r = [self.ident[0], self.ident[1], self.ident[2], self.ident[3]];
        proof {
            assert(r@ =~= self.ident@.subrange(0, 4));
        }
        r
    }
}

/// An ELF64 program header.
#[derive(Copy, Clone, Debug)]
pub struct ElfProgramHeader64 {
    pub program_type: u32,
    pub flags: u32,
    pub offset: u64,
    pub vaddr: u64,
    pub paddr: u64,
    pub file_size: u64,
    pub mem_size: u64,
    pub align: u64,
}

/// The program header stored at byte offset `off` of `b`.
pub open spec fn spec_ph_at(b: Seq<u8>, off: int) -> ElfProgramHeader64 {
    ElfProgramHeader64 {
        program_type: le32(b, off) as u32,
        flags: le32(b, off + 4) as u32,
        offset: le64(b, off + 8) as u64,
        vaddr: le64(b, off + 16) as u64,
        paddr: le64(b, off + 24) as u64,
        file_size: le64(b, off + 32) as u64,
        mem_size: le64(b, off + 40) as u64,
        align: le64(b, off + 48) as u64,
    }
}

/// Decodes the 56-byte program header at `off`.
fn ph_at(data: &[u8], off: usize) -> (r: ElfProgramHeader64)
    requires
        off + 56 <= data@.len(),
        data@.len() <= usize::MAX,
    ensures
        r == spec_ph_at(data@, off as int),
{
    ElfProgramHeader64 {
        program_type: utils::read_u32(data, off),
        flags: utils::read_u32(data, off + 4),
        offset: utils::read_u64(data, off + 8),
        vaddr: utils::read_u64(data, off + 16),
        paddr: utils::read_u64(data, off + 24),
        file_size: utils::read_u64(data, off + 32),
        mem_size: utils::read_u64(data, off + 40),
        align: utils::read_u64(data, off + 48),
    }
}

/// An ELF64 section header.
#[derive(Copy, Clone, Debug)]
pub struct ElfSectionHeader64 {
    pub name_idx: u32,
    pub section_type: u32,
    pub flags: u64,
    pub addr: u64,
    pub offset: u64,
    pub size: u64,
    pub link: u32,
    pub info: u32,
    pub addr_align: u64,
    pub entry_size: u64,
}

/// The section header stored at byte offset `off` of `b`.
pub open spec fn spec_sh_at(b: Seq<u8>, off: int) -> ElfSectionHeader64 {
    ElfSectionHeader64 {
        name_idx: le32(b, off) as u32,
        section_type: le32(b, off + 4) as u32,
        flags: le64(b, off + 8) as u64,
        addr: le64(b, off + 16) as u64,
        offset: le64(b, off + 24) as u64,
        size: le64(b, off + 32) as u64,
        link: le32(b, off + 40) as u32,
        info: le32(b, off + 44) as u32,
        addr_align: le64(b, off + 48) as u64,
        entry_size: le64(b, off + 56) as u64,
    }
}

/// Decodes the 64-byte section header at `off`.
fn sh_at(data: &[u8], off: usize) -> (r: ElfSectionHeader64)
    requires
        off + 64 <= data@.len(),
        data@.len() <= usize::MAX,
    ensures
        r == spec_sh_at(data@, off as int),
{
    ElfSectionHeader64 {
        name_idx: utils::read_u32(data, off),
        section_type: utils::read_u32(data, off + 4),
        flags: utils::read_u64(data, off + 8),
        addr: utils::read_u64(data, off + 16),
        offset: utils::read_u64(data, off + 24),
        size: utils::read_u64(data, off + 32),
        link: utils::read_u32(data, off + 40),
        info: utils::read_u32(data, off + 44),
        addr_align: utils::read_u64(data, off + 48),
        entry_size: utils::read_u64(data, off + 56),
    }
}

/// An ELF64 symbol.
#[derive(Copy, Clone, Debug)]
pub struct ElfSymbol64 {
    pub name_idx: u32,
    pub info: u8,
    pub other: u8,
    pub sh_index: u16,
    pub value: u64,
    pub size: u64,
}

/// The symbol stored at byte offset `off` of `b`.
pub open spec fn spec_sym_at(b: Seq<u8>, off: int) -> ElfSymbol64 {
    ElfSymbol64 {
        name_idx: le32(b, off) as u32,
        info: b[off + 4],
        other: b[off + 5],
        sh_index: le16(b, off + 6) as u16,
        value: le64(b, off + 8) as u64,
        size: le64(b, off + 16) as u64,
    }
}

/// Decodes the 24-byte symbol at `off`.
fn sym_at(data: &[u8], off: usize) -> (r: ElfSymbol64)
    requires
        off + 24 <= data@.len(),
        data@.len() <= usize::MAX,
    ensures
        r == spec_sym_at(data@, off as int),
{
    ElfSymbol64 {
        name_idx: utils::read_u32(data, off),
        info: data[off + 4],
        other: data[off + 5],
        sh_index: utils::read_u16(data, off + 6),
        value: utils::read_u64(data, off + 8),
        size: utils::read_u64(data, off + 16),
    }
}

/// The first validation failure of the header tables named by `hdr` over
/// the file `b`, if any: the declared tables must fit in the file, the
/// entry sizes must equal the fixed struct sizes, and both table offsets
/// must point into the file.
pub open spec fn spec_get_headers_err(hdr: ElfHeader64, b: Seq<u8>) -> Option<ElfParseError> {
    if 64 + hdr.ph_num * hdr.ph_entry_size + hdr.sh_num * hdr.sh_entry_size > b.len() {
        Some(ElfParseError::TooManyHeaders)
    } else if hdr.ph_entry_size != 56 || hdr.sh_entry_size != 64 {
        Some(ElfParseError::InvalidSize)
    } else if hdr.sh_offset >= b.len() || hdr.ph_offset >= b.len() {
        Some(ElfParseError::InvalidOffset)
    } else if hdr.ph_offset + 56 * hdr.ph_num > b.len() || hdr.sh_offset + 64 * hdr.sh_num
        > b.len() {
        Some(ElfParseError::InvalidOffset)
    } else {
        None
    }
}

/// The section headers named by `hdr` over the file `b`.
pub open spec fn spec_sections(hdr: ElfHeader64, b: Seq<u8>) -> Seq<ElfSectionHeader64> {
    Seq::new(hdr.sh_num as nat, |i: int| spec_sh_at(b, hdr.sh_offset + 64 * i))
}

/// The program headers named by `hdr` over the file `b`.
pub open spec fn spec_programs(hdr: ElfHeader64, b: Seq<u8>) -> Seq<ElfProgramHeader64> {
    Seq::new(hdr.ph_num as nat, |i: int| spec_ph_at(b, hdr.ph_offset + 56 * i))
}

impl ElfHeader64 {
    /// Returns every section and program header in this ELF file.
    ///
    /// The declared tables must fit in `data` (else `TooManyHeaders`),
    /// the entry sizes must equal the fixed program/section header sizes
    /// (else `InvalidSize`) and the table offsets with their full extent
    /// must stay inside `data` (else `InvalidOffset`).
    pub fn get_headers(&self, data: &[u8]) -> (r: Result<
        (Vec<ElfSectionHeader64>, Vec<ElfProgramHeader64>),
        ElfParseError,
    >)
        ensures
            r is Ok <==> spec_get_headers_err(*self, data@) is None,
            r matches Err(e) ==> spec_get_headers_err(*self, data@) == Some(e),
            r matches Ok(t) ==> t.0@ == spec_sections(*self, data@) && t.1@ == spec_programs(
                *self,
                data@,
            ),
    {
        let len = data.len();
        proof {
            assert(self.ph_num * self.ph_entry_size <= 0xffff * 0xffff) by (nonlinear_arith)
                requires
                    self.ph_num <= 0xffff,
                    self.ph_entry_size <= 0xffff,
            ;
            assert(self.sh_num * self.sh_entry_size <= 0xffff * 0xffff) by (nonlinear_arith)
                requires
                    self.sh_num <= 0xffff,
                    self.sh_entry_size <= 0xffff,
            ;
        }
        let ph_size: u64 = self.ph_num as u64 * self.ph_entry_size as u64;
        let sh_size: u64 = self.sh_num as u64 * self.sh_entry_size as u64;
        if 64 + ph_size + sh_size > len as u64 {
            return Err(ElfParseError::TooManyHeaders);
        }
        if self.ph_entry_size != 56 || self.sh_entry_size != 64 {
            return Err(ElfParseError::InvalidSize);
        }
        if self.sh_offset >= len as u64 || self.ph_offset >= len as u64 {
            return Err(ElfParseError::InvalidOffset);
        }
        if ph_size > len as u64 - self.ph_offset || sh_size > len as u64 - self.sh_offset {
            return Err(ElfParseError::InvalidOffset);
        }
        let ph_off = self.ph_offset as usize;
        let sh_off = self.sh_offset as usize;

        let mut sections: Vec<ElfSectionHeader64> = Vec::new();
        let mut i: usize = 0;
        while i < self.sh_num as usize
            invariant
                i <= self.sh_num,
                sections@.len() == i,
                forall|k: int| 0 <= k < i ==> sections@[k] == spec_sh_at(
                    data@,
                    self.sh_offset + 64 * k,
                ),
                sh_off == self.sh_offset,
                sh_off + 64 * (self.sh_num as int) <= data@.len(),
                data@.len() <= usize::MAX,
            decreases self.sh_num - i,
        {
            sections.push(sh_at(data, sh_off + i * 64));
            i = i + 1;
        }

        let mut programs: Vec<ElfProgramHeader64> = Vec::new();
        let mut j: usize = 0;
        while j < self.ph_num as usize
            invariant
                j <= self.ph_num,
                programs@.len() == j,
                forall|k: int| 0 <= k < j ==> programs@[k] == spec_ph_at(
                    data@,
                    self.ph_offset + 56 * k,
                ),
                ph_off == self.ph_offset,
                ph_off + 56 * (self.ph_num as int) <= data@.len(),
                data@.len() <= usize::MAX,
            decreases self.ph_num - j,
        {
            programs.push(ph_at(data, ph_off + j * 56));
            j = j + 1;
        }

        proof {
            assert(sections@ =~= spec_sections(*self, data@));
            assert(programs@ =~= spec_programs(*self, data@));
        }
        Ok((sections, programs))
    }
}


/// The section's name, read from the string table at its name index,
/// equals `name`, and its type equals `ty`.
pub open spec fn section_matches(
    sh: ElfSectionHeader64,
    name: Seq<u8>,
    ty: u32,
    str_table: Seq<u8>,
) -> bool {
    &&& sh.name_idx + name.len() <= str_table.len()
    &&& str_table.subrange(sh.name_idx as int, sh.name_idx + name.len()) == name
    &&& sh.section_type == ty
}

/// Index of the first section of `shs` matching `name` and `ty`.
pub open spec fn spec_find_section(
    shs: Seq<ElfSectionHeader64>,
    name: Seq<u8>,
    ty: u32,
    str_table: Seq<u8>,
) -> Option<int>
    decreases shs.len(),
{
    if shs.len() == 0 {
        None
    } else if section_matches(shs[0], name, ty, str_table) {
        Some(0)
    } else {
        match spec_find_section(shs.drop_first(), name, ty, str_table) {
            Some(i) => Some(i + 1),
            None => None,
        }
    }
}

/// `spec_find_section` returns the first matching index, and `None` only
/// when no section matches.
proof fn lemma_find_section_props(
    shs: Seq<ElfSectionHeader64>,
    name: Seq<u8>,
    ty: u32,
    str_table: Seq<u8>,
)
    ensures
        match spec_find_section(shs, name, ty, str_table) {
            Some(i) => 0 <= i < shs.len() && section_matches(shs[i], name, ty, str_table)
                && forall|k: int| 0 <= k < i ==> !section_matches(shs[k], name, ty, str_table),
            None => forall|k: int| 0 <= k < shs.len() ==> !section_matches(
                shs[k],
                name,
                ty,
                str_table,
            ),
        },
    decreases shs.len(),
{
    if shs.len() > 0 && !section_matches(shs[0], name, ty, str_table) {
        lemma_find_section_props(shs.drop_first(), name, ty, str_table);
        assert forall|k: int| 1 <= k < shs.len() implies shs.drop_first()[k - 1] == shs[k] by {}
    }
}

/// A matching section, with none before it, is what `spec_find_section`
/// returns.
proof fn lemma_find_section_is(
    shs: Seq<ElfSectionHeader64>,
    name: Seq<u8>,
    ty: u32,
    str_table: Seq<u8>,
    i: int,
)
    requires
        0 <= i < shs.len(),
        section_matches(shs[i], name, ty, str_table),
        forall|k: int| 0 <= k < i ==> !section_matches(shs[k], name, ty, str_table),
    ensures
        spec_find_section(shs, name, ty, str_table) == Some(i),
    decreases shs.len(),
{
    if i > 0 {
        lemma_find_section_is(shs.drop_first(), name, ty, str_table, i - 1);
    }
}

/// Checks one section header against a name and type.
fn matches_section(sh: &ElfSectionHeader64, name: &[u8], ty: u32, str_table: &[u8]) -> (r: bool)
    ensures
        r == section_matches(*sh, name@, ty, str_table@),
{
    if sh.name_idx as u64 > str_table.len() as u64 || name.len() as u64 > str_table.len() as u64
        - sh.name_idx as u64 {
        return false;
    }
    match_sig(str_table, sh.name_idx as usize, name) && sh.section_type == ty
}

impl ElfSectionHeader64 {
    /// Returns the first section in `section_headers` with a name matching
    /// `section_name` and a section type matching `section_type`.
    ///
    /// Returns `None` if no such section exists.
    ///
    /// The `section_name` is found in the `str_table`.
    pub fn find_section<'a>(
        section_headers: &'a [Self],
        section_name: &[u8],
        section_type: u32,
        str_table: &[u8],
    ) -> (r: Option<&'a Self>)
        ensures
            match r {
                Some(sh) => spec_find_section(
                    section_headers@,
                    section_name@,
                    section_type,
                    str_table@,
                ) matches Some(i) && *sh == section_headers@[i],
                None => spec_find_section(
                    section_headers@,
                    section_name@,
                    section_type,
                    str_table@,
                ) is None,
            },
    {
        let mut i: usize = 0;
        while i < section_headers.len()
            invariant
                i <= section_headers@.len(),
                forall|k: int| 0 <= k < i ==> !section_matches(
                    section_headers@[k],
                    section_name@,
                    section_type,
                    str_table@,
                ),
            decreases section_headers@.len() - i,
        {
            let sh = &section_headers[i];
            if matches_section(sh, section_name, section_type, str_table) {
                proof {
                    lemma_find_section_is(
                        section_headers@,
                        section_name@,
                        section_type,
                        str_table@,
                        i as int,
                    );
                }
                return Some(sh);
            }
            i = i + 1;
        }
        proof {
            lemma_find_section_props(section_headers@, section_name@, section_type, str_table@);
        }
        None
    }
}

/// The symbol's name, read from the string table at its name index,
/// equals `name`.
pub open spec fn symbol_matches(sym: ElfSymbol64, name: Seq<u8>, str_table: Seq<u8>) -> bool {
    &&& sym.name_idx + name.len() <= str_table.len()
    &&& str_table.subrange(sym.name_idx as int, sym.name_idx + name.len()) == name
}

/// Index of the first symbol of `syms` matching `name`.
pub open spec fn spec_find_symbol(
    syms: Seq<ElfSymbol64>,
    name: Seq<u8>,
    str_table: Seq<u8>,
) -> Option<int>
    decreases syms.len(),
{
    if syms.len() == 0 {
        None
    } else if symbol_matches(syms[0], name, str_table) {
        Some(0)
    } else {
        match spec_find_symbol(syms.drop_first(), name, str_table) {
            Some(i) => Some(i + 1),
            None => None,
        }
    }
}

/// `spec_find_symbol` returns the first matching index, and `None` only
/// when no symbol matches.
proof fn lemma_find_symbol_props(syms: Seq<ElfSymbol64>, name: Seq<u8>, str_table: Seq<u8>)
    ensures
        match spec_find_symbol(syms, name, str_table) {
            Some(i) => 0 <= i < syms.len() && symbol_matches(syms[i], name, str_table)
                && forall|k: int| 0 <= k < i ==> !symbol_matches(syms[k], name, str_table),
            None => forall|k: int| 0 <= k < syms.len() ==> !symbol_matches(
                syms[k],
                name,
                str_table,
            ),
        },
    decreases syms.len(),
{
    if syms.len() > 0 && !symbol_matches(syms[0], name, str_table) {
        lemma_find_symbol_props(syms.drop_first(), name, str_table);
        assert forall|k: int| 1 <= k < syms.len() implies syms.drop_first()[k - 1] == syms[k] by {}
    }
}

/// A matching symbol, with none before it, is what `spec_find_symbol`
/// returns.
proof fn lemma_find_symbol_is(
    syms: Seq<ElfSymbol64>,
    name: Seq<u8>,
    str_table: Seq<u8>,
    i: int,
)
    requires
        0 <= i < syms.len(),
        symbol_matches(syms[i], name, str_table),
        forall|k: int| 0 <= k < i ==> !symbol_matches(syms[k], name, str_table),
    ensures
        spec_find_symbol(syms, name, str_table) == Some(i),
    decreases syms.len(),
{
    if i > 0 {
        lemma_find_symbol_is(syms.drop_first(), name, str_table, i - 1);
    }
}

/// Checks one symbol against a name.
fn matches_symbol(sym: &ElfSymbol64, name: &[u8], str_table: &[u8]) -> (r: bool)
    ensures
        r == symbol_matches(*sym, name@, str_table@),
{
    if sym.name_idx as u64 > str_table.len() as u64 || name.len() as u64 > str_table.len() as u64
        - sym.name_idx as u64 {
        return false;
    }
    match_sig(str_table, sym.name_idx as usize, name)
}

impl ElfSymbol64 {
    /// Returns the first symbol in `symbol_table` with a name matching
    /// `symbol_name`.
    ///
    /// Returns `None` if no symbol with `symbol_name` exists.
    ///
    /// The `symbol_name` is found in the `symbol_str_table`.
    pub fn find_symbol<'a>(
        symbol_table: &'a [Self],
        symbol_name: &[u8],
        symbol_str_table: &[u8],
    ) -> (r: Option<&'a Self>)
        ensures
            match r {
                Some(sym) => spec_find_symbol(
                    symbol_table@,
                    symbol_name@,
                    symbol_str_table@,
                ) matches Some(i) && *sym == symbol_table@[i],
                None => spec_find_symbol(symbol_table@, symbol_name@, symbol_str_table@) is None,
            },
    {
        let mut i: usize = 0;
        while i < symbol_table.len()
            invariant
                i <= symbol_table@.len(),
                forall|k: int| 0 <= k < i ==> !symbol_matches(
                    symbol_table@[k],
                    symbol_name@,
                    symbol_str_table@,
                ),
            decreases symbol_table@.len() - i,
        {
            let sym = &symbol_table[i];
            if matches_symbol(sym, symbol_name, symbol_str_table) {
                proof {
                    lemma_find_symbol_is(symbol_table@, symbol_name@, symbol_str_table@, i as int);
                }
                return Some(sym);
            }
            i = i + 1;
        }
        proof {
            lemma_find_symbol_props(symbol_table@, symbol_name@, symbol_str_table@);
        }
        None
    }
}

/// An error resulting from loading the kernel's executable image.
#[derive(Copy, Clone, Debug, PartialEq, Eq, Structural)]
pub enum ElfLoadError {
    Headers(ElfParseError),
    NoLoadSegment,
    LoadSegmentOutOfBounds,
    LoadSegmentTooLarge,
    InvalidStringTableIndex,
    StringTableOutOfBounds,
    NoSymbolTable,
    InvalidSymbolEntrySize,
    SymbolTableOutOfBounds,
    InvalidSymbolTableSize,
    NoSymbolStringTable,
    SymbolStringTableOutOfBounds,
}

/// The name of the symbol-table section, `".symtab"`.
pub open spec fn symtab_section_name() -> Seq<u8> {
    seq![0x2eu8, 0x73u8, 0x79u8, 0x6du8, 0x74u8, 0x61u8, 0x62u8]
}

/// The name of the string-table section, `".strtab"`.
pub open spec fn strtab_section_name() -> Seq<u8> {
    seq![0x2eu8, 0x73u8, 0x74u8, 0x72u8, 0x74u8, 0x61u8, 0x62u8]
}

/// The name of the kernel's protocol-header symbol, `"bootboot"`.
pub open spec fn bootboot_symbol_name() -> Seq<u8> {
    seq![0x62u8, 0x6fu8, 0x6fu8, 0x74u8, 0x62u8, 0x6fu8, 0x6fu8, 0x74u8]
}

/// The name of the kernel's environment symbol, `"environment"`.
pub open spec fn environment_symbol_name() -> Seq<u8> {
    seq![0x65u8, 0x6eu8, 0x76u8, 0x69u8, 0x72u8, 0x6fu8, 0x6eu8, 0x6du8, 0x65u8, 0x6eu8, 0x74u8]
}

/// The name of the kernel's framebuffer symbol, `"fb"`.
pub open spec fn fb_symbol_name() -> Seq<u8> {
    seq![0x66u8, 0x62u8]
}

/// The name of the kernel's initial-stack symbol, `"initstack"`.
pub open spec fn initstack_symbol_name() -> Seq<u8> {
    seq![0x69u8, 0x6eu8, 0x69u8, 0x74u8, 0x73u8, 0x74u8, 0x61u8, 0x63u8, 0x6bu8]
}

/// Index of the first program header of `phs` with the `LOAD` type.
pub open spec fn spec_first_load(phs: Seq<ElfProgramHeader64>) -> Option<int>
    decreases phs.len(),
{
    if phs.len() == 0 {
        None
    } else if phs[0].program_type == ELF_PH_TYPE_LOAD {
        Some(0)
    } else {
        match spec_first_load(phs.drop_first()) {
            Some(i) => Some(i + 1),
            None => None,
        }
    }
}

/// `spec_first_load` returns the first `LOAD` index, and `None` only when
/// no program header has the `LOAD` type.
proof fn lemma_first_load_props(phs: Seq<ElfProgramHeader64>)
    ensures
        match spec_first_load(phs) {
            Some(i) => 0 <= i < phs.len() && phs[i].program_type == ELF_PH_TYPE_LOAD
                && forall|k: int| 0 <= k < i ==> phs[k].program_type != ELF_PH_TYPE_LOAD,
            None => forall|k: int| 0 <= k < phs.len() ==> phs[k].program_type
                != ELF_PH_TYPE_LOAD,
        },
    decreases phs.len(),
{
    if phs.len() > 0 && phs[0].program_type != ELF_PH_TYPE_LOAD {
        lemma_first_load_props(phs.drop_first());
        assert forall|k: int| 1 <= k < phs.len() implies phs.drop_first()[k - 1] == phs[k] by {}
    }
}

/// A `LOAD` program header, with none before it, is what
/// `spec_first_load` returns.
proof fn lemma_first_load_is(phs: Seq<ElfProgramHeader64>, i: int)
    requires
        0 <= i < phs.len(),
        phs[i].program_type == ELF_PH_TYPE_LOAD,
        forall|k: int| 0 <= k < i ==> phs[k].program_type != ELF_PH_TYPE_LOAD,
    ensures
        spec_first_load(phs) == Some(i),
    decreases phs.len(),
{
    if i > 0 {
        lemma_first_load_is(phs.drop_first(), i - 1);
    }
}

/// Returns the first program header with the `LOAD` type.
fn find_load(programs: &[ElfProgramHeader64]) -> (r: Option<usize>)
    ensures
        match r {
            Some(i) => spec_first_load(programs@) == Some(i as int),
            None => spec_first_load(programs@) is None,
        },
{
    let mut i: usize = 0;
    while i < programs.len()
        invariant
            i <= programs@.len(),
            forall|k: int| 0 <= k < i ==> programs@[k].program_type != ELF_PH_TYPE_LOAD,
        decreases programs@.len() - i,
    {
        if programs[i].program_type == ELF_PH_TYPE_LOAD {
            proof {
                lemma_first_load_is(programs@, i as int);
            }
            return Some(i);
        }
        i = i + 1;
    }
    proof {
        lemma_first_load_props(programs@);
    }
    None
}

/// The bytes of the string table a section header names inside the file.
pub open spec fn spec_string_table(k: Seq<u8>, sh: ElfSectionHeader64) -> Seq<u8> {
    k.subrange(sh.offset as int, sh.offset + sh.size)
}

/// The symbols stored in the symbol-table section `sh` of the file `k`.
pub open spec fn spec_symbols(k: Seq<u8>, sh: ElfSectionHeader64) -> Seq<ElfSymbol64> {
    Seq::new((sh.size as int / 24) as nat, |i: int| spec_sym_at(k, sh.offset + 24 * i))
}

/// The first symbol of `syms` named `name`, if any.
pub open spec fn spec_symbol_lookup(
    syms: Seq<ElfSymbol64>,
    name: Seq<u8>,
    str_table: Seq<u8>,
) -> Option<ElfSymbol64> {
    match spec_find_symbol(syms, name, str_table) {
        Some(i) => Some(syms[i]),
        None => None,
    }
}

/// Decodes `count` symbols stored back to back at byte offset `off`.
fn parse_symbols(data: &[u8], off: usize, count: usize) -> (r: Vec<ElfSymbol64>)
    requires
        off + count * 24 <= data@.len(),
        data@.len() <= usize::MAX,
    ensures
        r@.len() == count,
        forall|i: int| 0 <= i < count ==> r@[i] == spec_sym_at(data@, off + 24 * i),
{
    let mut symbols: Vec<ElfSymbol64> = Vec::new();
    let mut i: usize = 0;
    while i < count
        invariant
            i <= count,
            symbols@.len() == i,
            forall|k: int| 0 <= k < i ==> symbols@[k] == spec_sym_at(data@, off + 24 * k),
            off + count * 24 <= data@.len(),
            data@.len() <= usize::MAX,
        decreases count - i,
    {
        symbols.push(sym_at(data, off + i * 24));
        i = i + 1;
    }
    symbols
}

/// The first failure of the kernel-loading walk, if any.
///
/// After the header tables decode, the walk needs a `LOAD` program header
/// whose segment lies inside the file and fits its memory size, the
/// section-name string table, a `".symtab"` section holding whole,
/// correctly sized symbol entries, and a `".strtab"` section, each inside
/// the file.  The checks run in this fixed order.
pub open spec fn spec_load_err(hdr: ElfHeader64, k: Seq<u8>) -> Option<ElfLoadError> {
    match spec_get_headers_err(hdr, k) {
        Some(e) => Some(ElfLoadError::Headers(e)),
        None => {
            let shs = spec_sections(hdr, k);
            let phs = spec_programs(hdr, k);
            match spec_first_load(phs) {
                None => Some(ElfLoadError::NoLoadSegment),
                Some(li) => {
                    let ph = phs[li];
                    if ph.offset + ph.file_size > k.len() {
                        Some(ElfLoadError::LoadSegmentOutOfBounds)
                    } else if ph.file_size > ph.mem_size || ph.mem_size > usize::MAX {
                        Some(ElfLoadError::LoadSegmentTooLarge)
                    } else if hdr.sh_string_index >= shs.len() {
                        Some(ElfLoadError::InvalidStringTableIndex)
                    } else {
                        let st = shs[hdr.sh_string_index as int];
                        if st.offset + st.size > k.len() {
                            Some(ElfLoadError::StringTableOutOfBounds)
                        } else {
                            let strtab = spec_string_table(k, st);
                            match spec_find_section(
                                shs,
                                symtab_section_name(),
                                ELF_SH_TYPE_SYMTAB,
                                strtab,
                            ) {
                                None => Some(ElfLoadError::NoSymbolTable),
                                Some(si) => {
                                    let sy = shs[si];
                                    if sy.entry_size != 24 {
                                        Some(ElfLoadError::InvalidSymbolEntrySize)
                                    } else if sy.offset + sy.size > k.len() {
                                        Some(ElfLoadError::SymbolTableOutOfBounds)
                                    } else if sy.size % 24 != 0 || sy.size < 24 {
                                        Some(ElfLoadError::InvalidSymbolTableSize)
                                    } else {
                                        match spec_find_section(
                                            shs,
                                            strtab_section_name(),
                                            ELF_SH_TYPE_STRTAB,
                                            strtab,
                                        ) {
                                            None => Some(ElfLoadError::NoSymbolStringTable),
                                            Some(ssi) => {
                                                let ss = shs[ssi];
                                                if ss.offset + ss.size > k.len() {
                                                    Some(
                                                        ElfLoadError::SymbolStringTableOutOfBounds,
                                                    )
                                                } else {
                                                    None
                                                }
                                            },
                                        }
                                    }
                                },
                            }
                        }
                    }
                },
            }
        },
    }
}

/// Parses `kernel` to load the executable segment, symbol information,
/// and the program header for the loaded region.
///
/// On success the result holds the loaded image (the segment's file bytes
/// followed by a zero-filled BSS tail of `mem_size` total bytes), the
/// resolved `bootboot`, `environment`, `fb` and `initstack` symbols (each
/// optional), and the chosen `LOAD` program header.  Failures follow
/// [`spec_load_err`].
#[verifier::rlimit(100)]
pub fn load_elf(elf_header: &ElfHeader64, kernel: &[u8]) -> (r: Result<
    (Vec<u8>, [Option<ElfSymbol64>; 4], ElfProgramHeader64),
    ElfLoadError,
>)
    ensures
        r is Ok <==> spec_load_err(*elf_header, kernel@) is None,
        r matches Err(e) ==> spec_load_err(*elf_header, kernel@) == Some(e),
        r matches Ok(out) ==> ({
            let shs = spec_sections(*elf_header, kernel@);
            let phs = spec_programs(*elf_header, kernel@);
            let ph = phs[spec_first_load(phs)->Some_0];
            let st = shs[elf_header.sh_string_index as int];
            let strtab = spec_string_table(kernel@, st);
            let sy = shs[spec_find_section(
                shs,
                symtab_section_name(),
                ELF_SH_TYPE_SYMTAB,
                strtab,
            )->Some_0];
            let ss = shs[spec_find_section(
                shs,
                strtab_section_name(),
                ELF_SH_TYPE_STRTAB,
                strtab,
            )->Some_0];
            let syms = spec_symbols(kernel@, sy);
            let symstr = spec_string_table(kernel@, ss);
            &&& out.2 == ph
            &&& out.0@.len() == ph.mem_size
            &&& out.0@.subrange(0, ph.file_size as int) == kernel@.subrange(
                ph.offset as int,
                ph.offset + ph.file_size,
            )
            &&& forall|i: int| ph.file_size <= i < ph.mem_size ==> out.0@[i] == 0
            &&& out.1@[0] == spec_symbol_lookup(syms, bootboot_symbol_name(), symstr)
            &&& out.1@[1] == spec_symbol_lookup(syms, environment_symbol_name(), symstr)
            &&& out.1@[2] == spec_symbol_lookup(syms, fb_symbol_name(), symstr)
            &&& out.1@[3] == spec_symbol_lookup(syms, initstack_symbol_name(), symstr)
        }),
{
    let kernel_len = kernel.len();

    // Get section and program headers
    let (sections, programs) = match elf_header.get_headers(kernel) {
        Ok(t) => t,
        Err(e) => {
            return Err(ElfLoadError::Headers(e));
        },
    };

    // Get first program header with LOAD type
    let load_idx = match find_load(programs.as_slice()) {
        Some(i) => i,
        None => {
            return Err(ElfLoadError::NoLoadSegment);
        },
    };
    proof {
        lemma_first_load_props(programs@);
    }
    let ph_load = programs[load_idx];

    // Ensure program header is valid
    if ph_load.file_size > kernel_len as u64 || ph_load.offset > kernel_len as u64
        - ph_load.file_size {
        return Err(ElfLoadError::LoadSegmentOutOfBounds);
    }
    if ph_load.mem_size < ph_load.file_size {
        return Err(ElfLoadError::LoadSegmentTooLarge);
    }
    if ph_load.mem_size > usize::MAX as u64 {
        return Err(ElfLoadError::LoadSegmentTooLarge);
    }
    if elf_header.sh_string_index as usize >= sections.len() {
        return Err(ElfLoadError::InvalidStringTableIndex);
    }

    // Get string table for section names
    let str_table_header = sections[elf_header.sh_string_index as usize];
    if str_table_header.size > kernel_len as u64 || str_table_header.offset > kernel_len as u64
        - str_table_header.size {
        return Err(ElfLoadError::StringTableOutOfBounds);
    }
    let str_table = vstd::slice::slice_subrange(
        kernel,
        str_table_header.offset as usize,
        str_table_header.offset as usize + str_table_header.size as usize,
    );

    // Get symbol table by checking for ".symtab" in string table
    let symtab_name: [u8; 7] = [0x2e, 0x73, 0x79, 0x6d, 0x74, 0x61, 0x62];
    proof {
        assert(symtab_name@ =~= symtab_section_name());
    }
    let symbol_header = match ElfSectionHeader64::find_section(
        sections.as_slice(),
        symtab_name.as_slice(),
        ELF_SH_TYPE_SYMTAB,
        str_table,
    ) {
        Some(sh) => *sh,
        None => {
            return Err(ElfLoadError::NoSymbolTable);
        },
    };
    if symbol_header.entry_size != 24 {
        return Err(ElfLoadError::InvalidSymbolEntrySize);
    }
    if symbol_header.size > kernel_len as u64 || symbol_header.offset > kernel_len as u64
        - symbol_header.size {
        return Err(ElfLoadError::SymbolTableOutOfBounds);
    }
    if symbol_header.size % 24 != 0 || symbol_header.size < 24 {
        return Err(ElfLoadError::InvalidSymbolTableSize);
    }
    let symbol_entries = (symbol_header.size / 24) as usize;
    proof {
        vstd::arithmetic::div_mod::lemma_fundamental_div_mod(symbol_header.size as int, 24);
    }
    let symbols = parse_symbols(kernel, symbol_header.offset as usize, symbol_entries);

    // Get symbol string table by checking for ".strtab" in string table
    let strtab_name: [u8; 7] = [0x2e, 0x73, 0x74, 0x72, 0x74, 0x61, 0x62];
    proof {
        assert(strtab_name@ =~= strtab_section_name());
    }
    let symbol_str_header = match ElfSectionHeader64::find_section(
        sections.as_slice(),
        strtab_name.as_slice(),
        ELF_SH_TYPE_STRTAB,
        str_table,
    ) {
        Some(sh) => *sh,
        None => {
            return Err(ElfLoadError::NoSymbolStringTable);
        },
    };
    if symbol_str_header.size > kernel_len as u64 || symbol_str_header.offset > kernel_len as u64
        - symbol_str_header.size {
        return Err(ElfLoadError::SymbolStringTableOutOfBounds);
    }
    let symbol_str_table = vstd::slice::slice_subrange(
        kernel,
        symbol_str_header.offset as usize,
        symbol_str_header.offset as usize + symbol_str_header.size as usize,
    );

    // Find special symbols
    let bootboot_name: [u8; 8] = [0x62, 0x6f, 0x6f, 0x74, 0x62, 0x6f, 0x6f, 0x74];
    let environment_name: [u8; 11] = [0x65, 0x6e, 0x76, 0x69, 0x72, 0x6f, 0x6e, 0x6d, 0x65,
        0x6e, 0x74];
    let fb_name: [u8; 2] = [0x66, 0x62];
    let initstack_name: [u8; 9] = [0x69, 0x6e, 0x69, 0x74, 0x73, 0x74, 0x61, 0x63, 0x6b];
    proof {
        assert(bootboot_name@ =~= bootboot_symbol_name());
        assert(environment_name@ =~= environment_symbol_name());
        assert(fb_name@ =~= fb_symbol_name());
        assert(initstack_name@ =~= initstack_symbol_name());
    }
    let bootboot_symbol = match ElfSymbol64::find_symbol(
        symbols.as_slice(),
        bootboot_name.as_slice(),
        symbol_str_table,
    ) {
        Some(s) => Some(*s),
        None => None,
    };
    let env_symbol = match ElfSymbol64::find_symbol(
        symbols.as_slice(),
        environment_name.as_slice(),
        symbol_str_table,
    ) {
        Some(s) => Some(*s),
        None => None,
    };
    let fb_symbol = match ElfSymbol64::find_symbol(
        symbols.as_slice(),
        fb_name.as_slice(),
        symbol_str_table,
    ) {
        Some(s) => Some(*s),
        None => None,
    };
    let initstack_symbol = match ElfSymbol64::find_symbol(
        symbols.as_slice(),
        initstack_name.as_slice(),
        symbol_str_table,
    ) {
        Some(s) => Some(*s),
        None => None,
    };

    // Allocate space for the kernel image: file bytes, then zeroed BSS
    let offset = ph_load.offset as usize;
    let file_size = ph_load.file_size as usize;
    let mem_size = ph_load.mem_size as usize;
    let mut loaded_kernel: Vec<u8> = Vec::new();
    let mut i: usize = 0;
    while i < file_size
        invariant
            i <= file_size,
            loaded_kernel@.len() == i,
            forall|k: int| 0 <= k < i ==> loaded_kernel@[k] == kernel@[offset + k],
            offset + file_size <= kernel@.len(),
            kernel@.len() <= usize::MAX,
        decreases file_size - i,
    {
        loaded_kernel.push(kernel[offset + i]);
        i = i + 1;
    }
    while loaded_kernel.len() < mem_size
        invariant
            file_size <= loaded_kernel@.len() <= mem_size,
            offset + file_size <= kernel@.len(),
            forall|k: int| 0 <= k < file_size ==> loaded_kernel@[k] == kernel@[offset + k],
            forall|k: int| file_size <= k < loaded_kernel@.len() ==> loaded_kernel@[k] == 0,
        decreases mem_size - loaded_kernel@.len(),
    {
        loaded_kernel.push(0);
    }
    proof {
        assert(loaded_kernel@.subrange(0, ph_load.file_size as int) =~= kernel@.subrange(
            ph_load.offset as int,
            ph_load.offset + ph_load.file_size,
        ));
        assert(symbols@ =~= spec_symbols(kernel@, symbol_header));
    }

    let all_symbols = [bootboot_symbol, env_symbol, fb_symbol, initstack_symbol];
    Ok((loaded_kernel, all_symbols, ph_load))
}

} // verus!
