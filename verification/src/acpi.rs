//! ACPI root-pointer and description-table parsing.
//!
//! The firmware's configuration table points at the RSDP (root system
//! description pointer).  From there the loader reaches the RSDT or XSDT,
//! a header plus a variable number of entry bytes, all guarded by byte
//! checksums.  Every function here works on bytes that the boot
//! orchestrator has already read from firmware memory; the staged parsers
//! mirror the walk RSDP -> (XSDP) -> header -> whole table.

use vstd::prelude::*;

use crate::config::{find_guid, ConfigTableEntry, ACPI2_GUID, ACPI_GUID};
use crate::utils::{
    self, checksum_valid, le32, le64, match_sig, ParseError,
};

verus! {

/// The 8-byte RSDP signature, `"RSD PTR "`.
pub open spec fn rsdp_signature() -> Seq<u8> {
    seq![0x52u8, 0x53u8, 0x44u8, 0x20u8, 0x50u8, 0x54u8, 0x52u8, 0x20u8]
}

/// The 4-byte signature of an RSDT, `"RSDT"`.
pub open spec fn rsdt_signature() -> Seq<u8> {
    seq![0x52u8, 0x53u8, 0x44u8, 0x54u8]
}

/// The 4-byte signature of an XSDT, `"XSDT"`.
pub open spec fn xsdt_signature() -> Seq<u8> {
    seq![0x58u8, 0x53u8, 0x44u8, 0x54u8]
}

/// The RSDP struct that points to ACPI tables.
///
/// Decoded from the fixed 20-byte region the firmware places at the
/// address announced in the configuration table.
#[derive(Copy, Clone, Debug)]
pub struct RootDescriptionPointer {
    pub signature: [u8; 8],
    pub checksum: u8,
    pub oem_id: [u8; 6],
    pub revision: u8,
    pub rsdt_addr: u32,
}

impl RootDescriptionPointer {
    /// The decoded fields equal the fields stored in the 20-byte region `b`.
    pub open spec fn decodes(self, b: Seq<u8>) -> bool {
        &&& self.signature@ == b.subrange(0, 8)
        &&& self.checksum == b[8]
        &&& self.oem_id@ == b.subrange(9, 15)
        &&& self.revision == b[15]
        &&& self.rsdt_addr == le32(b, 16)
    }

    /// Returns the valid RSDP signature bytes.
    pub fn valid_magic() -> (r: [u8; 8])
        ensures
            r@ == rsdp_signature(),
    {
        let r: [u8; 8] = [0x52, 0x53, 0x44, 0x20, 0x50, 0x54, 0x52, 0x20];
        proof {
            assert(r@ =~= rsdp_signature());
        }
        r
    }

    /// Validates and decodes the 20-byte RSDP region.
    ///
    /// The signature must read `"RSD PTR "` (else `InvalidSignature`) and
    /// the 20 bytes must sum to 0 mod 256 (else `FailedChecksum`).
    pub fn parse(bytes: &[u8]) -> (r: Result<Self, ParseError>)
        requires
            bytes@.len() >= 20,
        ensures
            r is Ok <==> bytes@.subrange(0, 8) == rsdp_signature() && checksum_valid(
                bytes@.take(20),
            ),
            bytes@.subrange(0, 8) != rsdp_signature() ==> r == Err::<Self, ParseError>(
                ParseError::InvalidSignature,
            ),
            bytes@.subrange(0, 8) == rsdp_signature() && !checksum_valid(bytes@.take(20))
                ==> r == Err::<Self, ParseError>(ParseError::FailedChecksum),
            r matches Ok(p) ==> p.decodes(bytes@),
            r matches Ok(p) ==> utils::Checksum::encoded(&p) == bytes@.take(20),
    {
        let magic = Self::valid_magic();
        if !match_sig(bytes, 0, magic.as_slice()) {
            return Err(ParseError::InvalidSignature);
        }
        let region = vstd::slice::slice_subrange(bytes, 0, 20);
        if utils::checksum(region) != 0 {
            proof {
                assert(region@ =~= bytes@.take(20));
            }
            return Err(ParseError::FailedChecksum);
        }
        let p = RootDescriptionPointer {
            signature: [bytes[0], bytes[1], bytes[2], bytes[3], bytes[4], bytes[5], bytes[6],
                bytes[7]],
            checksum: bytes[8],
            oem_id: [bytes[9], bytes[10], bytes[11], bytes[12], bytes[13], bytes[14]],
            revision: bytes[15],
            rsdt_addr: utils::read_u32(bytes, 16),
        };
        proof {
            assert(region@ =~= bytes@.take(20));
            assert(p.signature@ =~= bytes@.subrange(0, 8));
            assert(p.oem_id@ =~= bytes@.subrange(9, 15));
            utils::lemma_le32_roundtrip(bytes@, 16);
            assert(utils::Checksum::encoded(&p) =~= bytes@.take(20));
        }
        Ok(p)
    }
}

impl utils::Checksum for RootDescriptionPointer {
    open spec fn encoded(&self) -> Seq<u8> {
        self.signature@ + seq![self.checksum] + self.oem_id@ + seq![self.revision]
            + utils::le32_bytes(self.rsdt_addr)
    }

    fn checksum(&self) -> (r: u8) {
        let bytes = self.encode();
        utils::checksum(bytes.as_slice())
    }

    fn checksum_valid(&self) -> (r: bool) {
        let bytes = self.encode();
        utils::checksum(bytes.as_slice()) == 0
    }
}

impl RootDescriptionPointer {
    /// Writes the 20-byte on-disk form of this structure.
    fn encode(&self) -> (r: Vec<u8>)
        ensures
            r@ == utils::Checksum::encoded(self),
    {
        let mut out: Vec<u8> = Vec::new();
        out.extend_from_slice(self.signature.as_slice());
        out.push(self.checksum);
        out.extend_from_slice(self.oem_id.as_slice());
        out.push(self.revision);
        utils::push_le32(&mut out, self.rsdt_addr);
        proof {
            assert(out@ =~= utils::Checksum::encoded(self));
        }
        out
    }
}

impl utils::Magic<8> for RootDescriptionPointer {
    open spec fn spec_magic(&self) -> Seq<u8> {
        self.signature@
    }

    fn magic(&self) -> (r: [u8; 8]) {
        self.signature
    }
}

/// The RSDP struct that points to an ACPI table with a valid XSDT.
///
/// This struct is used when the ACPI revision >= 2; it spans 36 bytes.
#[derive(Copy, Clone, Debug)]
pub struct ExtendedDescriptionPointer {
    pub rsdp: RootDescriptionPointer,
    pub length: u32,
    pub xsdt_addr: u64,
    pub checksum: u8,
    pub reserved: [u8; 3],
}

impl ExtendedDescriptionPointer {
    /// The decoded fields equal the fields stored in the 36-byte region `b`.
    pub open spec fn decodes(self, b: Seq<u8>) -> bool {
        &&& self.rsdp.decodes(b)
        &&& self.length == le32(b, 20)
        &&& self.xsdt_addr == le64(b, 24)
        &&& self.checksum == b[32]
        &&& self.reserved@ == b.subrange(33, 36)
    }

    /// Validates the extended (36-byte) checksum and decodes the XSDP.
    ///
    /// The caller has already validated the embedded RSDP; only the
    /// whole-struct checksum remains (else `FailedChecksum`).
    pub fn parse(bytes: &[u8]) -> (r: Result<Self, ParseError>)
        requires
            bytes@.len() >= 36,
        ensures
            r is Ok <==> checksum_valid(bytes@.take(36)),
            !checksum_valid(bytes@.take(36)) ==> r == Err::<Self, ParseError>(
                ParseError::FailedChecksum,
            ),
            r matches Ok(p) ==> p.decodes(bytes@),
            r matches Ok(p) ==> utils::Checksum::encoded(&p) == bytes@.take(36),
    {
        let region = vstd::slice::slice_subrange(bytes, 0, 36);
        proof {
            assert(region@ =~= bytes@.take(36));
        }
        if utils::checksum(region) != 0 {
            return Err(ParseError::FailedChecksum);
        }
        let p = ExtendedDescriptionPointer {
            rsdp: RootDescriptionPointer {
                signature: [bytes[0], bytes[1], bytes[2], bytes[3], bytes[4], bytes[5], bytes[6],
                    bytes[7]],
                checksum: bytes[8],
                oem_id: [bytes[9], bytes[10], bytes[11], bytes[12], bytes[13], bytes[14]],
                revision: bytes[15],
                rsdt_addr: utils::read_u32(bytes, 16),
            },
            length: utils::read_u32(bytes, 20),
            xsdt_addr: utils::read_u64(bytes, 24),
            checksum: bytes[32],
            reserved: [bytes[33], bytes[34], bytes[35]],
        };
        proof {
            assert(p.rsdp.signature@ =~= bytes@.subrange(0, 8));
            assert(p.rsdp.oem_id@ =~= bytes@.subrange(9, 15));
            assert(p.reserved@ =~= bytes@.subrange(33, 36));
            utils::lemma_le32_roundtrip(bytes@, 16);
            utils::lemma_le32_roundtrip(bytes@, 20);
            utils::lemma_le64_roundtrip(bytes@, 24);
            assert(utils::Checksum::encoded(&p) =~= bytes@.take(36));
        }
        Ok(p)
    }
}

impl utils::Checksum for ExtendedDescriptionPointer {
    open spec fn encoded(&self) -> Seq<u8> {
        utils::Checksum::encoded(&self.rsdp) + utils::le32_bytes(self.length)
            + utils::le64_bytes(self.xsdt_addr) + seq![self.checksum] + self.reserved@
    }

    fn checksum(&self) -> (r: u8) {
        let bytes = self.encode();
        utils::checksum(bytes.as_slice())
    }

    fn checksum_valid(&self) -> (r: bool) {
        let bytes = self.encode();
        utils::checksum(bytes.as_slice()) == 0
    }
}

impl ExtendedDescriptionPointer {
    /// Writes the 36-byte on-disk form of this structure.
    fn encode(&self) -> (r: Vec<u8>)
        ensures
            r@ == utils::Checksum::encoded(self),
    {
        let mut out = self.rsdp.encode();
        utils::push_le32(&mut out, self.length);
        utils::push_le64(&mut out, self.xsdt_addr);
        out.push(self.checksum);
        out.extend_from_slice(self.reserved.as_slice());
        proof {
            assert(out@ =~= utils::Checksum::encoded(self));
        }
        out
    }
}

/// A header for an ACPI table.
///
/// Fixed 36 bytes at the start of every system description table.
#[derive(Copy, Clone, Debug)]
pub struct DescriptionHeader {
    pub signature: [u8; 4],
    pub length: u32,
    pub revision: u8,
    pub checksum: u8,
    pub oem_id: [u8; 6],
    pub oem_table_id: u64,
    pub oem_revision: u32,
    pub creator_id: u32,
    pub creator_revision: u32,
}

impl DescriptionHeader {
    /// The decoded fields equal the fields stored in the 36-byte region `b`.
    pub open spec fn decodes(self, b: Seq<u8>) -> bool {
        &&& self.signature@ == b.subrange(0, 4)
        &&& self.length == le32(b, 4)
        &&& self.revision == b[8]
        &&& self.checksum == b[9]
        &&& self.oem_id@ == b.subrange(10, 16)
        &&& self.oem_table_id == le64(b, 16)
        &&& self.oem_revision == le32(b, 24)
        &&& self.creator_id == le32(b, 28)
        &&& self.creator_revision == le32(b, 32)
    }

    /// The signature names an RSDT or an XSDT.
    pub open spec fn spec_signature_known(b: Seq<u8>) -> bool {
        b.subrange(0, 4) == rsdt_signature() || b.subrange(0, 4) == xsdt_signature()
    }

    /// Validates and decodes a 36-byte description header.
    ///
    /// The signature must read `"RSDT"` or `"XSDT"` (else
    /// `InvalidSignature`) and the declared length must cover at least the
    /// header itself (else `InvalidSize`).
    pub fn parse(bytes: &[u8]) -> (r: Result<Self, ParseError>)
        requires
            bytes@.len() >= 36,
        ensures
            r is Ok <==> Self::spec_signature_known(bytes@) && le32(bytes@, 4) >= 36,
            !Self::spec_signature_known(bytes@) ==> r == Err::<Self, ParseError>(
                ParseError::InvalidSignature,
            ),
            Self::spec_signature_known(bytes@) && le32(bytes@, 4) < 36 ==> r == Err::<
                Self,
                ParseError,
            >(ParseError::InvalidSize),
            r matches Ok(h) ==> h.decodes(bytes@),
    {
        if !is_table_signature(bytes) {
            return Err(ParseError::InvalidSignature);
        }
        let length = utils::read_u32(bytes, 4);
        if length < 36 {
            return Err(ParseError::InvalidSize);
        }
        let h = DescriptionHeader {
            signature: [bytes[0], bytes[1], bytes[2], bytes[3]],
            length,
            revision: bytes[8],
            checksum: bytes[9],
            oem_id: [bytes[10], bytes[11], bytes[12], bytes[13], bytes[14], bytes[15]],
            oem_table_id: utils::read_u64(bytes, 16),
            oem_revision: utils::read_u32(bytes, 24),
            creator_id: utils::read_u32(bytes, 28),
            creator_revision: utils::read_u32(bytes, 32),
        };
        proof {
            assert(h.signature@ =~= bytes@.subrange(0, 4));
            assert(h.oem_id@ =~= bytes@.subrange(10, 16));
        }
        Ok(h)
    }
}

impl utils::Magic<4> for DescriptionHeader {
    open spec fn spec_magic(&self) -> Seq<u8> {
        self.signature@
    }

    fn magic(&self) -> (r: [u8; 4]) {
        self.signature
    }
}

/// Returns true if `bytes` opens with an RSDT or XSDT signature.
///
/// Some firmware points the configuration table directly at a system
/// description table instead of at an RSDP; the caller uses this probe on
/// the first bytes read at the announced address to support that quirk.
pub fn is_table_signature(bytes: &[u8]) -> (r: bool)
    requires
        bytes@.len() >= 4,
    ensures
        r <==> (bytes@.subrange(0, 4) == rsdt_signature() || bytes@.subrange(0, 4)
            == xsdt_signature()),
{
    let rsdt: [u8; 4] = [0x52, 0x53, 0x44, 0x54];
    let xsdt: [u8; 4] = [0x58, 0x53, 0x44, 0x54];
    proof {
        assert(rsdt@ =~= rsdt_signature());
        assert(xsdt@ =~= xsdt_signature());
    }
    match_sig(bytes, 0, rsdt.as_slice()) || match_sig(bytes, 0, xsdt.as_slice())
}

/// What locating the ACPI entry in the configuration table yields.
pub open spec fn spec_locate_rsdp(s: Seq<ConfigTableEntry>) -> Result<u64, ParseError> {
    let entry = match find_guid(s, ACPI2_GUID) {
        Some(i) => Some(s[i]),
        None => match find_guid(s, ACPI_GUID) {
            Some(i) => Some(s[i]),
            None => None,
        },
    };
    match entry {
        Some(e) => if e.address == 0 {
            Err(ParseError::InvalidPointer)
        } else {
            Ok(e.address)
        },
        None => Err(ParseError::NoTable),
    }
}

/// Finds the configuration-table entry holding the RSDP address.
///
/// ACPI 2.0 entries are preferred over ACPI 1.0 ones; a missing entry
/// yields `NoTable` and a null address yields `InvalidPointer`.
pub fn locate_rsdp(config_table: &[ConfigTableEntry]) -> (r: Result<u64, ParseError>)
    ensures
        r == spec_locate_rsdp(config_table@),
{
    proof {
        crate::config::lemma_find_guid_props(config_table@, ACPI2_GUID);
        crate::config::lemma_find_guid_props(config_table@, ACPI_GUID);
    }
    let entry = match crate::config::find_config_table(config_table, ACPI2_GUID) {
        Some(i) => Some(config_table[i]),
        None => match crate::config::find_config_table(config_table, ACPI_GUID) {
            Some(i) => Some(config_table[i]),
            None => None,
        },
    };
    match entry {
        Some(e) => if e.address == 0 {
            Err(ParseError::InvalidPointer)
        } else {
            Ok(e.address)
        },
        None => Err(ParseError::NoTable),
    }
}

/// The address of the system description table, as chosen from a validated
/// RSDP and, for ACPI revision >= 2, the validated XSDP.
pub open spec fn spec_table_address(
    rsdp: RootDescriptionPointer,
    xsdp: Option<ExtendedDescriptionPointer>,
) -> Result<u64, ParseError> {
    let addr = if rsdp.revision >= 2 {
        xsdp->Some_0.xsdt_addr
    } else {
        rsdp.rsdt_addr as u64
    };
    if addr == 0 {
        Err(ParseError::InvalidPointer)
    } else {
        Ok(addr)
    }
}

/// Chooses the description-table address: the 8-byte XSDT address when the
/// revision is >= 2, else the zero-extended 4-byte RSDT address.  A null
/// pointer yields `InvalidPointer`.
pub fn table_address(
    rsdp: &RootDescriptionPointer,
    xsdp: Option<&ExtendedDescriptionPointer>,
) -> (r: Result<u64, ParseError>)
    requires
        xsdp is Some <==> rsdp.revision >= 2,
    ensures
        r == spec_table_address(*rsdp, match xsdp {
            Some(x) => Some(*x),
            None => None,
        }),
{
    let addr: u64 = match xsdp {
        Some(x) => x.xsdt_addr,
        None => rsdp.rsdt_addr as u64,
    };
    if addr == 0 {
        Err(ParseError::InvalidPointer)
    } else {
        Ok(addr)
    }
}

/// An ACPI system description table (XSDT or RSDT): a validated header
/// followed by a variable number of entry bytes.
///
/// The struct owns a copy of the whole table region; `header` is the
/// decoded form of its first 36 bytes.
pub struct AcpiSystemDescriptionTable {
    header: DescriptionHeader,
    raw: Vec<u8>,
}

impl AcpiSystemDescriptionTable {
    /// The bytes of the whole table, header included.
    pub closed spec fn spec_bytes(&self) -> Seq<u8> {
        self.raw@
    }

    /// The decoded header agrees with the stored bytes and the declared
    /// length equals the region's length.
    pub closed spec fn wf(&self) -> bool {
        &&& self.raw@.len() >= 36
        &&& self.header.decodes(self.raw@)
        &&& self.header.length == self.raw@.len()
    }

    /// The decoded table header.
    pub fn header(&self) -> (r: &DescriptionHeader)
        ensures
            self.wf() ==> r.decodes(self.spec_bytes()),
    {
        &self.header
    }

    /// The table's entry region: everything after the 36-byte header.
    pub fn entries(&self) -> (r: &[u8])
        requires
            self.wf(),
        ensures
            r@ == self.spec_bytes().skip(36),
    {
        let r = vstd::slice::slice_subrange(self.raw.as_slice(), 36, self.raw.len());
        proof {
            assert(r@ =~= self.spec_bytes().skip(36));
        }
        r
    }

    /// The whole table's size in bytes, as its header declares it.
    pub fn length(&self) -> (r: usize)
        ensures
            r == self.spec_bytes().len(),
    {
        self.raw.len()
    }

    /// Returns true if the checksum is valid.
    ///
    /// Sums the whole stored region: the header (checksum byte included)
    /// and every entry byte.
    pub fn checksum_valid(&self) -> (r: bool)
        ensures
            r == checksum_valid(self.spec_bytes()),
    {
        utils::checksum(self.raw.as_slice()) == 0
    }

    /// Validates and decodes a whole system description table.
    ///
    /// `bytes` is the region read at the table address, at least as long
    /// as the header's declared length.  The header must validate, the
    /// declared length must fit in `bytes` (else `InvalidSize`) and the
    /// declared-length region must sum to 0 mod 256 (else
    /// `FailedChecksum`).
    pub fn parse(bytes: &[u8]) -> (r: Result<Self, ParseError>)
        ensures
            bytes@.len() < 36 ==> r == Err::<Self, ParseError>(ParseError::InvalidSize),
            bytes@.len() >= 36 && !DescriptionHeader::spec_signature_known(bytes@) ==> r
                == Err::<Self, ParseError>(ParseError::InvalidSignature),
            bytes@.len() >= 36 && DescriptionHeader::spec_signature_known(bytes@) && !(36
                <= le32(bytes@, 4) <= bytes@.len()) ==> r == Err::<Self, ParseError>(
                ParseError::InvalidSize,
            ),
            bytes@.len() >= 36 && DescriptionHeader::spec_signature_known(bytes@) && 36 <= le32(
                bytes@,
                4,
            ) <= bytes@.len() && !checksum_valid(bytes@.take(le32(bytes@, 4))) ==> r == Err::<
                Self,
                ParseError,
            >(ParseError::FailedChecksum),
            r is Ok <==> bytes@.len() >= 36 && DescriptionHeader::spec_signature_known(bytes@)
                && 36 <= le32(bytes@, 4) <= bytes@.len() && checksum_valid(
                bytes@.take(le32(bytes@, 4)),
            ),
            r matches Ok(t) ==> t.wf() && t.spec_bytes() == bytes@.take(le32(bytes@, 4)),
    {
        if bytes.len() < 36 {
            return Err(ParseError::InvalidSize);
        }
        let header = match DescriptionHeader::parse(bytes) {
            Ok(h) => h,
            Err(e) => {
                return Err(e);
            },
        };
        let length = header.length as usize;
        if length > bytes.len() {
            return Err(ParseError::InvalidSize);
        }
        let raw = vstd::slice::slice_to_vec(vstd::slice::slice_subrange(bytes, 0, length));
        proof {
            assert(raw@ =~= bytes@.take(le32(bytes@, 4)));
        }
        let table = AcpiSystemDescriptionTable { header, raw };
        if !table.checksum_valid() {
            return Err(ParseError::FailedChecksum);
        }
        proof {
            assert(table.header.decodes(table.raw@)) by {
                assert(table.raw@.subrange(0, 4) =~= bytes@.subrange(0, 4));
                assert(table.raw@.subrange(10, 16) =~= bytes@.subrange(10, 16));
            }
        }
        Ok(table)
    }
}

/// Searches the configuration table for the ACPI capability entry,
/// preferring ACPI 2.0 over ACPI 1.0.
pub fn get_acpi_table(config_table: &[ConfigTableEntry]) -> (r: Result<
    ConfigTableEntry,
    ParseError,
>)
    ensures
        r matches Ok(e) ==> {
            let s = config_table@;
            match find_guid(s, ACPI2_GUID) {
                Some(i) => e == s[i],
                None => find_guid(s, ACPI_GUID) matches Some(i) && e == s[i],
            }
        },
        r is Err <==> find_guid(config_table@, ACPI2_GUID) is None && find_guid(
            config_table@,
            ACPI_GUID,
        ) is None,
        r is Err ==> r == Err::<ConfigTableEntry, ParseError>(ParseError::NoTable),
{
    match crate::config::find_config_table(config_table, ACPI2_GUID) {
        Some(i) => {
            proof {
                crate::config::lemma_find_guid_props(config_table@, ACPI2_GUID);
            }
            Ok(config_table[i])
        },
        None => match crate::config::find_config_table(config_table, ACPI_GUID) {
            Some(i) => {
                proof {
                    crate::config::lemma_find_guid_props(config_table@, ACPI_GUID);
                }
                Ok(config_table[i])
            },
            None => Err(ParseError::NoTable),
        },
    }
}

} // verus!
