//! SMBIOS entry-point validation.
//!
//! The firmware configuration table announces the address of the SMBIOS
//! entry point, a fixed 31-byte structure whose checksum runs over exactly
//! the number of bytes its own length field declares.  As with ACPI, the
//! boot orchestrator reads the raw bytes and hands them to the parser.

use vstd::prelude::*;

use crate::config::{find_guid, ConfigTableEntry, SMBIOS_GUID};
use crate::utils::{self, checksum_valid, le16, le32, match_sig, ParseError};

verus! {

/// The 4-byte SMBIOS anchor, `"_SM_"`.
pub open spec fn smbios_anchor() -> Seq<u8> {
    seq![0x5fu8, 0x53u8, 0x4du8, 0x5fu8]
}

/// SMBIOS entry point struct.
///
/// Decoded from the fixed 31-byte region at the announced address.
#[derive(Copy, Clone, Debug)]
pub struct SmbiosEntryPoint {
    pub anchor: [u8; 4],
    pub entry_point_checksum: u8,
    pub entry_point_length: u8,
    pub version_major: u8,
    pub version_minor: u8,
    pub max_struct_size: u16,
    pub entry_point_revision: u8,
    pub formatted_area: [u8; 5],
    pub intermediate_anchor: [u8; 5],
    pub intermediate_checksum: u8,
    pub table_length: u16,
    pub table_address: u32,
    pub num_structs: u16,
    pub bcd_revision: u8,
}

impl SmbiosEntryPoint {
    /// The decoded fields equal the fields stored in the 31-byte region `b`.
    pub open spec fn decodes(self, b: Seq<u8>) -> bool {
        &&& self.anchor@ == b.subrange(0, 4)
        &&& self.entry_point_checksum == b[4]
        &&& self.entry_point_length == b[5]
        &&& self.version_major == b[6]
        &&& self.version_minor == b[7]
        &&& self.max_struct_size == le16(b, 8)
        &&& self.entry_point_revision == b[10]
        &&& self.formatted_area@ == b.subrange(11, 16)
        &&& self.intermediate_anchor@ == b.subrange(16, 21)
        &&& self.intermediate_checksum == b[21]
        &&& self.table_length == le16(b, 22)
        &&& self.table_address == le32(b, 24)
        &&& self.num_structs == le16(b, 28)
        &&& self.bcd_revision == b[30]
    }

    /// Returns the valid SMBIOS anchor bytes.
    pub fn valid_magic() -> (r: [u8; 4])
        ensures
            r@ == smbios_anchor(),
    {
        let r: [u8; 4] = [0x5f, 0x53, 0x4d, 0x5f];
        proof {
            assert(r@ =~= smbios_anchor());
        }
        r
    }

    /// Validates and decodes the SMBIOS entry point.
    ///
    /// The anchor must read `"_SM_"` (else `InvalidSignature`), the
    /// declared entry-point length must cover the fixed structure and lie
    /// inside the supplied region (else `InvalidSize`), and the declared
    /// region must sum to 0 mod 256 (else `FailedChecksum`).
    pub fn parse(bytes: &[u8]) -> (r: Result<Self, ParseError>)
        requires
            bytes@.len() >= 31,
        ensures
            bytes@.subrange(0, 4) != smbios_anchor() ==> r == Err::<Self, ParseError>(
                ParseError::InvalidSignature,
            ),
            bytes@.subrange(0, 4) == smbios_anchor() && !(31 <= bytes@[5] <= bytes@.len()) ==> r
                == Err::<Self, ParseError>(ParseError::InvalidSize),
            bytes@.subrange(0, 4) == smbios_anchor() && 31 <= bytes@[5] <= bytes@.len()
                && !checksum_valid(bytes@.take(bytes@[5] as int)) ==> r == Err::<
                Self,
                ParseError,
            >(ParseError::FailedChecksum),
            r is Ok <==> bytes@.subrange(0, 4) == smbios_anchor() && 31 <= bytes@[5]
                <= bytes@.len() && checksum_valid(bytes@.take(bytes@[5] as int)),
            r matches Ok(p) ==> p.decodes(bytes@),
            r matches Ok(p) ==> utils::Checksum::encoded(&p) == bytes@.take(31),
    {
        let magic = Self::valid_magic();
        if !match_sig(bytes, 0, magic.as_slice()) {
            return Err(ParseError::InvalidSignature);
        }
        let epl = bytes[5] as usize;
        if epl < 31 || epl > bytes.len() {
            return Err(ParseError::InvalidSize);
        }
        let region = vstd::slice::slice_subrange(bytes, 0, epl);
        proof {
            assert(region@ =~= bytes@.take(bytes@[5] as int));
        }
        if utils::checksum(region) != 0 {
            return Err(ParseError::FailedChecksum);
        }
        let p = SmbiosEntryPoint {
            anchor: [bytes[0], bytes[1], bytes[2], bytes[3]],
            entry_point_checksum: bytes[4],
            entry_point_length: bytes[5],
            version_major: bytes[6],
            version_minor: bytes[7],
            max_struct_size: utils::read_u16(bytes, 8),
            entry_point_revision: bytes[10],
            formatted_area: [bytes[11], bytes[12], bytes[13], bytes[14], bytes[15]],
            intermediate_anchor: [bytes[16], bytes[17], bytes[18], bytes[19], bytes[20]],
            intermediate_checksum: bytes[21],
            table_length: utils::read_u16(bytes, 22),
            table_address: utils::read_u32(bytes, 24),
            num_structs: utils::read_u16(bytes, 28),
            bcd_revision: bytes[30],
        };
        proof {
            assert(p.anchor@ =~= bytes@.subrange(0, 4));
            assert(p.formatted_area@ =~= bytes@.subrange(11, 16));
            assert(p.intermediate_anchor@ =~= bytes@.subrange(16, 21));
            utils::lemma_le16_roundtrip(bytes@, 8);
            utils::lemma_le16_roundtrip(bytes@, 22);
            utils::lemma_le32_roundtrip(bytes@, 24);
            utils::lemma_le16_roundtrip(bytes@, 28);
            assert(utils::Checksum::encoded(&p) =~= bytes@.take(31));
        }
        Ok(p)
    }
}

impl utils::Checksum for SmbiosEntryPoint {
    open spec fn encoded(&self) -> Seq<u8> {
        self.anchor@ + seq![self.entry_point_checksum, self.entry_point_length,
            self.version_major, self.version_minor] + utils::le16_bytes(self.max_struct_size)
            + seq![self.entry_point_revision] + self.formatted_area@ + self.intermediate_anchor@
            + seq![self.intermediate_checksum] + utils::le16_bytes(self.table_length)
            + utils::le32_bytes(self.table_address) + utils::le16_bytes(self.num_structs)
            + seq![self.bcd_revision]
    }

    fn checksum(&self) -> (r: u8) {
        let bytes = self.encode();
        utils::checksum(bytes.as_slice())
    }

    fn checksum_valid(&self) -> (r: bool) {
        let bytes = self.encode();
        utils::checksum(bytes.as_slice()) == 0
    }
}

impl SmbiosEntryPoint {
    /// Writes the 31-byte on-disk form of this structure.
    fn encode(&self) -> (r: Vec<u8>)
        ensures
            r@ == utils::Checksum::encoded(self),
    {
        let mut out: Vec<u8> = Vec::new();
        out.extend_from_slice(self.anchor.as_slice());
        out.push(self.entry_point_checksum);
        out.push(self.entry_point_length);
        out.push(self.version_major);
        out.push(self.version_minor);
        utils::push_le16(&mut out, self.max_struct_size);
        out.push(self.entry_point_revision);
        out.extend_from_slice(self.formatted_area.as_slice());
        out.extend_from_slice(self.intermediate_anchor.as_slice());
        out.push(self.intermediate_checksum);
        utils::push_le16(&mut out, self.table_length);
        utils::push_le32(&mut out, self.table_address);
        utils::push_le16(&mut out, self.num_structs);
        out.push(self.bcd_revision);
        proof {
            assert(out@ =~= utils::Checksum::encoded(self));
        }
        out
    }
}

impl utils::Magic<4> for SmbiosEntryPoint {
    open spec fn spec_magic(&self) -> Seq<u8> {
        self.anchor@
    }

    fn magic(&self) -> (r: [u8; 4]) {
        self.anchor
    }
}

/// What locating the SMBIOS entry in the configuration table yields.
pub open spec fn spec_locate_smbios(s: Seq<ConfigTableEntry>) -> Result<u64, ParseError> {
    match find_guid(s, SMBIOS_GUID) {
        Some(i) => if s[i].address == 0 {
            Err(ParseError::InvalidPointer)
        } else {
            Ok(s[i].address)
        },
        None => Err(ParseError::NoTable),
    }
}

/// Finds the configuration-table entry holding the SMBIOS entry-point
/// address.
///
/// A missing entry yields `NoTable` and a null address yields
/// `InvalidPointer`.
pub fn locate_smbios(config_table: &[ConfigTableEntry]) -> (r: Result<u64, ParseError>)
    ensures
        r == spec_locate_smbios(config_table@),
{
    proof {
        crate::config::lemma_find_guid_props(config_table@, SMBIOS_GUID);
    }
    match crate::config::find_config_table(config_table, SMBIOS_GUID) {
        Some(i) => if config_table[i].address == 0 {
            Err(ParseError::InvalidPointer)
        } else {
            Ok(config_table[i].address)
        },
        None => Err(ParseError::NoTable),
    }
}

} // verus!
