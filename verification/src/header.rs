//! The BOOTBOOT header and protocol byte.
//!
//! The protocol byte packs the loader type, the protocol level and an
//! endianness flag into one `u8`: the low 2 bits hold the level, bits 2
//! to 6 the loader type, and the top bit the endianness.

use vstd::prelude::*;

use crate::framebuffer::Framebuffer;
use crate::initrd::Initrd;

verus! {

/// BOOTBOOT loader type.
#[derive(Copy, Clone, Debug, PartialEq, Eq, Structural)]
pub enum LoaderType {
    Bios,
    Uefi,
    Rpi,
    Coreboot,
}

impl LoaderType {
    /// Decodes a loader type from its protocol-byte value.
    pub fn try_from(loader_type: u8) -> (r: Result<Self, ()>)
        ensures
            r is Ok <==> loader_type <= 3,
            loader_type == 0 ==> r == Ok::<Self, ()>(LoaderType::Bios),
            loader_type == 1 ==> r == Ok::<Self, ()>(LoaderType::Uefi),
            loader_type == 2 ==> r == Ok::<Self, ()>(LoaderType::Rpi),
            loader_type == 3 ==> r == Ok::<Self, ()>(LoaderType::Coreboot),
    {
        match loader_type {
            0 => Ok(Self::Bios),
            1 => Ok(Self::Uefi),
            2 => Ok(Self::Rpi),
            3 => Ok(Self::Coreboot),
            _ => Err(()),
        }
    }
}

/// BOOTBOOT protocol level.
#[derive(Copy, Clone, Debug, PartialEq, Eq, Structural)]
pub enum BootbootProtocolLevel {
    Static,
    Dynamic,
}

impl BootbootProtocolLevel {
    /// Decodes a protocol level from its protocol-byte value.
    pub fn try_from(level: u8) -> (r: Result<Self, ()>)
        ensures
            r is Ok <==> level == 1 || level == 2,
            level == 1 ==> r == Ok::<Self, ()>(BootbootProtocolLevel::Static),
            level == 2 ==> r == Ok::<Self, ()>(BootbootProtocolLevel::Dynamic),
    {
        match level {
            1 => Ok(Self::Static),
            2 => Ok(Self::Dynamic),
            _ => Err(()),
        }
    }
}

/// BOOTBOOT protocol byte.
#[derive(Copy, Clone, Debug, PartialEq, Eq, Structural)]
pub struct BootbootProtocol(pub u8);

impl BootbootProtocol {
    /// Returns true if this architecture is big endian.
    pub fn is_big_endian(&self) -> (r: bool)
        ensures
            r <==> self.0 & 0x80 == 0x80,
    {
        (self.0 & 0x80) == 0x80
    }

    /// Returns the BOOTBOOT protocol level.
    ///
    /// The protocol byte must carry one of the two defined levels.
    pub fn level(&self) -> (r: BootbootProtocolLevel)
        requires
            self.0 & 0b0011 == 1 || self.0 & 0b0011 == 2,
        ensures
            self.0 & 0b0011 == 1 ==> r == BootbootProtocolLevel::Static,
            self.0 & 0b0011 == 2 ==> r == BootbootProtocolLevel::Dynamic,
    {
        BootbootProtocolLevel::try_from(self.0 & 0b0011).unwrap()
    }

    /// Returns the BOOTBOOT loader type.
    ///
    /// The protocol byte must carry one of the four defined loader types.
    pub fn loader_type(&self) -> (r: LoaderType)
        requires
            (self.0 & 0b0111_1100) >> 2 <= 3,
        ensures
            (self.0 & 0b0111_1100) >> 2 == 0 ==> r == LoaderType::Bios,
            (self.0 & 0b0111_1100) >> 2 == 1 ==> r == LoaderType::Uefi,
            (self.0 & 0b0111_1100) >> 2 == 2 ==> r == LoaderType::Rpi,
            (self.0 & 0b0111_1100) >> 2 == 3 ==> r == LoaderType::Coreboot,
    {
        LoaderType::try_from((self.0 & 0b0111_1100) >> 2).unwrap()
    }

    /// Returns a BOOTBOOT protocol byte.
    pub fn new(protocol: u8) -> (r: Self)
        ensures
            r.0 == protocol,
    {
        Self(protocol)
    }
}

/// The 4-byte BOOTBOOT header magic, `"BOOT"`.
pub open spec fn bootboot_magic() -> Seq<u8> {
    seq![66u8, 79u8, 79u8, 84u8]
}

/// The header handed to the kernel: framebuffer, initrd and protocol.
pub struct BootbootHeader {
    pub fb: Framebuffer,
    pub initrd: Initrd,
    pub protocol: BootbootProtocol,
}

impl BootbootHeader {
    /// Initialize a BOOTBOOT header.
    pub fn new(fb: Framebuffer, initrd: Initrd, protocol: BootbootProtocol) -> (r: Self)
        ensures
            r.fb == fb,
            r.initrd == initrd,
            r.protocol == protocol,
    {
        BootbootHeader { fb, initrd, protocol }
    }

    /// Returns the magic numbers in the BOOTBOOT header.
    ///
    /// Always `[66, 79, 79, 84]`, or `"BOOT"` when read as a string.
    pub fn magic() -> (r: [u8; 4])
        ensures
            r@ == bootboot_magic(),
    {
        let r: [u8; 4] = [66, 79, 79, 84];
        proof {
            assert(r@ =~= bootboot_magic());
        }
        r
    }
}

} // verus!
