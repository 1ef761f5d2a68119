use bootboot_loader::framebuffer::Framebuffer;
use bootboot_loader::header::{
    BootbootHeader, BootbootProtocol, BootbootProtocolLevel, LoaderType,
};
use bootboot_loader::initrd::Initrd;

#[test]
fn loader_type_decodes_the_four_variants() {
    assert_eq!(LoaderType::try_from(0), Ok(LoaderType::Bios));
    assert_eq!(LoaderType::try_from(1), Ok(LoaderType::Uefi));
    assert_eq!(LoaderType::try_from(2), Ok(LoaderType::Rpi));
    assert_eq!(LoaderType::try_from(3), Ok(LoaderType::Coreboot));
    assert_eq!(LoaderType::try_from(4), Err(()));
}

#[test]
fn protocol_level_decodes_static_and_dynamic() {
    assert_eq!(BootbootProtocolLevel::try_from(1), Ok(BootbootProtocolLevel::Static));
    assert_eq!(BootbootProtocolLevel::try_from(2), Ok(BootbootProtocolLevel::Dynamic));
    assert_eq!(BootbootProtocolLevel::try_from(0), Err(()));
    assert_eq!(BootbootProtocolLevel::try_from(3), Err(()));
}

#[test]
fn protocol_byte_unpacks_its_fields() {
    // level 2, loader type 1 (UEFI), big endian
    let p = BootbootProtocol::new(0x80 | (1 << 2) | 2);
    assert!(p.is_big_endian());
    assert_eq!(p.level(), BootbootProtocolLevel::Dynamic);
    assert_eq!(p.loader_type(), LoaderType::Uefi);

    // level 1, loader type 0 (BIOS), little endian
    let q = BootbootProtocol::new(1);
    assert!(!q.is_big_endian());
    assert_eq!(q.level(), BootbootProtocolLevel::Static);
    assert_eq!(q.loader_type(), LoaderType::Bios);
}

#[test]
fn header_magic_reads_boot() {
    assert_eq!(BootbootHeader::magic(), *b"BOOT");
    assert_eq!(BootbootHeader::magic(), [66, 79, 79, 84]);
}

#[test]
fn header_carries_its_parts() {
    let fb = Framebuffer { ptr: 0xe000_0000, size: 0x40000, width: 1024, height: 768, scanline: 4096 };
    let initrd = Initrd::new(vec![1, 2, 3]);
    let header = BootbootHeader::new(fb, initrd, BootbootProtocol::new(1));
    assert_eq!(header.fb.width, 1024);
    assert_eq!(header.initrd.size(), 3);
    assert_eq!(header.protocol.0, 1);
}
