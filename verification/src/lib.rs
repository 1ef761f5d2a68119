//! Hardware/firmware discovery and validation for a BOOTBOOT-style UEFI
//! boot loader.
//!
//! The crate decodes and validates the binary structures a loader must
//! trust before it can start a kernel: ACPI description tables, the SMBIOS
//! entry point, the kernel's ELF64 image, the firmware memory map, the
//! initrd archive and the boot environment file.  Every parser works on
//! plain byte buffers; reading firmware memory, files and UEFI protocols
//! is left to the surrounding (unverified) boot orchestrator.

pub mod acpi;
pub mod bootboot;
pub mod config;
pub mod elf;
pub mod environment;
pub mod framebuffer;
pub mod header;
pub mod initrd;
pub mod mmap;
pub mod smbios;
pub mod utils;
