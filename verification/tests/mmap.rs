use bootboot_loader::mmap::{
    BootbootMMap, MMapEntry, MMapEntryType, MemoryDescriptor, MMAP_MAX_SIZE,
};
use bootboot_loader::utils::ParseError;

const PAGE: u64 = 4096;
const FREE: u32 = 7; // conventional memory
const USED: u32 = 0; // reserved memory

fn desc(phys_start: u64, page_count: u64, ty: u32) -> MemoryDescriptor {
    MemoryDescriptor { phys_start, page_count, ty }
}

fn entries_of(m: &BootbootMMap) -> Vec<(u64, u64, MMapEntryType)> {
    let mut out = Vec::new();
    let mut i = 0;
    while i < m.len() {
        let e = m.get(i);
        out.push((e.ptr, e.size(), e.memory_type()));
        i += 1;
    }
    out
}

#[test]
fn adjacent_same_type_entries_merge() {
    let input = [
        desc(0x0, 1, FREE),
        desc(0x1000, 1, FREE),
        desc(0x2000, 1, USED),
    ];
    let m = BootbootMMap::from_uefi_mmap(&input).unwrap();
    assert_eq!(
        entries_of(&m),
        vec![
            (0x0, 0x2000, MMapEntryType::Free),
            (0x2000, 0x1000, MMapEntryType::Used),
        ]
    );
}

#[test]
fn reversed_input_normalizes_to_identical_output() {
    let input = [
        desc(0x0, 1, FREE),
        desc(0x1000, 1, FREE),
        desc(0x2000, 1, USED),
    ];
    let reversed = [
        desc(0x2000, 1, USED),
        desc(0x1000, 1, FREE),
        desc(0x0, 1, FREE),
    ];
    let a = BootbootMMap::from_uefi_mmap(&input).unwrap();
    let b = BootbootMMap::from_uefi_mmap(&reversed).unwrap();
    assert_eq!(entries_of(&a), entries_of(&b));
}

#[test]
fn normalizing_a_normalized_map_changes_nothing() {
    let input = [
        desc(0x0, 1, FREE),
        desc(0x1000, 1, FREE),
        desc(0x2000, 1, USED),
        desc(0x5000, 2, FREE),
    ];
    let once = BootbootMMap::from_uefi_mmap(&input).unwrap();
    // Feed the normalized output back in as descriptors
    let again_input: Vec<MemoryDescriptor> = entries_of(&once)
        .iter()
        .map(|&(ptr, size, ty)| {
            let code = match ty {
                MMapEntryType::Used => USED,
                MMapEntryType::Free => FREE,
                MMapEntryType::Acpi => 9,
                MMapEntryType::Mmio => 11,
                MMapEntryType::Unknown => 99,
            };
            desc(ptr, size / PAGE, code)
        })
        .collect();
    let twice = BootbootMMap::from_uefi_mmap(&again_input).unwrap();
    assert_eq!(entries_of(&once), entries_of(&twice));
}

#[test]
fn non_contiguous_same_type_entries_stay_distinct() {
    let input = [desc(0x0, 1, FREE), desc(0x2000, 1, FREE)];
    let m = BootbootMMap::from_uefi_mmap(&input).unwrap();
    assert_eq!(
        entries_of(&m),
        vec![
            (0x0, 0x1000, MMapEntryType::Free),
            (0x2000, 0x1000, MMapEntryType::Free),
        ]
    );
}

#[test]
fn contiguous_different_type_entries_stay_distinct() {
    let input = [desc(0x0, 1, FREE), desc(0x1000, 1, USED)];
    let m = BootbootMMap::from_uefi_mmap(&input).unwrap();
    assert_eq!(entries_of(&m).len(), 2);
}

#[test]
fn empty_descriptor_list_normalizes_to_empty_map() {
    let m = BootbootMMap::from_uefi_mmap(&[]).unwrap();
    assert_eq!(m.len(), 0);
    assert_eq!(m.entries().len(), 0);
}

#[test]
fn oversized_descriptor_is_rejected() {
    let input = [desc(0, u64::MAX / PAGE, FREE)];
    assert!(matches!(
        BootbootMMap::from_uefi_mmap(&input),
        Err(ParseError::TooLarge)
    ));
}

#[test]
fn firmware_type_classification_table() {
    let expected: [(u32, MMapEntryType); 16] = [
        (0, MMapEntryType::Used), // reserved
        (1, MMapEntryType::Free), // loader code
        (2, MMapEntryType::Free), // loader data
        (3, MMapEntryType::Free), // boot services code
        (4, MMapEntryType::Free), // boot services data
        (5, MMapEntryType::Used), // runtime services code
        (6, MMapEntryType::Used), // runtime services data
        (7, MMapEntryType::Free), // conventional
        (8, MMapEntryType::Used), // unusable
        (9, MMapEntryType::Acpi), // ACPI reclaim
        (10, MMapEntryType::Acpi), // ACPI non-volatile
        (11, MMapEntryType::Mmio), // MMIO
        (12, MMapEntryType::Mmio), // MMIO port space
        (13, MMapEntryType::Used), // PAL code
        (14, MMapEntryType::Used), // persistent memory
        (15, MMapEntryType::Unknown),
    ];
    for (code, ty) in expected {
        assert_eq!(MMapEntryType::from_uefi(code), ty, "type code {}", code);
    }
}

#[test]
fn tag_round_trip() {
    assert_eq!(MMapEntryType::new(0), MMapEntryType::Used);
    assert_eq!(MMapEntryType::new(1), MMapEntryType::Free);
    assert_eq!(MMapEntryType::new(2), MMapEntryType::Acpi);
    assert_eq!(MMapEntryType::new(3), MMapEntryType::Mmio);
    assert_eq!(MMapEntryType::new(4), MMapEntryType::Unknown);
    assert_eq!(MMapEntryType::new(200), MMapEntryType::Unknown);
    let all = [
        MMapEntryType::Used,
        MMapEntryType::Free,
        MMapEntryType::Acpi,
        MMapEntryType::Mmio,
        MMapEntryType::Unknown,
    ];
    for ty in all {
        if ty != MMapEntryType::Unknown {
            assert_eq!(MMapEntryType::new(ty.tag() as u8), ty);
        }
    }
}

#[test]
fn entry_packs_size_and_type() {
    let e = MMapEntry::new(0x4000, 0x2000, MMapEntryType::Acpi).unwrap();
    assert_eq!(e.ptr, 0x4000);
    assert_eq!(e.size, 0x2002); // byte count with the tag in the low bits
    assert_eq!(e.size(), 0x2000);
    assert_eq!(e.memory_type(), MMapEntryType::Acpi);
}

#[test]
fn entry_rejects_unpackable_size() {
    assert!(matches!(
        MMapEntry::new(0, MMAP_MAX_SIZE + 1, MMapEntryType::Free),
        Err(ParseError::TooLarge)
    ));
    assert!(MMapEntry::new(0, MMAP_MAX_SIZE, MMapEntryType::Free).is_ok());
}

#[test]
fn is_next_needs_adjacency_and_same_type() {
    let a = MMapEntry::new(0x0, 0x1000, MMapEntryType::Free).unwrap();
    let b = MMapEntry::new(0x1000, 0x1000, MMapEntryType::Free).unwrap();
    let c = MMapEntry::new(0x2000, 0x1000, MMapEntryType::Used).unwrap();
    let d = MMapEntry::new(0x3000, 0x1000, MMapEntryType::Free).unwrap();
    assert!(a.is_next(&b));
    assert!(!b.is_next(&a));
    assert!(!b.is_next(&c)); // adjacent but another type
    assert!(!a.is_next(&d)); // same type but not adjacent
}

#[test]
fn merge_sums_sizes_and_keeps_start() {
    let a = MMapEntry::new(0x0, 0x1000, MMapEntryType::Free).unwrap();
    let b = MMapEntry::new(0x1000, 0x3000, MMapEntryType::Free).unwrap();
    let m = a.merge(&b).unwrap();
    assert_eq!(m.ptr, 0x0);
    assert_eq!(m.size(), 0x4000);
    assert_eq!(m.memory_type(), MMapEntryType::Free);

    let c = MMapEntry::new(0x5000, 0x1000, MMapEntryType::Free).unwrap();
    assert!(a.merge(&c).is_none());
}

#[test]
fn add_size_grows_an_entry() {
    let mut a = MMapEntry::new(0x0, 0x1000, MMapEntryType::Mmio).unwrap();
    let b = MMapEntry::new(0x1000, 0x2000, MMapEntryType::Mmio).unwrap();
    a.add_size(&b);
    assert_eq!(a.size(), 0x3000);
    assert_eq!(a.memory_type(), MMapEntryType::Mmio);
}
