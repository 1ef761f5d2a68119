use bootboot_loader::utils::{bytes_eq, checksum, match_sig, read_u16, read_u32, read_u64};

#[test]
fn checksum_of_empty_region_is_zero() {
    let data: Vec<u8> = Vec::new();
    assert_eq!(checksum(&data), 0);
}

#[test]
fn checksum_is_low_byte_of_sum() {
    // 1 + 2 + 3 = 6
    assert_eq!(checksum(&[1, 2, 3]), 6);
    // 200 + 100 = 300 = 256 + 44
    assert_eq!(checksum(&[200, 100]), 44);
    // 255 + 1 = 256 = 0 mod 256
    assert_eq!(checksum(&[255, 1]), 0);
}

#[test]
fn balanced_region_passes_and_single_flip_fails() {
    // A buffer summing to 0 mod 256 passes the checksum
    let mut data = vec![0x10u8, 0x20, 0x30, 0x40];
    let fix = (256 - (data.iter().map(|&b| b as u32).sum::<u32>() % 256)) % 256;
    data.push(fix as u8);
    assert_eq!(checksum(&data), 0);

    // Flipping any single byte to any different value makes it fail
    for i in 0..data.len() {
        for delta in [1u8, 5, 130, 255] {
            let mut corrupt = data.clone();
            corrupt[i] = corrupt[i].wrapping_add(delta);
            assert_ne!(checksum(&corrupt), 0, "flip at {} by {}", i, delta);
        }
    }
}

#[test]
fn little_endian_readers_decode_exact_values() {
    let data = [0x78u8, 0x56, 0x34, 0x12, 0xaa, 0xbb, 0xcc, 0xdd, 0x01];
    assert_eq!(read_u16(&data, 0), 0x5678);
    assert_eq!(read_u32(&data, 0), 0x12345678);
    assert_eq!(read_u64(&data, 0), 0xddccbbaa_12345678);
    assert_eq!(read_u16(&data, 3), 0xaa12);
}

#[test]
fn byte_equality_and_signature_matching() {
    assert!(bytes_eq(b"abc", b"abc"));
    assert!(!bytes_eq(b"abc", b"abd"));
    assert!(!bytes_eq(b"abc", b"ab"));
    assert!(match_sig(b"xxRSDTyy", 2, b"RSDT"));
    assert!(!match_sig(b"xxRSDTyy", 1, b"RSDT"));
}
