use rom_shuffle::badges::{
    get_badges_set, get_map_badges, get_merlow_shop_badges, get_rowf_shop_badges, get_used_badges,
};
use rom_shuffle::engine::{get_merlow_iter, get_rowf_iter};
use rom_shuffle::image::{
    apply_code_patches, check_magic, read_u32_at, rewrite_exit, write_u32_at, RomError,
};

fn put_u32(image: &mut Vec<u8>, off: usize, v: u32) {
    image[off..off + 4].copy_from_slice(&v.to_be_bytes());
}

fn get_u32(image: &[u8], off: usize) -> u32 {
    u32::from_be_bytes(image[off..off + 4].try_into().unwrap())
}

#[test]
fn u32_round_trip() {
    let mut image = vec![0u8; 64];
    write_u32_at(&mut image, 12, 0xA0B1_C2D3);
    assert_eq!(&image[12..16], &[0xA0, 0xB1, 0xC2, 0xD3]);
    assert_eq!(read_u32_at(&image, 12), 0xA0B1_C2D3);
    assert!(image[..12].iter().all(|&b| b == 0));
    assert!(image[16..].iter().all(|&b| b == 0));
}

#[test]
fn magic_check() {
    let mut image = vec![0u8; 0x40];
    assert!(!check_magic(&image));
    image[0x20..0x2B].copy_from_slice(b"PAPER MARIO");
    assert!(check_magic(&image));
    image[0x25] = b'_';
    assert!(!check_magic(&image));
    assert!(!check_magic(&vec![0u8; 0x10]));
}

#[test]
fn exit_rewrite_round_trip() {
    // The room-name pointer sits at room_ptr + warp_ptr + 0xC -
    // 0x80240000 = 0x200C and aims the name at 0x3000; the entrance id
    // lands in the field right after it.
    let mut image = vec![0u8; 0x4000];
    put_u32(&mut image, 0x200C, 0x80240000 + 0x2000);
    let room_ptr = 0x1000;
    let warp_ptr = 0x80240000 + 0x1000;
    let r = rewrite_exit(&mut image, room_ptr, warp_ptr, b"kmr_04", 2);
    assert_eq!(r, Ok(()));
    assert_eq!(get_u32(&image, 0x200C), 0x80240000 + 0x2000);
    assert_eq!(get_u32(&image, 0x2010), 2);
    assert_eq!(&image[0x3000..0x3007], b"kmr_04\0");
}

#[test]
fn exit_rewrite_out_of_bounds() {
    let mut image = vec![0u8; 0x100];
    // The entrance field would sit far beyond the image.
    let r = rewrite_exit(&mut image, 0x1000, 0x80240000, b"aaa", 1);
    assert_eq!(r, Err(RomError::OutOfBounds));
    // A warp pointer below the base is rejected as well.
    let r = rewrite_exit(&mut image, 0, 0, b"aaa", 1);
    assert_eq!(r, Err(RomError::OutOfBounds));
}

#[test]
fn code_patches_exact_words() {
    let mut image = vec![0u8; 0x170000];
    let reference = image.clone();
    apply_code_patches(&mut image, false).unwrap();
    let patched = [
        (0x808A8, 0xA0820012u32),
        (0x808AC, 0xA082000A),
        (0x808B0, 0x2402FFFF),
        (0x808E4, 0xA0800000),
        (0x808E8, 0xA0A20014),
        (0x168074, 0x2406FF81),
    ];
    for &(off, word) in &patched {
        assert_eq!(get_u32(&image, off), word);
    }
    for i in 0..image.len() {
        let inside = patched.iter().any(|&(off, _)| off <= i && i < off + 4);
        if !inside {
            assert_eq!(image[i], reference[i], "byte {i:#x} changed unexpectedly");
        }
    }
}

#[test]
fn code_patches_quick_start_word() {
    let mut image = vec![0u8; 0x170000];
    apply_code_patches(&mut image, true).unwrap();
    assert_eq!(get_u32(&image, 0x168080), 0x24020000);
    let mut standard = vec![0u8; 0x170000];
    apply_code_patches(&mut standard, false).unwrap();
    assert_eq!(get_u32(&standard, 0x168080), 0);
}

#[test]
fn code_patches_short_image_is_refused() {
    let mut image = vec![0u8; 0x1000];
    assert_eq!(apply_code_patches(&mut image, false), Err(RomError::OutOfBounds));
}

#[test]
fn badge_pools_have_expected_shape() {
    let all = get_badges_set();
    assert_eq!(all.len(), 99);
    assert_eq!(all[0], 0x00E0);
    assert_eq!(all[98], 0x0153);
    let used = get_used_badges();
    let map = get_map_badges();
    assert_eq!(used.len(), 51);
    assert_eq!(used, map);
    assert_eq!(used[0], 0x00ED);
    assert_eq!(used[1], 0x00ED);
    let rowf = get_rowf_shop_badges();
    assert_eq!(rowf.len(), 16);
    assert_eq!(rowf[0], 0x011F);
    let merlow = get_merlow_shop_badges();
    assert_eq!(merlow.len(), 15);
    assert_eq!(merlow[14], 0x00E2);
}

#[test]
fn shop_slot_tables() {
    let rowf = get_rowf_iter();
    assert_eq!(rowf.len(), 16);
    for (k, &slot) in rowf.iter().enumerate() {
        assert_eq!(slot, 0x808808 + 12 * k as u32);
    }
    assert!(*rowf.last().unwrap() <= 0x8088C7);
    let merlow = get_merlow_iter();
    assert_eq!(merlow.len(), 15);
    for (k, &slot) in merlow.iter().enumerate() {
        assert_eq!(slot, 0xA3CACC + 12 * k as u32);
    }
    assert!(*merlow.last().unwrap() <= 0xA3CB7F);
}
