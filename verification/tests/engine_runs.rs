use rom_shuffle::catalog::{Catalog, Room};
use rom_shuffle::engine::randomize;
use rom_shuffle::image::RomError;
use rom_shuffle::modes::{BadgeSections, ItemMode, RoomMode, StartMode};

const ROOM_TABLE: usize = 0x6B450;
const ROOM_COUNT: usize = 421;
const NAME_BASE: u32 = 0x80024C00;
const ROOM_BASE: u32 = 0x80240000;

fn put_u32(image: &mut Vec<u8>, off: usize, v: u32) {
    image[off..off + 4].copy_from_slice(&v.to_be_bytes());
}

fn get_u32(image: &[u8], off: usize) -> u32 {
    u32::from_be_bytes(image[off..off + 4].try_into().unwrap())
}

/// Per-record layout used by these scenarios: record `i` owns the block
/// at `0x100000 + i * 0x100`; its exit record's room-name pointer sits
/// at `+0xC` with the entrance field right after it at `+0x10`, the
/// destination name lands at `+0x40`, and its one item slot sits at
/// `+0x20`.
fn record_block(i: usize) -> usize {
    0x100000 + i * 0x100
}

/// Builds an image whose 421 room-table records all resolve to the name
/// "aaa" (stored at 0x100) and whose per-record pointers follow
/// `record_block`.
fn base_image(len: usize) -> Vec<u8> {
    let mut image = vec![0u8; len];
    image[0x20..0x2B].copy_from_slice(b"PAPER MARIO");
    image[0x100..0x104].copy_from_slice(b"aaa\0");
    for i in 0..ROOM_COUNT {
        let hoff = ROOM_TABLE + i * 0x20;
        put_u32(&mut image, hoff, NAME_BASE + 0x100);
        put_u32(&mut image, hoff + 8, record_block(i) as u32);
        // The exit record's room-name pointer field, read before the
        // entrance id overwrites it.
        put_u32(&mut image, record_block(i) + 0xC, ROOM_BASE + 0x40);
    }
    image
}

fn test_catalog() -> Catalog {
    let mut cat = Catalog::new();
    cat.add_room(Room {
        name: b"aaa".to_vec(),
        entrances: vec![5],
        items: vec![ROOM_BASE + 0x20],
        warp_ptrs: vec![ROOM_BASE],
    })
    .unwrap();
    cat.add_room(Room {
        name: b"bbb".to_vec(),
        entrances: vec![9, 11],
        items: vec![],
        warp_ptrs: vec![],
    })
    .unwrap();
    cat.add_room(Room {
        name: b"end_00".to_vec(),
        entrances: vec![1],
        items: vec![],
        warp_ptrs: vec![],
    })
    .unwrap();
    cat
}

#[test]
fn untouched_modes_change_only_the_code_patches() {
    let input = base_image(0x168078);
    let mut image = input.clone();
    let cat = test_catalog();
    randomize(&mut image, &cat, RoomMode::Untouched, ItemMode::Untouched, StartMode::Standard, 1)
        .unwrap();
    let patched = [
        (0x808A8usize, 0xA0820012u32),
        (0x808AC, 0xA082000A),
        (0x808B0, 0x2402FFFF),
        (0x808E4, 0xA0800000),
        (0x808E8, 0xA0A20014),
        (0x168074, 0x2406FF81),
    ];
    for &(off, word) in &patched {
        assert_eq!(get_u32(&image, off), word);
    }
    for i in 0..image.len() {
        let inside = patched.iter().any(|&(off, _)| off <= i && i < off + 4);
        if !inside {
            assert_eq!(image[i], input[i], "byte {i:#x} changed unexpectedly");
        }
    }
}

#[test]
fn total_random_rooms_rewrite_every_warp_to_a_candidate() {
    let mut image = base_image(0x168078);
    let cat = test_catalog();
    randomize(
        &mut image,
        &cat,
        RoomMode::TotalRandom,
        ItemMode::Untouched,
        StartMode::Standard,
        123_456_789,
    )
    .unwrap();
    for i in 0..ROOM_COUNT {
        let block = record_block(i);
        assert_eq!(get_u32(&image, block + 0xC), ROOM_BASE + 0x40, "record {i}: name pointer lost");
        let entrance = get_u32(&image, block + 0x10);
        let name: &[u8] = &image[block + 0x40..block + 0x47];
        match entrance {
            5 => assert_eq!(&name[..4], b"aaa\0", "record {i}"),
            9 | 11 => assert_eq!(&name[..4], b"bbb\0", "record {i}"),
            other => panic!("record {i}: entrance {other} is not a known entrance"),
        }
        assert_ne!(&name[..3], b"end", "record {i}: excluded room chosen");
    }
}

#[test]
fn equal_seeds_give_byte_identical_images() {
    let cat = test_catalog();
    let mut a = base_image(0x168078);
    let mut b = base_image(0x168078);
    randomize(&mut a, &cat, RoomMode::TotalRandom, ItemMode::Untouched, StartMode::Standard, 777)
        .unwrap();
    randomize(&mut b, &cat, RoomMode::TotalRandom, ItemMode::Untouched, StartMode::Standard, 777)
        .unwrap();
    assert_eq!(a, b);
}

#[test]
fn global_badge_shuffle_never_deals_more_than_the_deck() {
    // 60 room slots hold a badge, so the 82-element deck is spent as
    // 60 room deals, all 16 Rowf slots, and the first 6 Merlow slots.
    let mut image = base_image(0xA3CC00);
    for i in 0..60 {
        put_u32(&mut image, record_block(i) + 0x20, 0x00E0);
    }
    let cat = test_catalog();
    randomize(
        &mut image,
        &cat,
        RoomMode::Untouched,
        ItemMode::ShuffleBadgesGlobally,
        StartMode::Standard,
        42,
    )
    .unwrap();
    let pool = rom_shuffle::badges::get_badges_set();
    let mut written: usize = 0;
    for i in 0..ROOM_COUNT {
        let v = get_u32(&image, record_block(i) + 0x20);
        if i < 60 {
            assert!(pool.contains(&v), "room slot {i} got {v:#x}, not a badge");
            written += 1;
        } else {
            assert_eq!(v, 0, "room slot {i} written although it held no badge");
        }
    }
    for (k, &slot) in rom_shuffle::engine::get_rowf_iter().iter().enumerate() {
        let v = get_u32(&image, slot as usize);
        assert!(pool.contains(&v), "rowf slot {k} got {v:#x}");
        written += 1;
    }
    for (k, &slot) in rom_shuffle::engine::get_merlow_iter().iter().enumerate() {
        let v = get_u32(&image, slot as usize);
        if k < 6 {
            assert!(pool.contains(&v), "merlow slot {k} got {v:#x}");
            written += 1;
        } else {
            assert_eq!(v, 0, "merlow slot {k} written after the deck ran out");
        }
    }
    assert_eq!(written, 82);
}

#[test]
fn local_merlow_shuffle_touches_only_merlow() {
    let input = base_image(0xA3CC00);
    let mut image = input.clone();
    let cat = test_catalog();
    randomize(
        &mut image,
        &cat,
        RoomMode::Untouched,
        ItemMode::ShuffleBadgesLocally(BadgeSections::merlow()),
        StartMode::Standard,
        9,
    )
    .unwrap();
    let mut dealt: Vec<u32> =
        rom_shuffle::engine::get_merlow_iter().iter().map(|&s| get_u32(&image, s as usize)).collect();
    let mut pool = rom_shuffle::badges::get_merlow_shop_badges();
    dealt.sort();
    pool.sort();
    assert_eq!(dealt, pool);
    for &slot in rom_shuffle::engine::get_rowf_iter().iter() {
        assert_eq!(get_u32(&image, slot as usize), 0);
    }
    for i in 0..ROOM_COUNT {
        assert_eq!(get_u32(&image, record_block(i) + 0x20), 0);
    }
}

#[test]
fn per_slot_random_respects_the_content_guard() {
    let mut image = base_image(0xA3CC00);
    // Slot 0 holds a value inside (0, 0x200); slot 1 holds a sentinel
    // outside it; slot 2 holds zero.
    put_u32(&mut image, record_block(0) + 0x20, 0x0001);
    put_u32(&mut image, record_block(1) + 0x20, 0x0300);
    let cat = test_catalog();
    randomize(&mut image, &cat, RoomMode::Untouched, ItemMode::TotalRandom, StartMode::Standard, 5)
        .unwrap();
    let v0 = get_u32(&image, record_block(0) + 0x20);
    assert!(1 <= v0 && v0 < 0x16C);
    assert_eq!(get_u32(&image, record_block(1) + 0x20), 0x0300);
    assert_eq!(get_u32(&image, record_block(2) + 0x20), 0);
    // Both shops are filled with draws from the full badge pool.
    let pool = rom_shuffle::badges::get_badges_set();
    for &slot in rom_shuffle::engine::get_rowf_iter().iter() {
        assert!(pool.contains(&get_u32(&image, slot as usize)));
    }
    for &slot in rom_shuffle::engine::get_merlow_iter().iter() {
        assert!(pool.contains(&get_u32(&image, slot as usize)));
    }
}

#[test]
fn hammer_mode_rewires_the_two_fixed_exits() {
    let mut image = base_image(0x8B0000);
    // The two fixed exit records: their room-name pointer fields are
    // read before the entrance overwrites them.
    put_u32(&mut image, 0x8ACDE8, ROOM_BASE + 0x100);
    put_u32(&mut image, 0x8AEC1C, ROOM_BASE + 0x200);
    let cat = test_catalog();
    randomize(
        &mut image,
        &cat,
        RoomMode::StartWithHammer,
        ItemMode::Untouched,
        StartMode::Standard,
        31,
    )
    .unwrap();
    assert_eq!(get_u32(&image, 0x8ACDE8), ROOM_BASE + 0x100);
    assert_eq!(get_u32(&image, 0x8ACDEC), 2);
    assert_eq!(&image[0x8AC090..0x8AC097], b"kmr_04\0");
    assert_eq!(get_u32(&image, 0x8AEC1C), ROOM_BASE + 0x200);
    assert_eq!(get_u32(&image, 0x8AEC20), 2);
    assert_eq!(&image[0x8AC190..0x8AC197], b"kmr_04\0");
}

#[test]
fn bad_signature_is_fatal() {
    let mut image = vec![0u8; 0x168078];
    let cat = test_catalog();
    let r = randomize(&mut image, &cat, RoomMode::Untouched, ItemMode::Untouched, StartMode::Standard, 1);
    assert_eq!(r, Err(RomError::BadSignature));
}

#[test]
fn unknown_room_name_is_fatal_when_patching() {
    let mut image = base_image(0x168078);
    image[0x100..0x104].copy_from_slice(b"zzz\0");
    let cat = test_catalog();
    let r = randomize(
        &mut image,
        &cat,
        RoomMode::TotalRandom,
        ItemMode::Untouched,
        StartMode::Standard,
        1,
    );
    assert_eq!(r, Err(RomError::UnknownRoom));
}

#[test]
fn no_candidate_rooms_is_fatal() {
    // Every catalog room is on the exclusion list, so the destination
    // list is empty the moment a warp needs one.
    let mut image = base_image(0x168078);
    image[0x100..0x107].copy_from_slice(b"end_00\0");
    let mut cat = Catalog::new();
    cat.add_room(Room {
        name: b"end_00".to_vec(),
        entrances: vec![1],
        items: vec![],
        warp_ptrs: vec![ROOM_BASE],
    })
    .unwrap();
    let r = randomize(
        &mut image,
        &cat,
        RoomMode::TotalRandom,
        ItemMode::Untouched,
        StartMode::Standard,
        1,
    );
    assert_eq!(r, Err(RomError::NoWarpTargets));
}

#[test]
fn drawn_room_without_entrances_is_fatal() {
    let mut image = base_image(0x168078);
    let mut cat = Catalog::new();
    cat.add_room(Room {
        name: b"aaa".to_vec(),
        entrances: vec![],
        items: vec![],
        warp_ptrs: vec![ROOM_BASE],
    })
    .unwrap();
    let r = randomize(
        &mut image,
        &cat,
        RoomMode::TotalRandom,
        ItemMode::Untouched,
        StartMode::Standard,
        1,
    );
    assert_eq!(r, Err(RomError::NoEntrances));
}

#[test]
fn deal_used_into_map_and_rowf() {
    let mut image = base_image(0xA3CC00);
    put_u32(&mut image, record_block(0) + 0x20, 0x00E4);
    put_u32(&mut image, record_block(1) + 0x20, 0x0100);
    let cat = test_catalog();
    let sections = BadgeSections::map().union(BadgeSections::rowf());
    randomize(
        &mut image,
        &cat,
        RoomMode::Untouched,
        ItemMode::DealUsedInto(sections),
        StartMode::Standard,
        77,
    )
    .unwrap();
    let used = rom_shuffle::badges::get_used_badges();
    assert!(used.contains(&get_u32(&image, record_block(0) + 0x20)));
    assert!(used.contains(&get_u32(&image, record_block(1) + 0x20)));
    for &slot in rom_shuffle::engine::get_rowf_iter().iter() {
        assert!(used.contains(&get_u32(&image, slot as usize)));
    }
    for &slot in rom_shuffle::engine::get_merlow_iter().iter() {
        assert_eq!(get_u32(&image, slot as usize), 0);
    }
}

#[test]
fn deal_all_into_merlow_only() {
    let mut image = base_image(0xA3CC00);
    put_u32(&mut image, record_block(0) + 0x20, 0x00E4);
    let cat = test_catalog();
    randomize(
        &mut image,
        &cat,
        RoomMode::Untouched,
        ItemMode::DealAllInto(BadgeSections::merlow()),
        StartMode::Standard,
        3,
    )
    .unwrap();
    // The mask has no map bit, so room slots stay as they were.
    assert_eq!(get_u32(&image, record_block(0) + 0x20), 0x00E4);
    let pool = rom_shuffle::badges::get_badges_set();
    for &slot in rom_shuffle::engine::get_merlow_iter().iter() {
        assert!(pool.contains(&get_u32(&image, slot as usize)));
    }
    for &slot in rom_shuffle::engine::get_rowf_iter().iter() {
        assert_eq!(get_u32(&image, slot as usize), 0);
    }
}
