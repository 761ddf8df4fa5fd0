use rom_shuffle::catalog::{Catalog, CatalogError, Room};

fn room(name: &[u8]) -> Room {
    Room { name: name.to_vec(), entrances: vec![1], items: vec![], warp_ptrs: vec![] }
}

#[test]
fn accepts_short_names() {
    let mut cat = Catalog::new();
    cat.add_room(room(b"kmr_00")).unwrap();
    cat.add_room(room(b"a")).unwrap();
    cat.add_room(room(b"sevench")).unwrap();
    assert_eq!(cat.rooms.len(), 3);
}

#[test]
fn rejects_long_names() {
    let mut cat = Catalog::new();
    assert_eq!(cat.add_room(room(b"eightchr")), Err(CatalogError::BadName));
    assert_eq!(cat.rooms.len(), 0);
}

#[test]
fn rejects_interior_nulls() {
    let mut cat = Catalog::new();
    assert_eq!(cat.add_room(room(b"ab\0c")), Err(CatalogError::BadName));
}

#[test]
fn finds_rooms_by_packed_name() {
    let mut cat = Catalog::new();
    cat.add_room(room(b"kmr_00")).unwrap();
    cat.add_room(room(b"kmr_04")).unwrap();
    let key = rom_shuffle::catalog::key_of_bytes(b"kmr_04");
    assert_eq!(cat.find_room(key), Some(1));
    let missing = rom_shuffle::catalog::key_of_bytes(b"mac_00");
    assert_eq!(cat.find_room(missing), None);
}

#[test]
fn packed_names_order_like_byte_strings() {
    let mut names: Vec<&[u8]> = vec![b"tst_11", b"aaa", b"ab", b"abc", b"kmr_00", b"b"];
    let mut keys: Vec<(u64, &[u8])> =
        names.iter().map(|n| (rom_shuffle::catalog::key_of_bytes(n), *n)).collect();
    names.sort();
    keys.sort();
    let by_key: Vec<&[u8]> = keys.iter().map(|(_, n)| *n).collect();
    assert_eq!(by_key, names);
}

#[test]
fn warp_targets_skip_excluded_rooms_and_sort() {
    let mut cat = Catalog::new();
    for name in [
        b"mac_05".as_slice(),
        b"bbb".as_slice(),
        b"end_00".as_slice(),
        b"aaa".as_slice(),
        b"tst_20".as_slice(),
        b"hos_04".as_slice(),
        b"gv_01".as_slice(),
    ] {
        cat.add_room(room(name)).unwrap();
    }
    let keys = rom_shuffle::catalog::build_warp_target_keys(&cat);
    let expected = vec![
        rom_shuffle::catalog::key_of_bytes(b"aaa"),
        rom_shuffle::catalog::key_of_bytes(b"bbb"),
    ];
    assert_eq!(keys, expected);
}

#[test]
fn all_twelve_exclusions_are_dropped() {
    let mut cat = Catalog::new();
    for name in [
        b"end_00".as_slice(),
        b"end_01".as_slice(),
        b"gv_01".as_slice(),
        b"mgm_03".as_slice(),
        b"tst_11".as_slice(),
        b"tst_12".as_slice(),
        b"tst_13".as_slice(),
        b"tst_20".as_slice(),
        b"hos_04".as_slice(),
        b"hos_05".as_slice(),
        b"hos_10".as_slice(),
        b"mac_05".as_slice(),
    ] {
        cat.add_room(room(name)).unwrap();
    }
    assert!(rom_shuffle::catalog::build_warp_target_keys(&cat).is_empty());
}
