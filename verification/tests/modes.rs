use rom_shuffle::modes::{
    combine_item_mode, combine_room_mode, BadgeSections, ConfigError, ItemMode, RoomMode,
};

#[test]
fn section_mask_validation() {
    assert_eq!(BadgeSections::try_from_bits(0), Err(ConfigError::InvalidSections));
    assert_eq!(BadgeSections::try_from_bits(8), Err(ConfigError::InvalidSections));
    assert_eq!(BadgeSections::try_from_bits(255), Err(ConfigError::InvalidSections));
    for bits in 1..=7u8 {
        assert_eq!(BadgeSections::try_from_bits(bits).unwrap().bits, bits);
    }
}

#[test]
fn section_mask_contains() {
    let rowf_map = BadgeSections::try_from_bits(0b011).unwrap();
    assert!(rowf_map.contains(BadgeSections::map()));
    assert!(rowf_map.contains(BadgeSections::rowf()));
    assert!(!rowf_map.contains(BadgeSections::merlow()));
    assert!(rowf_map.contains(rowf_map));
}

#[test]
fn section_mask_union() {
    let u = BadgeSections::map().union(BadgeSections::merlow());
    assert_eq!(u.bits, 0b101);
    assert_eq!(u.union(u).bits, 0b101);
}

#[test]
fn item_mode_lands_on_unset() {
    let m = combine_item_mode(ItemMode::Untouched, ItemMode::TotalRandom).unwrap();
    assert_eq!(m, ItemMode::TotalRandom);
    let m = combine_item_mode(ItemMode::Untouched, ItemMode::ShuffleBadgesGlobally).unwrap();
    assert_eq!(m, ItemMode::ShuffleBadgesGlobally);
}

#[test]
fn item_mode_masks_accumulate_within_family() {
    let cur = ItemMode::ShuffleBadgesLocally(BadgeSections::map());
    let new = ItemMode::ShuffleBadgesLocally(BadgeSections::rowf());
    let m = combine_item_mode(cur, new).unwrap();
    assert_eq!(m, ItemMode::ShuffleBadgesLocally(BadgeSections::try_from_bits(0b011).unwrap()));

    let cur = ItemMode::DealUsedInto(BadgeSections::rowf());
    let new = ItemMode::DealUsedInto(BadgeSections::merlow());
    let m = combine_item_mode(cur, new).unwrap();
    assert_eq!(m, ItemMode::DealUsedInto(BadgeSections::try_from_bits(0b110).unwrap()));

    let cur = ItemMode::DealAllInto(BadgeSections::map());
    let new = ItemMode::DealAllInto(BadgeSections::merlow());
    let m = combine_item_mode(cur, new).unwrap();
    assert_eq!(m, ItemMode::DealAllInto(BadgeSections::try_from_bits(0b101).unwrap()));
}

#[test]
fn item_mode_repeat_of_same_mask_conflicts() {
    let cur = ItemMode::ShuffleBadgesLocally(BadgeSections::map());
    let new = ItemMode::ShuffleBadgesLocally(BadgeSections::map());
    assert_eq!(combine_item_mode(cur, new), Err(ConfigError::ItemModeConflict));
}

#[test]
fn item_mode_cross_family_conflicts() {
    let cases = [
        (ItemMode::TotalRandom, ItemMode::ShuffleBadgesGlobally),
        (ItemMode::ShuffleBadgesGlobally, ItemMode::TotalRandom),
        (
            ItemMode::ShuffleBadgesLocally(BadgeSections::map()),
            ItemMode::DealUsedInto(BadgeSections::rowf()),
        ),
        (
            ItemMode::DealUsedInto(BadgeSections::map()),
            ItemMode::DealAllInto(BadgeSections::map()),
        ),
        (ItemMode::TotalRandom, ItemMode::TotalRandom),
    ];
    for (cur, new) in cases {
        assert_eq!(combine_item_mode(cur, new), Err(ConfigError::ItemModeConflict));
    }
}

#[test]
fn room_mode_single_selection() {
    let m = combine_room_mode(RoomMode::StartWithHammer, RoomMode::TotalRandom).unwrap();
    assert_eq!(m, RoomMode::TotalRandom);
    let m = combine_room_mode(RoomMode::StartWithHammer, RoomMode::Untouched).unwrap();
    assert_eq!(m, RoomMode::Untouched);
    assert_eq!(
        combine_room_mode(RoomMode::TotalRandom, RoomMode::Untouched),
        Err(ConfigError::RoomModeConflict)
    );
    assert_eq!(
        combine_room_mode(RoomMode::Untouched, RoomMode::TotalRandom),
        Err(ConfigError::RoomModeConflict)
    );
}
