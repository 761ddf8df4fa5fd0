//! The fixed badge pools.
//!
//! Item distribution deals exclusively from these pools of item
//! identifiers.  The full pool is kept in a fixed order so that deck
//! building is reproducible: the same seed must always yield the same
//! bytes.

use vstd::prelude::*;

verus! {

/// Every badge id the target binary knows, in a fixed order.
pub open spec fn badge_pool() -> Seq<u32> {
    seq![
        0x00E0, 0x00E1, 0x00E2, 0x00E3, 0x00E4, 0x00E5, 0x00E6, 0x00E7, 0x00E8, 0x00E9, 0x00EB,
        0x00EC, 0x00ED, 0x00EE, 0x00EF, 0x00F1, 0x00F2, 0x00F3, 0x00F4, 0x00F5, 0x00F7, 0x00F8,
        0x00F9, 0x00FA, 0x00FB, 0x00FC, 0x00FD, 0x00FE, 0x00FF, 0x0100, 0x0102, 0x0103, 0x0104,
        0x0105, 0x0106, 0x0107, 0x0108, 0x0109, 0x010A, 0x010B, 0x010C, 0x010D, 0x0111, 0x0112,
        0x0113, 0x0114, 0x0116, 0x0117, 0x011A, 0x011B, 0x011C, 0x011D, 0x011E, 0x011F, 0x0120,
        0x0121, 0x0123, 0x0124, 0x0126, 0x0127, 0x0128, 0x0129, 0x012B, 0x012E, 0x012F, 0x0130,
        0x0132, 0x0133, 0x0134, 0x0135, 0x0136, 0x0137, 0x0138, 0x0139, 0x013A, 0x013B, 0x013C,
        0x013D, 0x013E, 0x013F, 0x0140, 0x0141, 0x0142, 0x0143, 0x0144, 0x0145, 0x0146, 0x0147,
        0x0148, 0x0149, 0x014A, 0x014B, 0x014C, 0x014D, 0x014E, 0x014F, 0x0151, 0x0152, 0x0153,
    ]
}

/// The badges actually placed in the world, duplicates included.
pub open spec fn used_badge_pool() -> Seq<u32> {
    seq![
        0x00ED, 0x00ED, 0x012F, 0x0124, 0x0120, 0x0114, 0x0121, 0x0112, 0x0107, 0x00E8, 0x013A,
        0x0103, 0x011C, 0x0148, 0x00E5, 0x00F7, 0x0104, 0x0135, 0x0109, 0x00E4, 0x0134, 0x011D,
        0x0146, 0x0146, 0x0133, 0x0133, 0x010D, 0x0129, 0x0111, 0x0117, 0x0136, 0x00E7, 0x00F8,
        0x012E, 0x00F9, 0x00EC, 0x00EF, 0x0141, 0x0126, 0x010C, 0x0138, 0x0138, 0x0147, 0x0123,
        0x0116, 0x0113, 0x0106, 0x00FB, 0x00FA, 0x0132, 0x013C,
    ]
}

/// The badges found out on the map rather than in either shop.
pub open spec fn map_badge_pool() -> Seq<u32> {
    seq![
        0x00ED, 0x00ED, 0x012F, 0x0124, 0x0120, 0x0114, 0x0121, 0x0112, 0x0107, 0x00E8, 0x013A,
        0x0103, 0x011C, 0x0148, 0x00E5, 0x00F7, 0x0104, 0x0135, 0x0109, 0x00E4, 0x0134, 0x011D,
        0x0146, 0x0146, 0x0133, 0x0133, 0x010D, 0x0129, 0x0111, 0x0117, 0x0136, 0x00E7, 0x00F8,
        0x012E, 0x00F9, 0x00EC, 0x00EF, 0x0141, 0x0126, 0x010C, 0x0138, 0x0138, 0x0147, 0x0123,
        0x0116, 0x0113, 0x0106, 0x00FB, 0x00FA, 0x0132, 0x013C,
    ]
}

/// The badges stocked in Rowf's shop.
pub open spec fn rowf_badge_pool() -> Seq<u32> {
    seq![
        0x011F, 0x00E6, 0x00E1, 0x00EE, 0x00E3, 0x00EB, 0x00E9, 0x010A, 0x00E0, 0x0143, 0x00F4,
        0x014A, 0x014D, 0x010B, 0x0130, 0x0108,
    ]
}

/// The badges stocked in Merlow's shop.
pub open spec fn merlow_badge_pool() -> Seq<u32> {
    seq![
        0x00F3, 0x00FC, 0x00FE, 0x00F1, 0x00F2, 0x00FF, 0x0140, 0x0144, 0x0100, 0x011A, 0x011B,
        0x00F5, 0x00FD, 0x0105, 0x00E2,
    ]
}

/// The full badge pool as a vector, in its fixed order.  Serves both as
/// the membership set that guards badge slots and as the source of
/// deal-from-all decks.
pub fn get_badges_set() -> (r: Vec<u32>)
    ensures
        r@ == badge_pool(),
{
    vec![
        0x00E0, 0x00E1, 0x00E2, 0x00E3, 0x00E4, 0x00E5, 0x00E6, 0x00E7, 0x00E8, 0x00E9, 0x00EB,
        0x00EC, 0x00ED, 0x00EE, 0x00EF, 0x00F1, 0x00F2, 0x00F3, 0x00F4, 0x00F5, 0x00F7, 0x00F8,
        0x00F9, 0x00FA, 0x00FB, 0x00FC, 0x00FD, 0x00FE, 0x00FF, 0x0100, 0x0102, 0x0103, 0x0104,
        0x0105, 0x0106, 0x0107, 0x0108, 0x0109, 0x010A, 0x010B, 0x010C, 0x010D, 0x0111, 0x0112,
        0x0113, 0x0114, 0x0116, 0x0117, 0x011A, 0x011B, 0x011C, 0x011D, 0x011E, 0x011F, 0x0120,
        0x0121, 0x0123, 0x0124, 0x0126, 0x0127, 0x0128, 0x0129, 0x012B, 0x012E, 0x012F, 0x0130,
        0x0132, 0x0133, 0x0134, 0x0135, 0x0136, 0x0137, 0x0138, 0x0139, 0x013A, 0x013B, 0x013C,
        0x013D, 0x013E, 0x013F, 0x0140, 0x0141, 0x0142, 0x0143, 0x0144, 0x0145, 0x0146, 0x0147,
        0x0148, 0x0149, 0x014A, 0x014B, 0x014C, 0x014D, 0x014E, 0x014F, 0x0151, 0x0152, 0x0153,
    ]
}

/// The used-badge list, duplicates preserved.
pub fn get_used_badges() -> (r: Vec<u32>)
    ensures
        r@ == used_badge_pool(),
{
    vec![
        0x00ED, 0x00ED, 0x012F, 0x0124, 0x0120, 0x0114, 0x0121, 0x0112, 0x0107, 0x00E8, 0x013A,
        0x0103, 0x011C, 0x0148, 0x00E5, 0x00F7, 0x0104, 0x0135, 0x0109, 0x00E4, 0x0134, 0x011D,
        0x0146, 0x0146, 0x0133, 0x0133, 0x010D, 0x0129, 0x0111, 0x0117, 0x0136, 0x00E7, 0x00F8,
        0x012E, 0x00F9, 0x00EC, 0x00EF, 0x0141, 0x0126, 0x010C, 0x0138, 0x0138, 0x0147, 0x0123,
        0x0116, 0x0113, 0x0106, 0x00FB, 0x00FA, 0x0132, 0x013C,
    ]
}

/// The map badge list.  It coincides with the used-badge list today, but
/// the two pools are maintained separately.
pub fn get_map_badges() -> (r: Vec<u32>)
    ensures
        r@ == map_badge_pool(),
{
    vec![
        0x00ED, 0x00ED, 0x012F, 0x0124, 0x0120, 0x0114, 0x0121, 0x0112, 0x0107, 0x00E8, 0x013A,
        0x0103, 0x011C, 0x0148, 0x00E5, 0x00F7, 0x0104, 0x0135, 0x0109, 0x00E4, 0x0134, 0x011D,
        0x0146, 0x0146, 0x0133, 0x0133, 0x010D, 0x0129, 0x0111, 0x0117, 0x0136, 0x00E7, 0x00F8,
        0x012E, 0x00F9, 0x00EC, 0x00EF, 0x0141, 0x0126, 0x010C, 0x0138, 0x0138, 0x0147, 0x0123,
        0x0116, 0x0113, 0x0106, 0x00FB, 0x00FA, 0x0132, 0x013C,
    ]
}

/// Rowf's shop stock.  Does not include the badge Rowf hands over in
/// conversation.
pub fn get_rowf_shop_badges() -> (r: Vec<u32>)
    ensures
        r@ == rowf_badge_pool(),
{
    vec![
        0x011F, 0x00E6, 0x00E1, 0x00EE, 0x00E3, 0x00EB, 0x00E9, 0x010A, 0x00E0, 0x0143, 0x00F4,
        0x014A, 0x014D, 0x010B, 0x0130, 0x0108,
    ]
}

/// Merlow's shop stock.
pub fn get_merlow_shop_badges() -> (r: Vec<u32>)
    ensures
        r@ == merlow_badge_pool(),
{
    vec![
        0x00F3, 0x00FC, 0x00FE, 0x00F1, 0x00F2, 0x00FF, 0x0140, 0x0144, 0x0100, 0x011A, 0x011B,
        0x00F5, 0x00FD, 0x0105, 0x00E2,
    ]
}

/// Whether `x` is a known badge id.
pub fn is_badge(x: u32, pool: &Vec<u32>) -> (r: bool)
    requires
        pool@ == badge_pool(),
    ensures
        r == badge_pool().contains(x),
{
    let mut k: usize = 0;
    let n = pool.len();
    while k < n
        invariant
            n == pool@.len(),
            pool@ == badge_pool(),
            0 <= k <= n,
            forall|t: int| 0 <= t < k ==> pool@[t] != x,
        decreases n - k,
    {
        if pool[k] == x {
            assert(pool@[k as int] == x);
            return true;
        }
        k += 1;
    }
    assert(!badge_pool().contains(x));
    false
}

} // verus!
