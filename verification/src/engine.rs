//! The randomization engine: one pass over the room table, then the
//! shop ranges.
//!
//! Every pass is specified by a recursive function over the image bytes,
//! the generator state and the current deck, and each executable pass is
//! proved to compute exactly that function.  A whole run is therefore a
//! pure function of the input image, the catalog, the modes and the
//! seed, which is what makes equal seeds reproduce equal images.

use vstd::prelude::*;

use crate::badges::{
    badge_pool, get_badges_set, get_map_badges, get_merlow_shop_badges, get_rowf_shop_badges,
    get_used_badges, is_badge, map_badge_pool, merlow_badge_pool, rowf_badge_pool,
    used_badge_pool,
};
use crate::catalog::{
    catalog_wf, key_of, room_wf, spec_find_room, warp_target_keys, build_warp_target_keys,
    Catalog, RoomV,
};
use crate::image::{
    apply_code_patches, check_magic, load_u32, magic_ok, read_u32_at, rewrite_exit,
    spec_code_patches, spec_rewrite_exit, store_u32, write_u32_at, RomError, ROOM_BASE_PTR,
};
use crate::modes::{BadgeSections, ItemMode, RoomMode, StartMode};
use crate::rng::{
    seed_state, xs_choice, xs_from_seed, xs_shuffle, xs_shuffle_spec, xs_step, xs_u32, Xs,
};

verus! {

/// Offset of the first room-table record.
pub const ROOM_TABLE_OFF: usize = 0x6B450;

/// Number of records in the room table.
pub const ROOM_COUNT: usize = 421;

/// Size of one room-table record.
pub const ROOM_RECORD_SIZE: usize = 0x20;

/// The item-distribution state selected before the room pass.
#[derive(Clone, Copy, PartialEq, Eq, Structural, Debug)]
pub enum ItemKind {
    /// No item slot is touched.
    Inactive,
    /// Every eligible slot gets a freshly drawn id.
    PerSlotRandom,
    /// Badge slots are overwritten from a shuffled deck.
    DeckBacked,
}

/// The item-distribution state: the mode kind plus the deck it deals
/// from, if any.
pub struct ItemState {
    pub kind: ItemKind,
    pub deck: Vec<u32>,
}

/// The name "kmr_04", the room holding the hammer.
pub open spec fn kmr04_name() -> Seq<u8> {
    seq![0x6Bu8, 0x6Du8, 0x72u8, 0x5Fu8, 0x30u8, 0x34u8]
}

/// Rowf's shop slots: 12-byte strides over the first shop region.
pub open spec fn rowf_slots() -> Seq<u32> {
    seq![
        0x808808, 0x808814, 0x808820, 0x80882C, 0x808838, 0x808844, 0x808850, 0x80885C, 0x808868,
        0x808874, 0x808880, 0x80888C, 0x808898, 0x8088A4, 0x8088B0, 0x8088BC,
    ]
}

/// Merlow's shop slots: 12-byte strides over the second shop region.
pub open spec fn merlow_slots() -> Seq<u32> {
    seq![
        0xA3CACC, 0xA3CAD8, 0xA3CAE4, 0xA3CAF0, 0xA3CAFC, 0xA3CB08, 0xA3CB14, 0xA3CB20, 0xA3CB2C,
        0xA3CB38, 0xA3CB44, 0xA3CB50, 0xA3CB5C, 0xA3CB68, 0xA3CB74,
    ]
}

/// The locations of the 12-byte slots of Rowf's shop data.
pub fn get_rowf_iter() -> (r: Vec<u32>)
    ensures
        r@ == rowf_slots(),
{
    vec![
        0x808808, 0x808814, 0x808820, 0x80882C, 0x808838, 0x808844, 0x808850, 0x80885C, 0x808868,
        0x808874, 0x808880, 0x80888C, 0x808898, 0x8088A4, 0x8088B0, 0x8088BC,
    ]
}

/// The locations of the 12-byte slots of Merlow's shop data.
pub fn get_merlow_iter() -> (r: Vec<u32>)
    ensures
        r@ == merlow_slots(),
{
    vec![
        0xA3CACC, 0xA3CAD8, 0xA3CAE4, 0xA3CAF0, 0xA3CAFC, 0xA3CB08, 0xA3CB14, 0xA3CB20, 0xA3CB2C,
        0xA3CB38, 0xA3CB44, 0xA3CB50, 0xA3CB5C, 0xA3CB68, 0xA3CB74,
    ]
}

/// The index, relative to `off`, of the first null in the eight name
/// bytes at `off`, searched from `k` on.  A field without any null
/// yields zero, i.e. an empty name, which then fails the catalog
/// lookup.
pub open spec fn first_nul_from(img: Seq<u8>, off: int, k: int) -> int
    decreases 8 - k,
{
    if k < 0 || k >= 8 {
        0
    } else if img[off + k] == 0 {
        k
    } else {
        first_nul_from(img, off, k + 1)
    }
}

/// The room name stored at `off`: the bytes before the first null of
/// the eight-byte field.
pub open spec fn room_name_at(img: Seq<u8>, off: int) -> Seq<u8> {
    img.subrange(off, off + first_nul_from(img, off, 0))
}

/// Reads the packed key of the room name stored at `off`.
pub fn read_room_key(image: &Vec<u8>, off: usize) -> (r: u64)
    requires
        off + 8 <= image@.len(),
    ensures
        r == key_of(room_name_at(image@, off as int)),
{
    let ilen = image.len();
    let mut k: usize = 0;
    while k < 8 && image[off + k] != 0
        invariant
            off + 8 <= ilen,
            ilen == image@.len(),
            0 <= k <= 8,
            forall|t: int| 0 <= t < k ==> #[trigger] image@[off + t] != 0,
            first_nul_from(image@, off as int, 0) == first_nul_from(image@, off as int, k as int),
        decreases 8 - k,
    {
        k += 1;
    }
    let nul: usize = if k == 8 {
        0
    } else {
        k
    };
    proof {
        assert(first_nul_from(image@, off as int, 0) == nul);
    }
    let mut name: Vec<u8> = Vec::new();
    let mut t: usize = 0;
    proof {
        assert(name@ =~= image@.subrange(off as int, off as int));
    }
    while t < nul
        invariant
            off + 8 <= ilen,
            ilen == image@.len(),
            nul <= 7,
            0 <= t <= nul,
            name@ == image@.subrange(off as int, off + t),
        decreases nul - t,
    {
        let b = image[off + t];
        name.push(b);
        proof {
            assert(name@ =~= image@.subrange(off as int, off + t + 1));
        }
        t += 1;
    }
    crate::catalog::key_of_bytes(name.as_slice())
}

/// One room's warp records, from record `k` on: each record draws a
/// destination room from `keys`, then an entrance of that room, and has
/// its exit rewritten accordingly.  Every record draws independently; a
/// repeated warp pointer is re-drawn, not memoized.
pub open spec fn warps_pass(
    img: Seq<u8>,
    xs: Xs,
    room_ptr: u32,
    wps: Seq<u32>,
    keys: Seq<u64>,
    cat: Seq<RoomV>,
    k: int,
) -> Result<(Seq<u8>, Xs), RomError>
    decreases wps.len() - k,
{
    if k < 0 || k >= wps.len() {
        Ok((img, xs))
    } else if keys.len() == 0 {
        Err(RomError::NoWarpTargets)
    } else {
        let s1 = xs_step(xs);
        let key = keys[(s1.x0 as int) % (keys.len() as int)];
        let ri = spec_find_room(cat, key, 0);
        if ri < 0 {
            Err(RomError::UnknownRoom)
        } else {
            let room = cat[ri];
            if room.entrances.len() == 0 {
                Err(RomError::NoEntrances)
            } else {
                let s2 = xs_step(s1);
                let ent = room.entrances[(s2.x0 as int) % (room.entrances.len() as int)];
                match spec_rewrite_exit(img, room_ptr, wps[k], room.name, ent) {
                    Ok(img2) => warps_pass(img2, s2, room_ptr, wps, keys, cat, k + 1),
                    Err(e) => Err(e),
                }
            }
        }
    }
}

/// Rewrites every warp record of one room.
pub fn patch_room_warps(
    image: &mut Vec<u8>,
    xs: &mut Xs,
    room_ptr: u32,
    wps: &Vec<u32>,
    keys: &Vec<u64>,
    cat: &Catalog,
) -> (r: Result<(), RomError>)
    requires
        catalog_wf(cat@),
        keys@.len() < 0xFFFF_FFFF,
    ensures
        match (r, warps_pass(old(image)@, *old(xs), room_ptr, wps@, keys@, cat@, 0)) {
            (Ok(()), Ok((im, x))) => final(image)@ == im && *final(xs) == x,
            (Err(e1), Err(e2)) => e1 == e2,
            _ => false,
        },
        final(image)@.len() == old(image)@.len(),
{
    let ghost img0 = image@;
    let ghost xs0 = *xs;
    let n = wps.len();
    let mut k: usize = 0;
    while k < n
        invariant
            catalog_wf(cat@),
            keys@.len() < 0xFFFF_FFFF,
            n == wps@.len(),
            0 <= k <= n,
            img0 == old(image)@,
            xs0 == *old(xs),
            image@.len() == img0.len(),
            warps_pass(img0, xs0, room_ptr, wps@, keys@, cat@, 0) == warps_pass(
                image@,
                *xs,
                room_ptr,
                wps@,
                keys@,
                cat@,
                k as int,
            ),
        decreases n - k,
    {
        let ghost img_k = image@;
        let ghost xs_k = *xs;
        if keys.len() == 0 {
            return Err(RomError::NoWarpTargets);
        }
        let idx = xs_u32(xs, 0, keys.len() as u32) as usize;
        let key = keys[idx];
        proof {
            assert(xs_step(xs_k).x0 as int % (keys@.len() as int) == idx);
        }
        let ri = match cat.find_room(key) {
            Some(r) => r,
            None => {
                proof {
                    assert(warps_pass(img_k, xs_k, room_ptr, wps@, keys@, cat@, k as int) == Err::<
                        (Seq<u8>, Xs),
                        RomError,
                    >(RomError::UnknownRoom));
                }
                return Err(RomError::UnknownRoom);
            },
        };
        let room = &cat.rooms[ri];
        proof {
            assert(cat@[ri as int] == cat.rooms@[ri as int]@);
            assert(room_wf(cat@[ri as int]));
        }
        if room.entrances.len() == 0 {
            proof {
                assert(warps_pass(img_k, xs_k, room_ptr, wps@, keys@, cat@, k as int) == Err::<
                    (Seq<u8>, Xs),
                    RomError,
                >(RomError::NoEntrances));
            }
            return Err(RomError::NoEntrances);
        }
        let ent = xs_choice(xs, room.entrances.as_slice());
        let wp = wps[k];
        match rewrite_exit(image, room_ptr, wp, room.name.as_slice(), ent) {
            Ok(()) => {},
            Err(e) => {
                proof {
                    assert(warps_pass(img_k, xs_k, room_ptr, wps@, keys@, cat@, k as int) == Err::<
                        (Seq<u8>, Xs),
                        RomError,
                    >(e));
                }
                return Err(e);
            },
        }
        proof {
            assert(warps_pass(img_k, xs_k, room_ptr, wps@, keys@, cat@, k as int) == warps_pass(
                image@,
                *xs,
                room_ptr,
                wps@,
                keys@,
                cat@,
                k + 1,
            ));
        }
        k += 1;
    }
    Ok(())
}

/// One room's item slots under a deck-backed mode, from slot `k` on:
/// a slot whose current value is a known badge id is overwritten with
/// the top of the deck; an empty deck skips the slot.
pub open spec fn items_deck_pass(
    img: Seq<u8>,
    deck: Seq<u32>,
    room_ptr: u32,
    its: Seq<u32>,
    k: int,
) -> Result<(Seq<u8>, Seq<u32>), RomError>
    decreases its.len() - k,
{
    if k < 0 || k >= its.len() {
        Ok((img, deck))
    } else {
        let off = room_ptr + its[k] - ROOM_BASE_PTR;
        if off < 0 || off + 4 > img.len() {
            Err(RomError::OutOfBounds)
        } else {
            let val = load_u32(img, off);
            if badge_pool().contains(val) && deck.len() > 0 {
                items_deck_pass(
                    store_u32(img, off, deck.last()),
                    deck.drop_last(),
                    room_ptr,
                    its,
                    k + 1,
                )
            } else {
                items_deck_pass(img, deck, room_ptr, its, k + 1)
            }
        }
    }
}

/// A deck-backed pass pops from one end only: what is left is a prefix
/// of the deck it started from, and at most one element leaves per slot.
pub proof fn lemma_items_deck_prefix(
    img: Seq<u8>,
    deck: Seq<u32>,
    room_ptr: u32,
    its: Seq<u32>,
    k: int,
)
    requires
        0 <= k <= its.len(),
    ensures
        match items_deck_pass(img, deck, room_ptr, its, k) {
            Ok((im, d)) => d.len() <= deck.len() && d == deck.take(d.len() as int) && deck.len()
                - d.len() <= its.len() - k && im.len() == img.len(),
            Err(_) => true,
        },
    decreases its.len() - k,
{
    if k < its.len() {
        let off = room_ptr + its[k] - ROOM_BASE_PTR;
        if 0 <= off && off + 4 <= img.len() {
            let val = load_u32(img, off);
            if badge_pool().contains(val) && deck.len() > 0 {
                let img2 = store_u32(img, off, deck.last());
                let d2 = deck.drop_last();
                lemma_items_deck_prefix(img2, d2, room_ptr, its, k + 1);
                assert(deck.take(deck.len() - 1) =~= d2);
                match items_deck_pass(img2, d2, room_ptr, its, k + 1) {
                    Ok((im, d)) => {
                        assert(d == d2.take(d.len() as int));
                        assert(d =~= deck.take(d.len() as int));
                    },
                    Err(_) => {},
                }
            } else {
                lemma_items_deck_prefix(img, deck, room_ptr, its, k + 1);
            }
        }
    }
}

/// Deals deck items into one room's badge slots.
pub fn patch_room_items_deck(
    image: &mut Vec<u8>,
    deck: &mut Vec<u32>,
    room_ptr: u32,
    its: &Vec<u32>,
    pool: &Vec<u32>,
) -> (r: Result<(), RomError>)
    requires
        pool@ == badge_pool(),
    ensures
        match (r, items_deck_pass(old(image)@, old(deck)@, room_ptr, its@, 0)) {
            (Ok(()), Ok((im, d))) => final(image)@ == im && final(deck)@ == d,
            (Err(e1), Err(e2)) => e1 == e2,
            _ => false,
        },
        final(image)@.len() == old(image)@.len(),
        final(deck)@.len() <= old(deck)@.len(),
        final(deck)@ == old(deck)@.take(final(deck)@.len() as int),
{
    let ghost img0 = image@;
    let ghost deck0 = deck@;
    let n = its.len();
    let mut k: usize = 0;
    while k < n
        invariant
            pool@ == badge_pool(),
            n == its@.len(),
            0 <= k <= n,
            img0 == old(image)@,
            deck0 == old(deck)@,
            image@.len() == img0.len(),
            deck@.len() <= deck0.len(),
            deck@ == deck0.take(deck@.len() as int),
            items_deck_pass(img0, deck0, room_ptr, its@, 0) == items_deck_pass(
                image@,
                deck@,
                room_ptr,
                its@,
                k as int,
            ),
        decreases n - k,
    {
        let ghost img_k = image@;
        let ghost deck_k = deck@;
        let off_sum: u64 = room_ptr as u64 + its[k] as u64;
        if off_sum < ROOM_BASE_PTR as u64 {
            proof {
                assert(items_deck_pass(img_k, deck_k, room_ptr, its@, k as int) == Err::<
                    (Seq<u8>, Seq<u32>),
                    RomError,
                >(RomError::OutOfBounds));
            }
            return Err(RomError::OutOfBounds);
        }
        let off64: u64 = off_sum - ROOM_BASE_PTR as u64;
        if off64 > image.len() as u64 {
            proof {
                assert(items_deck_pass(img_k, deck_k, room_ptr, its@, k as int) == Err::<
                    (Seq<u8>, Seq<u32>),
                    RomError,
                >(RomError::OutOfBounds));
            }
            return Err(RomError::OutOfBounds);
        }
        if image.len() - (off64 as usize) < 4 {
            proof {
                assert(items_deck_pass(img_k, deck_k, room_ptr, its@, k as int) == Err::<
                    (Seq<u8>, Seq<u32>),
                    RomError,
                >(RomError::OutOfBounds));
            }
            return Err(RomError::OutOfBounds);
        }
        let off = off64 as usize;
        let val = read_u32_at(image, off);
        if is_badge(val, pool) {
            let ghost dpre = deck@;
            match deck.pop() {
                Some(item) => {
                    write_u32_at(image, off, item);
                    proof {
                        assert(deck@ =~= dpre.drop_last());
                        assert(deck@ =~= deck0.take(deck@.len() as int));
                    }
                },
                None => {},
            }
        }
        proof {
            assert(items_deck_pass(img_k, deck_k, room_ptr, its@, k as int) == items_deck_pass(
                image@,
                deck@,
                room_ptr,
                its@,
                k + 1,
            ));
        }
        k += 1;
    }
    Ok(())
}

/// One room's item slots under the per-slot random mode, from slot `k`
/// on: a fresh id in `[1, 0x16C)` is drawn for every slot, and written
/// only where the current value lies in `(0, 0x200)`.
pub open spec fn items_rand_pass(
    img: Seq<u8>,
    xs: Xs,
    room_ptr: u32,
    its: Seq<u32>,
    k: int,
) -> Result<(Seq<u8>, Xs), RomError>
    decreases its.len() - k,
{
    if k < 0 || k >= its.len() {
        Ok((img, xs))
    } else {
        let off = room_ptr + its[k] - ROOM_BASE_PTR;
        if off < 0 || off + 4 > img.len() {
            Err(RomError::OutOfBounds)
        } else {
            let s1 = xs_step(xs);
            let rand = 1 + (s1.x0 as int) % 0x16B;
            let val = load_u32(img, off);
            if 0 < val < 0x200 {
                items_rand_pass(store_u32(img, off, rand as u32), s1, room_ptr, its, k + 1)
            } else {
                items_rand_pass(img, s1, room_ptr, its, k + 1)
            }
        }
    }
}

/// Redraws one room's item slots with fresh random ids.
pub fn patch_room_items_rand(
    image: &mut Vec<u8>,
    xs: &mut Xs,
    room_ptr: u32,
    its: &Vec<u32>,
) -> (r: Result<(), RomError>)
    ensures
        match (r, items_rand_pass(old(image)@, *old(xs), room_ptr, its@, 0)) {
            (Ok(()), Ok((im, x))) => final(image)@ == im && *final(xs) == x,
            (Err(e1), Err(e2)) => e1 == e2,
            _ => false,
        },
        final(image)@.len() == old(image)@.len(),
{
    let ghost img0 = image@;
    let ghost xs0 = *xs;
    let n = its.len();
    let mut k: usize = 0;
    while k < n
        invariant
            n == its@.len(),
            0 <= k <= n,
            img0 == old(image)@,
            xs0 == *old(xs),
            image@.len() == img0.len(),
            items_rand_pass(img0, xs0, room_ptr, its@, 0) == items_rand_pass(
                image@,
                *xs,
                room_ptr,
                its@,
                k as int,
            ),
        decreases n - k,
    {
        let ghost img_k = image@;
        let ghost xs_k = *xs;
        let off_sum: u64 = room_ptr as u64 + its[k] as u64;
        if off_sum < ROOM_BASE_PTR as u64 {
            proof {
                assert(items_rand_pass(img_k, xs_k, room_ptr, its@, k as int) == Err::<
                    (Seq<u8>, Xs),
                    RomError,
                >(RomError::OutOfBounds));
            }
            return Err(RomError::OutOfBounds);
        }
        let off64: u64 = off_sum - ROOM_BASE_PTR as u64;
        if off64 > image.len() as u64 {
            proof {
                assert(items_rand_pass(img_k, xs_k, room_ptr, its@, k as int) == Err::<
                    (Seq<u8>, Xs),
                    RomError,
                >(RomError::OutOfBounds));
            }
            return Err(RomError::OutOfBounds);
        }
        if image.len() - (off64 as usize) < 4 {
            proof {
                assert(items_rand_pass(img_k, xs_k, room_ptr, its@, k as int) == Err::<
                    (Seq<u8>, Xs),
                    RomError,
                >(RomError::OutOfBounds));
            }
            return Err(RomError::OutOfBounds);
        }
        let off = off64 as usize;
        let rand = xs_u32(xs, 1, 0x16C);
        let val = read_u32_at(image, off);
        if 0 < val && val < 0x200 {
            write_u32_at(image, off, rand);
        }
        proof {
            assert(items_rand_pass(img_k, xs_k, room_ptr, its@, k as int) == items_rand_pass(
                image@,
                *xs,
                room_ptr,
                its@,
                k + 1,
            ));
        }
        k += 1;
    }
    Ok(())
}

/// Pointer base of the room-name string table, as the engine reads it.
pub const NAME_TABLE_BASE: u32 = 0x8002_4C00;

/// One record of the room table: its header is read, its name resolved,
/// and — when a mode asks for it — its warps and item slots are
/// patched.  With both modes inactive the record is only read.
pub open spec fn room_step(
    img: Seq<u8>,
    xs: Xs,
    deck: Seq<u32>,
    kind: ItemKind,
    do_warps: bool,
    keys: Seq<u64>,
    cat: Seq<RoomV>,
    i: int,
) -> Result<(Seq<u8>, Xs, Seq<u32>), RomError> {
    let hoff = 0x6B450 + i * 0x20;
    if hoff + 12 > img.len() {
        Err(RomError::OutOfBounds)
    } else {
        let name_field = load_u32(img, hoff);
        if name_field < NAME_TABLE_BASE {
            Err(RomError::OutOfBounds)
        } else {
            let name_off = name_field - NAME_TABLE_BASE;
            if name_off + 8 > img.len() {
                Err(RomError::OutOfBounds)
            } else {
                let room_ptr = load_u32(img, hoff + 8);
                if !do_warps && kind is Inactive {
                    Ok((img, xs, deck))
                } else {
                    let key = key_of(room_name_at(img, name_off));
                    let ri = spec_find_room(cat, key, 0);
                    if ri < 0 {
                        Err(RomError::UnknownRoom)
                    } else {
                        let room = cat[ri];
                        let w = if do_warps {
                            warps_pass(img, xs, room_ptr, room.warp_ptrs, keys, cat, 0)
                        } else {
                            Ok((img, xs))
                        };
                        match w {
                            Err(e) => Err(e),
                            Ok((img1, xs1)) => match kind {
                                ItemKind::Inactive => Ok((img1, xs1, deck)),
                                ItemKind::DeckBacked => match items_deck_pass(
                                    img1,
                                    deck,
                                    room_ptr,
                                    room.items,
                                    0,
                                ) {
                                    Ok((img2, d2)) => Ok((img2, xs1, d2)),
                                    Err(e) => Err(e),
                                },
                                ItemKind::PerSlotRandom => match items_rand_pass(
                                    img1,
                                    xs1,
                                    room_ptr,
                                    room.items,
                                    0,
                                ) {
                                    Ok((img2, xs2)) => Ok((img2, xs2, deck)),
                                    Err(e) => Err(e),
                                },
                            },
                        }
                    }
                }
            }
        }
    }
}

/// Patches one record of the room table.
pub fn patch_one_room(
    image: &mut Vec<u8>,
    xs: &mut Xs,
    deck: &mut Vec<u32>,
    kind: ItemKind,
    do_warps: bool,
    keys: &Vec<u64>,
    cat: &Catalog,
    pool: &Vec<u32>,
    i: usize,
) -> (r: Result<(), RomError>)
    requires
        i < 421,
        catalog_wf(cat@),
        keys@.len() < 0xFFFF_FFFF,
        pool@ == badge_pool(),
    ensures
        match (r, room_step(old(image)@, *old(xs), old(deck)@, kind, do_warps, keys@, cat@, i as int)) {
            (Ok(()), Ok((im, x, d))) => final(image)@ == im && *final(xs) == x && final(deck)@ == d,
            (Err(e1), Err(e2)) => e1 == e2,
            _ => false,
        },
        final(image)@.len() == old(image)@.len(),
{
    let hoff = ROOM_TABLE_OFF + i * ROOM_RECORD_SIZE;
    if image.len() < hoff + 12 {
        return Err(RomError::OutOfBounds);
    }
    let name_field = read_u32_at(image, hoff);
    if name_field < NAME_TABLE_BASE {
        return Err(RomError::OutOfBounds);
    }
    let name_off = name_field - NAME_TABLE_BASE;
    if name_off as u64 + 8 > image.len() as u64 {
        return Err(RomError::OutOfBounds);
    }
    let room_ptr = read_u32_at(image, hoff + 8);
    let inactive = match kind {
        ItemKind::Inactive => true,
        _ => false,
    };
    if !do_warps && inactive {
        return Ok(());
    }
    let key = read_room_key(image, name_off as usize);
    let ri = match cat.find_room(key) {
        Some(r) => r,
        None => {
            return Err(RomError::UnknownRoom);
        },
    };
    let room = &cat.rooms[ri];
    proof {
        assert(cat@[ri as int] == cat.rooms@[ri as int]@);
    }
    if do_warps {
        match patch_room_warps(image, xs, room_ptr, &room.warp_ptrs, keys, cat) {
            Ok(()) => {},
            Err(e) => {
                return Err(e);
            },
        }
    }
    match kind {
        ItemKind::Inactive => Ok(()),
        ItemKind::DeckBacked => match patch_room_items_deck(image, deck, room_ptr, &room.items, pool) {
            Ok(()) => Ok(()),
            Err(e) => Err(e),
        },
        ItemKind::PerSlotRandom => match patch_room_items_rand(image, xs, room_ptr, &room.items) {
            Ok(()) => Ok(()),
            Err(e) => Err(e),
        },
    }
}

/// The whole room pass, from record `i` on.
pub open spec fn rooms_pass(
    img: Seq<u8>,
    xs: Xs,
    deck: Seq<u32>,
    kind: ItemKind,
    do_warps: bool,
    keys: Seq<u64>,
    cat: Seq<RoomV>,
    i: int,
) -> Result<(Seq<u8>, Xs, Seq<u32>), RomError>
    decreases 421 - i,
{
    if i < 0 || i >= 421 {
        Ok((img, xs, deck))
    } else {
        match room_step(img, xs, deck, kind, do_warps, keys, cat, i) {
            Err(e) => Err(e),
            Ok((im, x, d)) => rooms_pass(im, x, d, kind, do_warps, keys, cat, i + 1),
        }
    }
}

/// Patches every record of the room table.
pub fn patch_rooms(
    image: &mut Vec<u8>,
    xs: &mut Xs,
    deck: &mut Vec<u32>,
    kind: ItemKind,
    do_warps: bool,
    keys: &Vec<u64>,
    cat: &Catalog,
    pool: &Vec<u32>,
) -> (r: Result<(), RomError>)
    requires
        catalog_wf(cat@),
        keys@.len() < 0xFFFF_FFFF,
        pool@ == badge_pool(),
    ensures
        match (r, rooms_pass(old(image)@, *old(xs), old(deck)@, kind, do_warps, keys@, cat@, 0)) {
            (Ok(()), Ok((im, x, d))) => final(image)@ == im && *final(xs) == x && final(deck)@ == d,
            (Err(e1), Err(e2)) => e1 == e2,
            _ => false,
        },
        final(image)@.len() == old(image)@.len(),
{
    let ghost img0 = image@;
    let ghost xs0 = *xs;
    let ghost deck0 = deck@;
    let mut i: usize = 0;
    while i < ROOM_COUNT
        invariant
            catalog_wf(cat@),
            keys@.len() < 0xFFFF_FFFF,
            pool@ == badge_pool(),
            0 <= i <= 421,
            img0 == old(image)@,
            xs0 == *old(xs),
            deck0 == old(deck)@,
            image@.len() == img0.len(),
            rooms_pass(img0, xs0, deck0, kind, do_warps, keys@, cat@, 0) == rooms_pass(
                image@,
                *xs,
                deck@,
                kind,
                do_warps,
                keys@,
                cat@,
                i as int,
            ),
        decreases 421 - i,
    {
        let ghost img_i = image@;
        let ghost xs_i = *xs;
        let ghost deck_i = deck@;
        match patch_one_room(image, xs, deck, kind, do_warps, keys, cat, pool, i) {
            Ok(()) => {},
            Err(e) => {
                proof {
                    assert(rooms_pass(img_i, xs_i, deck_i, kind, do_warps, keys@, cat@, i as int)
                        == Err::<(Seq<u8>, Xs, Seq<u32>), RomError>(e));
                }
                return Err(e);
            },
        }
        proof {
            assert(rooms_pass(img_i, xs_i, deck_i, kind, do_warps, keys@, cat@, i as int)
                == rooms_pass(image@, *xs, deck@, kind, do_warps, keys@, cat@, i + 1));
        }
        i += 1;
    }
    Ok(())
}

/// The item-distribution state selected from the item mode, and the
/// generator state after any deck shuffle it performs.  Only modes that
/// target the map build a deck for the room pass; deck building draws
/// from the generator before the first room is visited.
pub open spec fn spec_init_item_state(xs: Xs, mode: ItemMode) -> (ItemKind, Seq<u32>, Xs) {
    match mode {
        ItemMode::Untouched => (ItemKind::Inactive, Seq::empty(), xs),
        ItemMode::TotalRandom => (ItemKind::PerSlotRandom, Seq::empty(), xs),
        ItemMode::ShuffleBadgesGlobally => {
            let sh = xs_shuffle_spec(xs, map_badge_pool() + rowf_badge_pool() + merlow_badge_pool());
            (ItemKind::DeckBacked, sh.1, sh.0)
        },
        ItemMode::DealUsedInto(s) => if s.bits & 1 == 1 {
            let sh = xs_shuffle_spec(xs, used_badge_pool());
            (ItemKind::DeckBacked, sh.1, sh.0)
        } else {
            (ItemKind::Inactive, Seq::empty(), xs)
        },
        ItemMode::DealAllInto(s) => if s.bits & 1 == 1 {
            let sh = xs_shuffle_spec(xs, badge_pool());
            (ItemKind::DeckBacked, sh.1, sh.0)
        } else {
            (ItemKind::Inactive, Seq::empty(), xs)
        },
        ItemMode::ShuffleBadgesLocally(s) => if s.bits & 1 == 1 {
            let sh = xs_shuffle_spec(xs, map_badge_pool());
            (ItemKind::DeckBacked, sh.1, sh.0)
        } else {
            (ItemKind::Inactive, Seq::empty(), xs)
        },
    }
}

/// Builds the item-distribution state for the room pass.
pub fn init_item_state(xs: &mut Xs, mode: ItemMode) -> (st: ItemState)
    ensures
        ({
            let t = spec_init_item_state(*old(xs), mode);
            st.kind == t.0 && st.deck@ == t.1 && *final(xs) == t.2
        }),
{
    match mode {
        ItemMode::Untouched => ItemState { kind: ItemKind::Inactive, deck: Vec::new() },
        ItemMode::TotalRandom => ItemState { kind: ItemKind::PerSlotRandom, deck: Vec::new() },
        ItemMode::ShuffleBadgesGlobally => {
            let mut deck = get_map_badges();
            let mut rowf = get_rowf_shop_badges();
            let mut merlow = get_merlow_shop_badges();
            deck.append(&mut rowf);
            deck.append(&mut merlow);
            proof {
                assert(deck@ == map_badge_pool() + rowf_badge_pool() + merlow_badge_pool());
            }
            xs_shuffle(xs, &mut deck);
            ItemState { kind: ItemKind::DeckBacked, deck }
        },
        ItemMode::DealUsedInto(s) => {
            if s.contains(BadgeSections::map()) {
                let mut deck = get_used_badges();
                xs_shuffle(xs, &mut deck);
                ItemState { kind: ItemKind::DeckBacked, deck }
            } else {
                ItemState { kind: ItemKind::Inactive, deck: Vec::new() }
            }
        },
        ItemMode::DealAllInto(s) => {
            if s.contains(BadgeSections::map()) {
                let mut deck = get_badges_set();
                xs_shuffle(xs, &mut deck);
                ItemState { kind: ItemKind::DeckBacked, deck }
            } else {
                ItemState { kind: ItemKind::Inactive, deck: Vec::new() }
            }
        },
        ItemMode::ShuffleBadgesLocally(s) => {
            if s.contains(BadgeSections::map()) {
                let mut deck = get_map_badges();
                xs_shuffle(xs, &mut deck);
                ItemState { kind: ItemKind::DeckBacked, deck }
            } else {
                ItemState { kind: ItemKind::Inactive, deck: Vec::new() }
            }
        },
    }
}


/// One shop range dealt from a deck, from slot `k` on: each slot pops
/// the top of the deck and is overwritten with it; an empty deck leaves
/// the remaining slots untouched.
pub open spec fn shop_deal_pass(
    img: Seq<u8>,
    deck: Seq<u32>,
    slots: Seq<u32>,
    k: int,
) -> Result<(Seq<u8>, Seq<u32>), RomError>
    decreases slots.len() - k,
{
    if k < 0 || k >= slots.len() {
        Ok((img, deck))
    } else {
        let off = slots[k] as int;
        if off + 4 > img.len() {
            Err(RomError::OutOfBounds)
        } else if deck.len() > 0 {
            shop_deal_pass(store_u32(img, off, deck.last()), deck.drop_last(), slots, k + 1)
        } else {
            shop_deal_pass(img, deck, slots, k + 1)
        }
    }
}

/// Deals the deck into one shop range.
pub fn deal_shop_slots(image: &mut Vec<u8>, deck: &mut Vec<u32>, slots: &Vec<u32>) -> (r: Result<
    (),
    RomError,
>)
    ensures
        match (r, shop_deal_pass(old(image)@, old(deck)@, slots@, 0)) {
            (Ok(()), Ok((im, d))) => final(image)@ == im && final(deck)@ == d,
            (Err(e1), Err(e2)) => e1 == e2,
            _ => false,
        },
        final(image)@.len() == old(image)@.len(),
        final(deck)@.len() <= old(deck)@.len(),
        final(deck)@ == old(deck)@.take(final(deck)@.len() as int),
{
    let ghost img0 = image@;
    let ghost deck0 = deck@;
    let n = slots.len();
    let mut k: usize = 0;
    while k < n
        invariant
            n == slots@.len(),
            0 <= k <= n,
            img0 == old(image)@,
            deck0 == old(deck)@,
            image@.len() == img0.len(),
            deck@.len() <= deck0.len(),
            deck@ == deck0.take(deck@.len() as int),
            shop_deal_pass(img0, deck0, slots@, 0) == shop_deal_pass(
                image@,
                deck@,
                slots@,
                k as int,
            ),
        decreases n - k,
    {
        let ghost img_k = image@;
        let ghost deck_k = deck@;
        let off64: u64 = slots[k] as u64;
        if off64 > image.len() as u64 {
            proof {
                assert(shop_deal_pass(img_k, deck_k, slots@, k as int) == Err::<
                    (Seq<u8>, Seq<u32>),
                    RomError,
                >(RomError::OutOfBounds));
            }
            return Err(RomError::OutOfBounds);
        }
        if image.len() - (off64 as usize) < 4 {
            proof {
                assert(shop_deal_pass(img_k, deck_k, slots@, k as int) == Err::<
                    (Seq<u8>, Seq<u32>),
                    RomError,
                >(RomError::OutOfBounds));
            }
            return Err(RomError::OutOfBounds);
        }
        let off = off64 as usize;
        let ghost dpre = deck@;
        match deck.pop() {
            Some(item) => {
                write_u32_at(image, off, item);
                proof {
                    assert(deck@ =~= dpre.drop_last());
                    assert(deck@ =~= deck0.take(deck@.len() as int));
                }
            },
            None => {},
        }
        proof {
            assert(shop_deal_pass(img_k, deck_k, slots@, k as int) == shop_deal_pass(
                image@,
                deck@,
                slots@,
                k + 1,
            ));
        }
        k += 1;
    }
    Ok(())
}

/// One shop range filled with independent draws from a pool, from slot
/// `k` on.
pub open spec fn shop_rand_pass(
    img: Seq<u8>,
    xs: Xs,
    slots: Seq<u32>,
    pool: Seq<u32>,
    k: int,
) -> Result<(Seq<u8>, Xs), RomError>
    decreases slots.len() - k,
{
    if k < 0 || k >= slots.len() {
        Ok((img, xs))
    } else {
        let off = slots[k] as int;
        if off + 4 > img.len() {
            Err(RomError::OutOfBounds)
        } else {
            let s1 = xs_step(xs);
            let item = pool[(s1.x0 as int) % (pool.len() as int)];
            shop_rand_pass(store_u32(img, off, item), s1, slots, pool, k + 1)
        }
    }
}

/// Fills one shop range with independent draws from the pool.
pub fn rand_shop_slots(
    image: &mut Vec<u8>,
    xs: &mut Xs,
    slots: &Vec<u32>,
    pool: &Vec<u32>,
) -> (r: Result<(), RomError>)
    requires
        0 < pool@.len() < 0xFFFF_FFFF,
    ensures
        match (r, shop_rand_pass(old(image)@, *old(xs), slots@, pool@, 0)) {
            (Ok(()), Ok((im, x))) => final(image)@ == im && *final(xs) == x,
            (Err(e1), Err(e2)) => e1 == e2,
            _ => false,
        },
        final(image)@.len() == old(image)@.len(),
{
    let ghost img0 = image@;
    let ghost xs0 = *xs;
    let n = slots.len();
    let mut k: usize = 0;
    while k < n
        invariant
            0 < pool@.len() < 0xFFFF_FFFF,
            n == slots@.len(),
            0 <= k <= n,
            img0 == old(image)@,
            xs0 == *old(xs),
            image@.len() == img0.len(),
            shop_rand_pass(img0, xs0, slots@, pool@, 0) == shop_rand_pass(
                image@,
                *xs,
                slots@,
                pool@,
                k as int,
            ),
        decreases n - k,
    {
        let ghost img_k = image@;
        let ghost xs_k = *xs;
        let off64: u64 = slots[k] as u64;
        if off64 > image.len() as u64 {
            proof {
                assert(shop_rand_pass(img_k, xs_k, slots@, pool@, k as int) == Err::<
                    (Seq<u8>, Xs),
                    RomError,
                >(RomError::OutOfBounds));
            }
            return Err(RomError::OutOfBounds);
        }
        if image.len() - (off64 as usize) < 4 {
            proof {
                assert(shop_rand_pass(img_k, xs_k, slots@, pool@, k as int) == Err::<
                    (Seq<u8>, Xs),
                    RomError,
                >(RomError::OutOfBounds));
            }
            return Err(RomError::OutOfBounds);
        }
        let off = off64 as usize;
        let item = xs_choice(xs, pool.as_slice());
        write_u32_at(image, off, item);
        proof {
            assert(shop_rand_pass(img_k, xs_k, slots@, pool@, k as int) == shop_rand_pass(
                image@,
                *xs,
                slots@,
                pool@,
                k + 1,
            ));
        }
        k += 1;
    }
    Ok(())
}

/// A freshly built, freshly shuffled deck dealt into one shop range, if
/// that range's section is selected.
pub open spec fn deal_section(
    img: Seq<u8>,
    xs: Xs,
    pool: Seq<u32>,
    slots: Seq<u32>,
    active: bool,
) -> Result<(Seq<u8>, Xs), RomError> {
    if !active {
        Ok((img, xs))
    } else {
        let sh = xs_shuffle_spec(xs, pool);
        match shop_deal_pass(img, sh.1, slots, 0) {
            Ok((i1, d)) => Ok((i1, sh.0)),
            Err(e) => Err(e),
        }
    }
}

/// Shuffles a fresh deck from `pool` and deals it into one shop range,
/// if `active`.
pub fn deal_shop_section(
    image: &mut Vec<u8>,
    xs: &mut Xs,
    pool: Vec<u32>,
    slots: &Vec<u32>,
    active: bool,
) -> (r: Result<(), RomError>)
    requires
        pool@.len() <= 0xFFFF_FFFF,
    ensures
        match (r, deal_section(old(image)@, *old(xs), pool@, slots@, active)) {
            (Ok(()), Ok((im, x))) => final(image)@ == im && *final(xs) == x,
            (Err(e1), Err(e2)) => e1 == e2,
            _ => false,
        },
        final(image)@.len() == old(image)@.len(),
{
    if !active {
        return Ok(());
    }
    let mut deck = pool;
    xs_shuffle(xs, &mut deck);
    match deal_shop_slots(image, &mut deck, slots) {
        Ok(()) => Ok(()),
        Err(e) => Err(e),
    }
}

/// The shop pass: what happens to the two fixed shop ranges after the
/// room pass, per item mode.  The global deck continues from wherever
/// the room pass left it; the sectioned modes build a fresh deck per
/// selected shop.
pub open spec fn spec_shops(
    img: Seq<u8>,
    xs: Xs,
    deck: Seq<u32>,
    mode: ItemMode,
) -> Result<Seq<u8>, RomError> {
    match mode {
        ItemMode::Untouched => Ok(img),
        ItemMode::TotalRandom => match shop_rand_pass(img, xs, rowf_slots(), badge_pool(), 0) {
            Err(e) => Err(e),
            Ok((i1, x1)) => match shop_rand_pass(i1, x1, merlow_slots(), badge_pool(), 0) {
                Err(e) => Err(e),
                Ok((i2, x2)) => Ok(i2),
            },
        },
        ItemMode::ShuffleBadgesGlobally => match shop_deal_pass(img, deck, rowf_slots(), 0) {
            Err(e) => Err(e),
            Ok((i1, d1)) => match shop_deal_pass(i1, d1, merlow_slots(), 0) {
                Err(e) => Err(e),
                Ok((i2, d2)) => Ok(i2),
            },
        },
        ItemMode::ShuffleBadgesLocally(s) => match deal_section(
            img,
            xs,
            rowf_badge_pool(),
            rowf_slots(),
            s.bits & 2 == 2,
        ) {
            Err(e) => Err(e),
            Ok((i1, x1)) => match deal_section(
                i1,
                x1,
                merlow_badge_pool(),
                merlow_slots(),
                s.bits & 4 == 4,
            ) {
                Err(e) => Err(e),
                Ok((i2, x2)) => Ok(i2),
            },
        },
        ItemMode::DealUsedInto(s) => match deal_section(
            img,
            xs,
            used_badge_pool(),
            rowf_slots(),
            s.bits & 2 == 2,
        ) {
            Err(e) => Err(e),
            Ok((i1, x1)) => match deal_section(
                i1,
                x1,
                used_badge_pool(),
                merlow_slots(),
                s.bits & 4 == 4,
            ) {
                Err(e) => Err(e),
                Ok((i2, x2)) => Ok(i2),
            },
        },
        ItemMode::DealAllInto(s) => match deal_section(
            img,
            xs,
            badge_pool(),
            rowf_slots(),
            s.bits & 2 == 2,
        ) {
            Err(e) => Err(e),
            Ok((i1, x1)) => match deal_section(
                i1,
                x1,
                badge_pool(),
                merlow_slots(),
                s.bits & 4 == 4,
            ) {
                Err(e) => Err(e),
                Ok((i2, x2)) => Ok(i2),
            },
        },
    }
}

/// Runs the shop pass.
#[verifier::rlimit(60)]
pub fn patch_shops(
    image: &mut Vec<u8>,
    xs: &mut Xs,
    deck: &mut Vec<u32>,
    mode: ItemMode,
    pool: &Vec<u32>,
) -> (r: Result<(), RomError>)
    requires
        pool@ == badge_pool(),
    ensures
        match (r, spec_shops(old(image)@, *old(xs), old(deck)@, mode)) {
            (Ok(()), Ok(im)) => final(image)@ == im,
            (Err(e1), Err(e2)) => e1 == e2,
            _ => false,
        },
        final(image)@.len() == old(image)@.len(),
{
    let rowf = get_rowf_iter();
    let merlow = get_merlow_iter();
    match mode {
        ItemMode::Untouched => Ok(()),
        ItemMode::TotalRandom => {
            match rand_shop_slots(image, xs, &rowf, pool) {
                Ok(()) => {},
                Err(e) => {
                    return Err(e);
                },
            }
            match rand_shop_slots(image, xs, &merlow, pool) {
                Ok(()) => Ok(()),
                Err(e) => Err(e),
            }
        },
        ItemMode::ShuffleBadgesGlobally => {
            match deal_shop_slots(image, deck, &rowf) {
                Ok(()) => {},
                Err(e) => {
                    return Err(e);
                },
            }
            match deal_shop_slots(image, deck, &merlow) {
                Ok(()) => Ok(()),
                Err(e) => Err(e),
            }
        },
        ItemMode::ShuffleBadgesLocally(s) => {
            let rowf_active = s.contains(BadgeSections::rowf());
            let merlow_active = s.contains(BadgeSections::merlow());
            match deal_shop_section(image, xs, get_rowf_shop_badges(), &rowf, rowf_active) {
                Ok(()) => {},
                Err(e) => {
                    return Err(e);
                },
            }
            match deal_shop_section(image, xs, get_merlow_shop_badges(), &merlow, merlow_active) {
                Ok(()) => Ok(()),
                Err(e) => Err(e),
            }
        },
        ItemMode::DealUsedInto(s) => {
            let rowf_active = s.contains(BadgeSections::rowf());
            let merlow_active = s.contains(BadgeSections::merlow());
            match deal_shop_section(image, xs, get_used_badges(), &rowf, rowf_active) {
                Ok(()) => {},
                Err(e) => {
                    return Err(e);
                },
            }
            match deal_shop_section(image, xs, get_used_badges(), &merlow, merlow_active) {
                Ok(()) => Ok(()),
                Err(e) => Err(e),
            }
        },
        ItemMode::DealAllInto(s) => {
            let rowf_active = s.contains(BadgeSections::rowf());
            let merlow_active = s.contains(BadgeSections::merlow());
            match deal_shop_section(image, xs, get_badges_set(), &rowf, rowf_active) {
                Ok(()) => {},
                Err(e) => {
                    return Err(e);
                },
            }
            match deal_shop_section(image, xs, get_badges_set(), &merlow, merlow_active) {
                Ok(()) => Ok(()),
                Err(e) => Err(e),
            }
        },
    }
}


/// Raw warp-pointer values of the two fixed exit records that the
/// hammer rewiring targets, and the record base they live under.
pub const HAMMER_ROOM_PTR: u32 = 0x8ABF90;

pub const HAMMER_WARP_A: u32 = 0x80240E4C;

pub const HAMMER_WARP_B: u32 = 0x80242C80;

/// The fixed post-pass of the hammer mode: both exit records of the
/// opening fall area are rewired to "kmr_04" entrance 2, where the
/// hammer lies.
pub open spec fn spec_hammer_rewire(img: Seq<u8>, room_mode: RoomMode) -> Result<Seq<u8>, RomError> {
    if room_mode is StartWithHammer {
        match spec_rewrite_exit(img, HAMMER_ROOM_PTR, HAMMER_WARP_A, kmr04_name(), 2) {
            Err(e) => Err(e),
            Ok(i1) => spec_rewrite_exit(i1, HAMMER_ROOM_PTR, HAMMER_WARP_B, kmr04_name(), 2),
        }
    } else {
        Ok(img)
    }
}

/// One whole run as a pure function of the input image, the catalog,
/// the modes and the seed: signature check, fixed code patches, deck
/// building, the room pass, the hammer rewiring, and the shop pass, in
/// that order.
pub open spec fn run_spec(
    img: Seq<u8>,
    cat: Seq<RoomV>,
    room_mode: RoomMode,
    item_mode: ItemMode,
    start: StartMode,
    seed: u128,
) -> Result<Seq<u8>, RomError> {
    if !magic_ok(img) {
        Err(RomError::BadSignature)
    } else {
        match spec_code_patches(img, start is Quick) {
            Err(e) => Err(e),
            Ok(img1) => {
                let keys = warp_target_keys(cat);
                let init = spec_init_item_state(seed_state(seed), item_mode);
                let do_warps = !(room_mode is Untouched);
                match rooms_pass(img1, init.2, init.1, init.0, do_warps, keys, cat, 0) {
                    Err(e) => Err(e),
                    Ok((img2, xs2, deck2)) => match spec_hammer_rewire(img2, room_mode) {
                        Err(e) => Err(e),
                        Ok(img3) => spec_shops(img3, xs2, deck2, item_mode),
                    },
                }
            },
        }
    }
}

/// Runs the whole randomization over an in-memory image.  On success
/// the image holds exactly `run_spec` of the inputs; on error the image
/// may hold a partially patched prefix of that work, and the error is
/// the one `run_spec` names.
#[verifier::rlimit(60)]
pub fn randomize(
    image: &mut Vec<u8>,
    cat: &Catalog,
    room_mode: RoomMode,
    item_mode: ItemMode,
    start: StartMode,
    seed: u128,
) -> (r: Result<(), RomError>)
    requires
        catalog_wf(cat@),
        seed != 0,
    ensures
        match (r, run_spec(old(image)@, cat@, room_mode, item_mode, start, seed)) {
            (Ok(()), Ok(s)) => final(image)@ == s,
            (Err(e1), Err(e2)) => e1 == e2,
            _ => false,
        },
        final(image)@.len() == old(image)@.len(),
{
    if !check_magic(image) {
        return Err(RomError::BadSignature);
    }
    let quick = match start {
        StartMode::Quick => true,
        StartMode::Standard => false,
    };
    match apply_code_patches(image, quick) {
        Ok(()) => {},
        Err(e) => {
            return Err(e);
        },
    }
    let mut xs = xs_from_seed(seed);
    let keys = build_warp_target_keys(cat);
    let pool = get_badges_set();
    let mut st = init_item_state(&mut xs, item_mode);
    let do_warps = match room_mode {
        RoomMode::Untouched => false,
        _ => true,
    };
    match patch_rooms(image, &mut xs, &mut st.deck, st.kind, do_warps, &keys, cat, &pool) {
        Ok(()) => {},
        Err(e) => {
            return Err(e);
        },
    }
    if let RoomMode::StartWithHammer = room_mode {
        let kmr: Vec<u8> = vec![0x6Bu8, 0x6Du8, 0x72u8, 0x5Fu8, 0x30u8, 0x34u8];
        proof {
            assert(kmr@ =~= kmr04_name());
        }
        match rewrite_exit(image, HAMMER_ROOM_PTR, HAMMER_WARP_A, kmr.as_slice(), 2) {
            Ok(()) => {},
            Err(e) => {
                return Err(e);
            },
        }
        match rewrite_exit(image, HAMMER_ROOM_PTR, HAMMER_WARP_B, kmr.as_slice(), 2) {
            Ok(()) => {},
            Err(e) => {
                return Err(e);
            },
        }
    }
    patch_shops(image, &mut xs, &mut st.deck, item_mode, &pool)
}

/// Determinism: a run is a pure function of the image, the catalog, the
/// modes and the seed, so two runs over equal inputs produce equal
/// results, byte for byte.
pub proof fn lemma_run_deterministic(
    img1: Seq<u8>,
    img2: Seq<u8>,
    cat1: Seq<RoomV>,
    cat2: Seq<RoomV>,
    room_mode: RoomMode,
    item_mode: ItemMode,
    start: StartMode,
    seed1: u128,
    seed2: u128,
)
    requires
        img1 == img2,
        cat1 == cat2,
        seed1 == seed2,
    ensures
        run_spec(img1, cat1, room_mode, item_mode, start, seed1) == run_spec(
            img2,
            cat2,
            room_mode,
            item_mode,
            start,
            seed2,
        ),
{
}


/// A shop range dealt from a deck also pops from one end only: what is
/// left is a prefix of the deck it started from, and at most one
/// element leaves per slot.
pub proof fn lemma_shop_deal_prefix(img: Seq<u8>, deck: Seq<u32>, slots: Seq<u32>, k: int)
    requires
        0 <= k <= slots.len(),
    ensures
        match shop_deal_pass(img, deck, slots, k) {
            Ok((im, d)) => d.len() <= deck.len() && d == deck.take(d.len() as int) && deck.len()
                - d.len() <= slots.len() - k,
            Err(_) => true,
        },
    decreases slots.len() - k,
{
    if k < slots.len() {
        let off = slots[k] as int;
        if off + 4 <= img.len() {
            if deck.len() > 0 {
                let img2 = store_u32(img, off, deck.last());
                let d2 = deck.drop_last();
                lemma_shop_deal_prefix(img2, d2, slots, k + 1);
                assert(deck.take(deck.len() - 1) =~= d2);
                match shop_deal_pass(img2, d2, slots, k + 1) {
                    Ok((im, d)) => {
                        assert(d == d2.take(d.len() as int));
                        assert(d =~= deck.take(d.len() as int));
                    },
                    Err(_) => {},
                }
            } else {
                lemma_shop_deal_prefix(img, deck, slots, k + 1);
            }
        }
    }
}

/// Across the whole room pass, the deck only shrinks, from its far end:
/// what is left after visiting rooms `i..` is a prefix of what the pass
/// started with.
pub proof fn lemma_rooms_pass_deck_monotone(
    img: Seq<u8>,
    xs: Xs,
    deck: Seq<u32>,
    kind: ItemKind,
    do_warps: bool,
    keys: Seq<u64>,
    cat: Seq<RoomV>,
    i: int,
)
    ensures
        match rooms_pass(img, xs, deck, kind, do_warps, keys, cat, i) {
            Ok((im, x, d)) => d.len() <= deck.len() && d == deck.take(d.len() as int),
            Err(_) => true,
        },
    decreases 421 - i,
{
    if 0 <= i < 421 {
        match room_step(img, xs, deck, kind, do_warps, keys, cat, i) {
            Err(_) => {},
            Ok((im1, x1, d1)) => {
                lemma_room_step_deck_monotone(img, xs, deck, kind, do_warps, keys, cat, i);
                lemma_rooms_pass_deck_monotone(im1, x1, d1, kind, do_warps, keys, cat, i + 1);
                match rooms_pass(im1, x1, d1, kind, do_warps, keys, cat, i + 1) {
                    Ok((im, x, d)) => {
                        assert(d == d1.take(d.len() as int));
                        assert(d1 == deck.take(d1.len() as int));
                        assert(d =~= deck.take(d.len() as int));
                    },
                    Err(_) => {},
                }
            },
        }
    } else {
        assert(deck.take(deck.len() as int) =~= deck);
    }
}

/// One room never grows the deck, and leaves a prefix of it.
proof fn lemma_room_step_deck_monotone(
    img: Seq<u8>,
    xs: Xs,
    deck: Seq<u32>,
    kind: ItemKind,
    do_warps: bool,
    keys: Seq<u64>,
    cat: Seq<RoomV>,
    i: int,
)
    ensures
        match room_step(img, xs, deck, kind, do_warps, keys, cat, i) {
            Ok((im, x, d)) => d.len() <= deck.len() && d == deck.take(d.len() as int),
            Err(_) => true,
        },
{
    assert(deck.take(deck.len() as int) =~= deck);
    let hoff = 0x6B450 + i * 0x20;
    if hoff + 12 <= img.len() {
        let name_field = load_u32(img, hoff);
        if name_field >= NAME_TABLE_BASE {
            let name_off = name_field - NAME_TABLE_BASE;
            if name_off + 8 <= img.len() {
                let room_ptr = load_u32(img, hoff + 8);
                if !(!do_warps && kind is Inactive) {
                    let key = key_of(room_name_at(img, name_off));
                    let ri = spec_find_room(cat, key, 0);
                    if ri >= 0 {
                        let room = cat[ri];
                        let w = if do_warps {
                            warps_pass(img, xs, room_ptr, room.warp_ptrs, keys, cat, 0)
                        } else {
                            Ok((img, xs))
                        };
                        match w {
                            Err(_) => {},
                            Ok((img1, xs1)) => {
                                if kind is DeckBacked {
                                    lemma_items_deck_prefix(img1, deck, room_ptr, room.items, 0);
                                }
                            },
                        }
                    }
                }
            }
        }
    }
}

} // verus!
