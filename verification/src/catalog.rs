//! The room catalog: read-only reference data about every room.
//!
//! Each room carries a short name (at most seven non-null bytes, as it
//! is stored null-padded in the binary), its entrance ids, and the
//! room-relative offsets of its item and warp-pointer fields.
//!
//! Names are ordered through an eight-byte big-endian packing into a
//! `u64`; for null-padded names without interior nulls this order agrees
//! with byte-wise lexicographic order.  The list of candidate warp
//! destinations is the catalog's names minus a fixed exclusion set,
//! sorted once into that order: the sort order is part of the
//! reproducibility contract.

use vstd::prelude::*;
use vstd::relations::{sorted_by, total_ordering};
use vstd::seq_lib::lemma_sorted_unique;

verus! {

/// Why a room could not be added to the catalog.
#[derive(Clone, Copy, PartialEq, Eq, Structural, Debug)]
pub enum CatalogError {
    /// The name is longer than seven bytes or holds a null byte.
    BadName,
    /// The entrance list is too long to draw from.
    TooManyEntrances,
    /// The catalog itself is full.
    TooManyRooms,
}

/// Mathematical view of one room.
pub ghost struct RoomV {
    pub name: Seq<u8>,
    pub entrances: Seq<u32>,
    pub items: Seq<u32>,
    pub warp_ptrs: Seq<u32>,
}

/// One room's reference data.
pub struct Room {
    pub name: Vec<u8>,
    pub entrances: Vec<u32>,
    pub items: Vec<u32>,
    pub warp_ptrs: Vec<u32>,
}

impl View for Room {
    type V = RoomV;

    open spec fn view(&self) -> RoomV {
        RoomV {
            name: self.name@,
            entrances: self.entrances@,
            items: self.items@,
            warp_ptrs: self.warp_ptrs@,
        }
    }
}

/// What every catalog entry satisfies: a packable name and an entrance
/// list short enough to draw from.
pub open spec fn room_wf(r: RoomV) -> bool {
    &&& r.name.len() <= 7
    &&& forall|i: int| 0 <= i < r.name.len() ==> r.name[i] != 0
    &&& r.entrances.len() < 0xFFFF_FFFF
}

/// The room catalog.
pub struct Catalog {
    pub rooms: Vec<Room>,
}

impl View for Catalog {
    type V = Seq<RoomV>;

    open spec fn view(&self) -> Seq<RoomV> {
        self.rooms@.map_values(|r: Room| r@)
    }
}

/// Every entry is well-formed and the catalog is small enough that a
/// destination can be drawn by a 32-bit index.
pub open spec fn catalog_wf(cat: Seq<RoomV>) -> bool {
    &&& cat.len() < 0xFFFF_FFFF
    &&& forall|i: int| 0 <= i < cat.len() ==> room_wf(#[trigger] cat[i])
}

/// The name packed into a `u64`: byte `k` of the name lands in byte
/// `7 - k` (counted from the least significant end), missing bytes stay
/// zero — exactly the null-padded big-endian image of the name.
pub open spec fn key_of(name: Seq<u8>) -> u64
    recommends
        name.len() <= 7,
    decreases name.len(),
{
    if name.len() == 0 {
        0u64
    } else {
        key_of(name.drop_last()) | ((name.last() as u64) << (((8 - name.len()) * 8) as u64))
    }
}

/// Packs a room name into its ordering key.
pub fn key_of_bytes(name: &[u8]) -> (r: u64)
    requires
        name@.len() <= 7,
    ensures
        r == key_of(name@),
{
    let n = name.len();
    let mut acc: u64 = 0;
    let mut k: usize = 0;
    while k < n
        invariant
            n == name@.len() <= 7,
            0 <= k <= n,
            acc == key_of(name@.take(k as int)),
        decreases n - k,
    {
        let sh: u64 = ((7 - k) as u64) * 8;
        acc = acc | ((name[k] as u64) << sh);
        proof {
            assert(name@.take(k + 1).drop_last() =~= name@.take(k as int));
            assert(name@.take(k + 1).last() == name@[k as int]);
        }
        k += 1;
    }
    proof {
        assert(name@.take(n as int) =~= name@);
    }
    acc
}

/// The twelve rooms that are never picked as warp destinations: the two
/// ending rooms, the title-screen valley, the minigame room, the four
/// debug rooms, three late star-haven rooms and the fifth town map.
pub open spec fn excluded_room_key(k: u64) -> bool {
    ||| k == 0x656E_645F_3030_0000  // "end_00"
    ||| k == 0x656E_645F_3031_0000  // "end_01"
    ||| k == 0x6776_5F30_3100_0000  // "gv_01"
    ||| k == 0x6D67_6D5F_3033_0000  // "mgm_03"
    ||| k == 0x7473_745F_3131_0000  // "tst_11"
    ||| k == 0x7473_745F_3132_0000  // "tst_12"
    ||| k == 0x7473_745F_3133_0000  // "tst_13"
    ||| k == 0x7473_745F_3230_0000  // "tst_20"
    ||| k == 0x686F_735F_3034_0000  // "hos_04"
    ||| k == 0x686F_735F_3035_0000  // "hos_05"
    ||| k == 0x686F_735F_3130_0000  // "hos_10"
    ||| k == 0x6D61_635F_3035_0000  // "mac_05"
}

/// Checks a packed name against the exclusion set.
pub fn is_excluded_key(k: u64) -> (r: bool)
    ensures
        r == excluded_room_key(k),
{
    k == 0x656E_645F_3030_0000 || k == 0x656E_645F_3031_0000 || k == 0x6776_5F30_3100_0000 || k
        == 0x6D67_6D5F_3033_0000 || k == 0x7473_745F_3131_0000 || k == 0x7473_745F_3132_0000 || k
        == 0x7473_745F_3133_0000 || k == 0x7473_745F_3230_0000 || k == 0x686F_735F_3034_0000 || k
        == 0x686F_735F_3035_0000 || k == 0x686F_735F_3130_0000 || k == 0x6D61_635F_3035_0000
}

/// The index of the first catalog entry at or after `i` whose packed
/// name equals `key`, or `-1` if there is none.
pub open spec fn spec_find_room(cat: Seq<RoomV>, key: u64, i: int) -> int
    decreases cat.len() - i,
{
    if i < 0 || i >= cat.len() {
        -1
    } else if key_of(cat[i].name) == key {
        i
    } else {
        spec_find_room(cat, key, i + 1)
    }
}

/// A found index is in range and matches; `-1` means no entry from `i`
/// on matches.
pub proof fn lemma_find_room_props(cat: Seq<RoomV>, key: u64, i: int)
    requires
        0 <= i,
    ensures
        ({
            let r = spec_find_room(cat, key, i);
            r == -1 || (i <= r < cat.len() && key_of(cat[r].name) == key)
        }),
    decreases cat.len() - i,
{
    if i < cat.len() && key_of(cat[i].name) != key {
        lemma_find_room_props(cat, key, i + 1);
    }
}

impl Catalog {
    /// An empty catalog.
    pub fn new() -> (r: Catalog)
        ensures
            r@ == Seq::<RoomV>::empty(),
            catalog_wf(r@),
    {
        let r = Catalog { rooms: Vec::new() };
        proof {
            assert(r@ =~= Seq::<RoomV>::empty());
        }
        r
    }

    /// Adds one room, validating that its data stays within what a run
    /// can handle.  On rejection the catalog is unchanged.
    pub fn add_room(&mut self, room: Room) -> (r: Result<(), CatalogError>)
        requires
            catalog_wf(old(self)@),
        ensures
            catalog_wf(final(self)@),
            match r {
                Ok(()) => final(self)@ == old(self)@.push(room@) && room_wf(room@),
                Err(e) => final(self)@ == old(self)@ && (e == CatalogError::BadName && !(room@
                    .name.len() <= 7 && forall|i: int|
                    0 <= i < room@.name.len() ==> room@.name[i] != 0) || e
                    == CatalogError::TooManyEntrances && room@.entrances.len() >= 0xFFFF_FFFF || e
                    == CatalogError::TooManyRooms && old(self)@.len() >= 0xFFFF_FFFE),
            },
    {
        if self.rooms.len() >= 0xFFFF_FFFE {
            return Err(CatalogError::TooManyRooms);
        }
        if room.name.len() > 7 {
            return Err(CatalogError::BadName);
        }
        let mut k: usize = 0;
        let n = room.name.len();
        while k < n
            invariant
                self == old(self),
                catalog_wf(self@),
                n == room.name@.len(),
                0 <= k <= n,
                forall|i: int| 0 <= i < k ==> room.name@[i] != 0,
            decreases n - k,
        {
            if room.name[k] == 0 {
                return Err(CatalogError::BadName);
            }
            k += 1;
        }
        if room.entrances.len() >= 0xFFFF_FFFF {
            return Err(CatalogError::TooManyEntrances);
        }
        let ghost pre = self@;
        let ghost rv = room@;
        self.rooms.push(room);
        proof {
            assert(self@ =~= pre.push(rv));
        }
        Ok(())
    }

    /// Looks a packed name up, returning the index of the first match.
    pub fn find_room(&self, key: u64) -> (r: Option<usize>)
        requires
            catalog_wf(self@),
        ensures
            match r {
                Some(i) => i < self@.len() && key_of(self@[i as int].name) == key
                    && spec_find_room(self@, key, 0) == i,
                None => spec_find_room(self@, key, 0) == -1,
            },
    {
        let n = self.rooms.len();
        let mut i: usize = 0;
        while i < n
            invariant
                catalog_wf(self@),
                n == self@.len(),
                0 <= i <= n,
                spec_find_room(self@, key, 0) == spec_find_room(self@, key, i as int),
            decreases n - i,
        {
            let k = key_of_bytes(self.rooms[i].name.as_slice());
            proof {
                assert(self@[i as int] == self.rooms@[i as int]@);
            }
            if k == key {
                return Some(i);
            }
            i += 1;
        }
        None
    }
}

/// The packed names of the first `n` catalog entries, exclusions
/// dropped, in catalog order.
pub open spec fn room_keys(cat: Seq<RoomV>, n: int) -> Seq<u64>
    decreases n,
{
    if n <= 0 {
        Seq::empty()
    } else {
        let rest = room_keys(cat, n - 1);
        let k = key_of(cat[n - 1].name);
        if excluded_room_key(k) {
            rest
        } else {
            rest.push(k)
        }
    }
}

/// The ordering the destination list is sorted by.
pub open spec fn key_le() -> spec_fn(u64, u64) -> bool {
    |x: u64, y: u64| x <= y
}

/// The candidate warp destinations: every non-excluded packed name, in
/// ascending key order.
pub open spec fn warp_target_keys(cat: Seq<RoomV>) -> Seq<u64> {
    room_keys(cat, cat.len() as int).sort_by(key_le())
}

/// Ascending order, stated directly over the elements.
pub open spec fn keys_sorted(s: Seq<u64>) -> bool {
    forall|a: int, b: int| 0 <= a < b < s.len() ==> s[a] <= s[b]
}

/// Sorts a key vector ascending by insertion into a fresh vector.
fn sort_keys(v: Vec<u64>) -> (r: Vec<u64>)
    ensures
        r@ == v@.sort_by(key_le()),
        r@.len() == v@.len(),
{
    let n = v.len();
    let mut r: Vec<u64> = Vec::new();
    proof {
        assert(r@ =~= v@.take(0));
    }
    for i in 0..n
        invariant
            n == v@.len(),
            keys_sorted(r@),
            r@.to_multiset() == v@.take(i as int).to_multiset(),
            r@.len() == i,
    {
        proof {
            broadcast use vstd::seq_lib::to_multiset_insert;
            broadcast use vstd::seq_lib::group_to_multiset_ensures;

        }
        let x = v[i];
        let mut j: usize = 0;
        while j < r.len() && r[j] <= x
            invariant
                keys_sorted(r@),
                0 <= j <= r@.len(),
                forall|t: int| 0 <= t < j ==> r@[t] <= x,
            decreases r@.len() - j,
        {
            j += 1;
        }
        let ghost rpre = r@;
        let ghost jj = j as int;
        proof {
            assert(jj == rpre.len() || !(rpre[jj] <= x));
        }
        r.insert(j, x);
        proof {
            assert(r@ == rpre.insert(jj, x));
            assert(r@.len() == rpre.len() + 1);
            assert(forall|t: int| 0 <= t < jj ==> r@[t] == rpre[t]);
            assert(r@[jj] == x);
            assert(forall|t: int| jj < t < r@.len() ==> r@[t] == rpre[t - 1]);
            assert(v@.take(i + 1).drop_last() =~= v@.take(i as int));
            assert(v@.take(i + 1) == v@.take(i as int).push(x));
            assert(r@.to_multiset() == v@.take(i + 1).to_multiset());
            assert forall|a: int, b: int| 0 <= a < b < r@.len() implies r@[a] <= r@[b] by {
                if b < jj {
                } else if a < jj && b == jj {
                    assert(rpre[a] <= x);
                } else if a < jj && b > jj {
                    assert(rpre[a] <= rpre[b - 1]);
                } else if a == jj {
                    assert(b > jj && b - 1 < rpre.len());
                    assert(jj < rpre.len());
                    assert(!(rpre[jj] <= x));
                    if b - 1 > jj {
                        assert(rpre[jj] <= rpre[b - 1]);
                    }
                    assert(x <= rpre[b - 1]);
                } else {
                    assert(rpre[a - 1] <= rpre[b - 1]);
                }
            }
            assert(keys_sorted(r@));
        }
    }
    proof {
        let leq = key_le();
        assert(total_ordering(leq));
        assert(sorted_by(r@, leq));
        assert(v@.take(n as int) =~= v@);
        v@.lemma_sort_by_ensures(leq);
        lemma_sorted_unique(r@, v@.sort_by(leq), leq);
        assert(r@ =~= v@.sort_by(leq));
    }
    r
}

/// Builds the sorted list of candidate warp destinations.
pub fn build_warp_target_keys(cat: &Catalog) -> (r: Vec<u64>)
    requires
        catalog_wf(cat@),
    ensures
        r@ == warp_target_keys(cat@),
        r@.len() <= cat@.len(),
{
    let n = cat.rooms.len();
    let mut v: Vec<u64> = Vec::new();
    for i in 0..n
        invariant
            catalog_wf(cat@),
            n == cat@.len(),
            v@.len() <= i,
            v@ == room_keys(cat@, i as int),
    {
        proof {
            assert(cat@[i as int] == cat.rooms@[i as int]@);
        }
        let k = key_of_bytes(cat.rooms[i].name.as_slice());
        if !is_excluded_key(k) {
            v.push(k);
        }
    }
    sort_keys(v)
}


/// Every key in `room_keys` is a catalog name and is not excluded.
proof fn lemma_room_keys_sound(cat: Seq<RoomV>, n: int)
    requires
        n <= cat.len(),
    ensures
        forall|t: int|
            0 <= t < room_keys(cat, n).len() ==> !excluded_room_key(#[trigger] room_keys(cat, n)[t])
                && exists|j: int| 0 <= j < n && key_of(cat[j].name) == room_keys(cat, n)[t],
    decreases n,
{
    if n > 0 {
        lemma_room_keys_sound(cat, n - 1);
        let rest = room_keys(cat, n - 1);
        let k = key_of(cat[n - 1].name);
        if !excluded_room_key(k) {
            assert forall|t: int| 0 <= t < room_keys(cat, n).len() implies !excluded_room_key(
                #[trigger] room_keys(cat, n)[t],
            ) && exists|j: int| 0 <= j < n && key_of(cat[j].name) == room_keys(cat, n)[t] by {
                if t < rest.len() {
                    assert(room_keys(cat, n)[t] == rest[t]);
                    let j = choose|j: int| 0 <= j < n - 1 && key_of(cat[j].name) == rest[t];
                    assert(0 <= j < n && key_of(cat[j].name) == room_keys(cat, n)[t]);
                } else {
                    assert(room_keys(cat, n)[t] == k);
                    assert(key_of(cat[n - 1].name) == room_keys(cat, n)[t]);
                }
            }
        }
    }
}

/// The candidate destination list is sound: every key it offers names a
/// catalog room, none of them is on the exclusion list, and the list is
/// in ascending key order.  Every warp destination drawn during a run
/// is picked from this list.
pub proof fn lemma_warp_targets_sound(cat: Seq<RoomV>)
    ensures
        keys_sorted(warp_target_keys(cat)),
        forall|t: int|
            0 <= t < warp_target_keys(cat).len() ==> !excluded_room_key(
                #[trigger] warp_target_keys(cat)[t],
            ) && exists|j: int|
                0 <= j < cat.len() && key_of(cat[j].name) == warp_target_keys(cat)[t],
{
    broadcast use vstd::seq_lib::group_to_multiset_ensures;

    let leq = key_le();
    let u = room_keys(cat, cat.len() as int);
    let srt = warp_target_keys(cat);
    lemma_room_keys_sound(cat, cat.len() as int);
    u.lemma_sort_by_ensures(leq);
    assert(sorted_by(srt, leq));
    assert forall|a: int, b: int| 0 <= a < b < srt.len() implies srt[a] <= srt[b] by {
        assert(leq(srt[a], srt[b]));
    }
    assert forall|t: int|
        0 <= t < srt.len() implies !excluded_room_key(#[trigger] srt[t]) && exists|j: int|
        0 <= j < cat.len() && key_of(cat[j].name) == srt[t] by {
        let x = srt[t];
        assert(srt.contains(x));
        assert(u.contains(x));
        let w = choose|w: int| 0 <= w < u.len() && u[w] == x;
        assert(u[w] == x);
    }
}

} // verus!
