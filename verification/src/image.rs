//! The binary patch writer.
//!
//! The target binary lives in memory as a byte vector; every operation
//! here is an exact read-modify-write at a computed offset, stated over
//! the byte sequence.  Offsets that fall outside the image are reported
//! as errors instead of growing the image: the buffer is always pre-sized
//! by the caller's initial full-file copy.

use vstd::prelude::*;

verus! {

/// Pointer base that room-relative offsets are measured against.
pub const ROOM_BASE_PTR: u32 = 0x8024_0000;

/// Why a patch operation or a whole run was refused or aborted.
#[derive(Clone, Copy, PartialEq, Eq, Structural, Debug)]
pub enum RomError {
    /// The image does not carry the expected signature.
    BadSignature,
    /// A computed offset does not fall inside the image.
    OutOfBounds,
    /// A room name read from the image is not in the catalog.
    UnknownRoom,
    /// No rooms are available as warp destinations.
    NoWarpTargets,
    /// A drawn destination room has no entrances to pick from.
    NoEntrances,
}

/// The big-endian 32-bit value stored at `off`.
pub open spec fn load_u32(s: Seq<u8>, off: int) -> u32
    recommends
        0 <= off,
        off + 4 <= s.len(),
{
    ((s[off] as u32) << 24) | ((s[off + 1] as u32) << 16) | ((s[off + 2] as u32) << 8) | (s[off
        + 3] as u32)
}

/// The image after storing `v` at `off` as four big-endian bytes.
pub open spec fn store_u32(s: Seq<u8>, off: int, v: u32) -> Seq<u8>
    recommends
        0 <= off,
        off + 4 <= s.len(),
{
    s.update(off, (v >> 24) as u8).update(off + 1, ((v >> 16) & 0xFF) as u8).update(
        off + 2,
        ((v >> 8) & 0xFF) as u8,
    ).update(off + 3, (v & 0xFF) as u8)
}

/// The image after storing the bytes `bs` starting at `off`.
pub open spec fn store_bytes(s: Seq<u8>, off: int, bs: Seq<u8>) -> Seq<u8>
    recommends
        0 <= off,
        off + bs.len() <= s.len(),
{
    Seq::new(s.len(), |k: int| if off <= k < off + bs.len() { bs[k - off] } else { s[k] })
}

/// Reads the big-endian 32-bit value at `off`.
pub fn read_u32_at(image: &Vec<u8>, off: usize) -> (r: u32)
    requires
        off + 4 <= image@.len(),
    ensures
        r == load_u32(image@, off as int),
{
    let len = image.len();
    assert(off + 4 <= len);
    ((image[off] as u32) << 24) | ((image[off + 1] as u32) << 16) | ((image[off + 2] as u32) << 8)
        | (image[off + 3] as u32)
}

/// Writes `v` at `off` as four big-endian bytes.
pub fn write_u32_at(image: &mut Vec<u8>, off: usize, v: u32)
    requires
        off + 4 <= old(image)@.len(),
    ensures
        final(image)@ == store_u32(old(image)@, off as int, v),
        final(image)@.len() == old(image)@.len(),
{
    proof {
        assert((v >> 24) < 256 && ((v >> 16) & 0xFF) < 256 && ((v >> 8) & 0xFF) < 256 && (v & 0xFF)
            < 256) by (bit_vector);
    }
    let len = image.len();
    assert(off + 4 <= len);
    image[off] = (v >> 24) as u8;
    image[off + 1] = ((v >> 16) & 0xFF) as u8;
    image[off + 2] = ((v >> 8) & 0xFF) as u8;
    image[off + 3] = (v & 0xFF) as u8;
}

/// Storing and loading the same offset round-trips the value, and no byte
/// outside the four written ones changes.
pub proof fn lemma_store_load_u32(s: Seq<u8>, off: int, v: u32)
    requires
        0 <= off,
        off + 4 <= s.len(),
    ensures
        load_u32(store_u32(s, off, v), off) == v,
        store_u32(s, off, v).len() == s.len(),
        forall|k: int|
            0 <= k < s.len() && !(off <= k < off + 4) ==> store_u32(s, off, v)[k] == s[k],
{
    let b0 = (v >> 24) as u8;
    let b1 = ((v >> 16) & 0xFF) as u8;
    let b2 = ((v >> 8) & 0xFF) as u8;
    let b3 = (v & 0xFF) as u8;
    assert(((b0 as u32) << 24) | ((b1 as u32) << 16) | ((b2 as u32) << 8) | (b3 as u32) == v)
        by (bit_vector)
        requires
            b0 == (v >> 24) as u8,
            b1 == ((v >> 16) & 0xFF) as u8,
            b2 == ((v >> 8) & 0xFF) as u8,
            b3 == (v & 0xFF) as u8,
    ;
}

/// Writes the bytes of `bs` followed by one null byte, starting at `off`.
pub fn write_bytes_nul(image: &mut Vec<u8>, off: usize, bs: &[u8])
    requires
        off + bs@.len() + 1 <= old(image)@.len(),
    ensures
        final(image)@ == store_bytes(old(image)@, off as int, bs@ + seq![0u8]),
        final(image)@.len() == old(image)@.len(),
{
    let ghost s0 = image@;
    let ilen = image.len();
    let n = bs.len();
    for k in 0..n
        invariant
            off + n + 1 <= s0.len(),
            s0.len() == ilen,
            n == bs@.len(),
            image@ == store_bytes(s0, off as int, bs@.take(k as int)),
    {
        let b = bs[k];
        image[off + k] = b;
        proof {
            assert(image@ =~= store_bytes(s0, off as int, bs@.take(k + 1)));
        }
    }
    image[off + n] = 0;
    proof {
        assert(bs@.take(n as int) == bs@);
        assert(image@ =~= store_bytes(s0, off as int, bs@ + seq![0u8]));
    }
}

/// The result of rewriting one exit record.  The record's room-name
/// pointer sits at `room_ptr + warp_ptr - room_base + 0xC`; it is read
/// and kept, the entrance id is written into the field right after it,
/// and the destination name is written, null-terminated, where the
/// kept pointer aims.
pub open spec fn spec_rewrite_exit(
    s: Seq<u8>,
    room_ptr: u32,
    warp_ptr: u32,
    name: Seq<u8>,
    entrance: u32,
) -> Result<Seq<u8>, RomError> {
    let e_off = room_ptr + warp_ptr + 0xC - ROOM_BASE_PTR;
    if e_off < 0 || e_off + 8 > s.len() {
        Err(RomError::OutOfBounds)
    } else {
        let warp_room_ptr = load_u32(s, e_off);
        let s1 = store_u32(s, e_off + 4, entrance);
        let n_off = room_ptr + warp_room_ptr - ROOM_BASE_PTR;
        if n_off < 0 || n_off + name.len() + 1 > s.len() {
            Err(RomError::OutOfBounds)
        } else {
            Ok(store_bytes(s1, n_off, name + seq![0u8]))
        }
    }
}

/// Sets the exit record addressed by `room_ptr + warp_ptr` to lead to
/// `name` at entrance `entrance`.
pub fn rewrite_exit(
    image: &mut Vec<u8>,
    room_ptr: u32,
    warp_ptr: u32,
    name: &[u8],
    entrance: u32,
) -> (r: Result<(), RomError>)
    ensures
        match (r, spec_rewrite_exit(old(image)@, room_ptr, warp_ptr, name@, entrance)) {
            (Ok(()), Ok(s)) => final(image)@ == s,
            (Err(e1), Err(e2)) => e1 == e2,
            _ => false,
        },
        final(image)@.len() == old(image)@.len(),
{
    let ilen = image.len();
    let e_sum: u64 = room_ptr as u64 + warp_ptr as u64 + 0xC;
    if e_sum < ROOM_BASE_PTR as u64 {
        return Err(RomError::OutOfBounds);
    }
    let e_off: u64 = e_sum - ROOM_BASE_PTR as u64;
    if e_off > ilen as u64 {
        return Err(RomError::OutOfBounds);
    }
    if ilen - (e_off as usize) < 8 {
        return Err(RomError::OutOfBounds);
    }
    let e = e_off as usize;
    let warp_room_ptr = read_u32_at(image, e);
    write_u32_at(image, e + 4, entrance);

    let n_sum: u64 = room_ptr as u64 + warp_room_ptr as u64;
    if n_sum < ROOM_BASE_PTR as u64 {
        return Err(RomError::OutOfBounds);
    }
    let n_off: u64 = n_sum - ROOM_BASE_PTR as u64;
    if n_off > ilen as u64 {
        return Err(RomError::OutOfBounds);
    }
    if ilen - (n_off as usize) <= name.len() {
        return Err(RomError::OutOfBounds);
    }
    write_bytes_nul(image, n_off as usize, name);
    Ok(())
}

/// After a successful exit rewrite whose name range does not overlap the
/// exit record, reading the two fields back yields exactly the pair
/// that was written: the entrance id in the field after the room-name
/// pointer, and the name bytes followed by their null terminator where
/// that pointer aims.
pub proof fn lemma_rewrite_exit_round_trip(
    s: Seq<u8>,
    room_ptr: u32,
    warp_ptr: u32,
    name: Seq<u8>,
    entrance: u32,
)
    requires
        spec_rewrite_exit(s, room_ptr, warp_ptr, name, entrance) is Ok,
        ({
            let e_off = room_ptr + warp_ptr + 0xC - ROOM_BASE_PTR;
            let n_off = room_ptr + load_u32(s, e_off) - ROOM_BASE_PTR;
            n_off + name.len() + 1 <= e_off + 4 || e_off + 8 <= n_off
        }),
    ensures
        ({
            let e_off = room_ptr + warp_ptr + 0xC - ROOM_BASE_PTR;
            let n_off = room_ptr + load_u32(s, e_off) - ROOM_BASE_PTR;
            let out = spec_rewrite_exit(s, room_ptr, warp_ptr, name, entrance)->Ok_0;
            load_u32(out, e_off + 4) == entrance && out.subrange(n_off, n_off + name.len() + 1)
                == name + seq![0u8]
        }),
{
    let e_off = room_ptr + warp_ptr + 0xC - ROOM_BASE_PTR;
    let n_off = room_ptr + load_u32(s, e_off) - ROOM_BASE_PTR;
    let s1 = store_u32(s, e_off + 4, entrance);
    let out = store_bytes(s1, n_off, name + seq![0u8]);
    lemma_store_load_u32(s, e_off + 4, entrance);
    assert(out.subrange(n_off, n_off + name.len() + 1) =~= name + seq![0u8]);
    assert(load_u32(out, e_off + 4) == load_u32(s1, e_off + 4));
}

/// Whether the image carries the expected 11-byte signature at offset
/// 0x20.
pub open spec fn magic_ok(s: Seq<u8>) -> bool {
    s.len() >= 0x2B && s.subrange(0x20, 0x2B) == seq![
        0x50u8,
        0x41u8,
        0x50u8,
        0x45u8,
        0x52u8,
        0x20u8,
        0x4Du8,
        0x41u8,
        0x52u8,
        0x49u8,
        0x4Fu8,
    ]
}

/// Checks the signature bytes ("PAPER MARIO" in ASCII) at offset 0x20.
pub fn check_magic(image: &Vec<u8>) -> (r: bool)
    ensures
        r == magic_ok(image@),
{
    if image.len() < 0x2B {
        return false;
    }
    let r = image[0x20] == 0x50 && image[0x21] == 0x41 && image[0x22] == 0x50 && image[0x23] == 0x45
        && image[0x24] == 0x52 && image[0x25] == 0x20 && image[0x26] == 0x4D && image[0x27] == 0x41
        && image[0x28] == 0x52 && image[0x29] == 0x49 && image[0x2A] == 0x4F;
    proof {
        if r {
            assert(image@.subrange(0x20, 0x2B) =~= seq![
                0x50u8,
                0x41u8,
                0x50u8,
                0x45u8,
                0x52u8,
                0x20u8,
                0x4Du8,
                0x41u8,
                0x52u8,
                0x49u8,
                0x4Fu8,
            ]);
        } else {
            assert(magic_ok(image@) ==> image@.subrange(0x20, 0x2B)[0] == 0x50 && image@.subrange(
                0x20,
                0x2B,
            )[1] == 0x41 && image@.subrange(0x20, 0x2B)[2] == 0x50 && image@.subrange(0x20, 0x2B)[3]
                == 0x45 && image@.subrange(0x20, 0x2B)[4] == 0x52 && image@.subrange(0x20, 0x2B)[5]
                == 0x20 && image@.subrange(0x20, 0x2B)[6] == 0x4D && image@.subrange(0x20, 0x2B)[7]
                == 0x41 && image@.subrange(0x20, 0x2B)[8] == 0x52 && image@.subrange(0x20, 0x2B)[9]
                == 0x49 && image@.subrange(0x20, 0x2B)[10] == 0x4F);
        }
    }
    r
}

/// The image after the fixed code patches: six unconditional big-endian
/// words that enable gameplay features, plus one more in quick-start
/// mode.
pub open spec fn spec_code_patches(s: Seq<u8>, quick: bool) -> Result<Seq<u8>, RomError> {
    if s.len() < 0x168078 || (quick && s.len() < 0x168084) {
        Err(RomError::OutOfBounds)
    } else {
        let s1 = store_u32(s, 0x808A8, 0xA0820012);
        let s2 = store_u32(s1, 0x808AC, 0xA082000A);
        let s3 = store_u32(s2, 0x808B0, 0x2402FFFF);
        let s4 = store_u32(s3, 0x808E4, 0xA0800000);
        let s5 = store_u32(s4, 0x808E8, 0xA0A20014);
        let s6 = store_u32(s5, 0x168074, 0x2406FF81);
        if quick {
            Ok(store_u32(s6, 0x168080, 0x24020000))
        } else {
            Ok(s6)
        }
    }
}

/// Applies the fixed code patches: starting partner out, action command,
/// full party, menus, and in quick-start mode the skip of the opening
/// house scene.
pub fn apply_code_patches(image: &mut Vec<u8>, quick: bool) -> (r: Result<(), RomError>)
    ensures
        match (r, spec_code_patches(old(image)@, quick)) {
            (Ok(()), Ok(s)) => final(image)@ == s,
            (Err(e1), Err(e2)) => e1 == e2,
            _ => false,
        },
        final(image)@.len() == old(image)@.len(),
{
    if image.len() < 0x168078 {
        return Err(RomError::OutOfBounds);
    }
    if quick && image.len() < 0x168084 {
        return Err(RomError::OutOfBounds);
    }
    write_u32_at(image, 0x808A8, 0xA0820012);
    write_u32_at(image, 0x808AC, 0xA082000A);
    write_u32_at(image, 0x808B0, 0x2402FFFF);
    write_u32_at(image, 0x808E4, 0xA0800000);
    write_u32_at(image, 0x808E8, 0xA0A20014);
    write_u32_at(image, 0x168074, 0x2406FF81);
    if quick {
        write_u32_at(image, 0x168080, 0x24020000);
    }
    Ok(())
}

} // verus!
