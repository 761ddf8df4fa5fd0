//! The 128-bit xorshift pseudo-random source.
//!
//! Every downstream randomization decision depends on this generator and
//! nothing else, so each drawing operation has an exact functional
//! contract: the new state and the drawn value are pinned down as pure
//! functions of the old state.  Reproducibility of a whole run follows
//! from these contracts.

use vstd::prelude::*;

verus! {

/// Generator state: four 32-bit words, the 128-bit seed split into
/// little-endian limbs.
#[derive(Clone, Copy, PartialEq, Eq, Structural, Debug)]
pub struct Xs {
    pub x0: u32,
    pub x1: u32,
    pub x2: u32,
    pub x3: u32,
}

/// The mixing function of one draw: combines the oldest word `d` with the
/// newest word `a` to produce the next output word.  All shifts discard
/// the bits shifted out, so no operation here can overflow.
pub open spec fn xs_mix(a: u32, d: u32) -> u32 {
    let t1 = d ^ (d << 11);
    let t2 = t1 ^ (t1 >> 8);
    t2 ^ a ^ (a >> 19)
}

/// One full step of the generator: the window `(x0, x1, x2)` shifts into
/// `(x1, x2, x3)`, and the new `x0` (which is also the output) mixes the
/// old `x0` and `x3`.
pub open spec fn xs_step(s: Xs) -> Xs {
    Xs { x0: xs_mix(s.x0, s.x3), x1: s.x0, x2: s.x1, x3: s.x2 }
}

/// The value `xs_u32` returns when drawing from `[min, one_past_max)`.
pub open spec fn xs_uniform_val(s: Xs, min: u32, one_past_max: u32) -> int
    recommends
        min < one_past_max,
{
    min + (xs_step(s).x0 as int) % (one_past_max - min)
}

/// The state after splitting a 128-bit seed into four little-endian limbs.
pub open spec fn seed_state(seed: u128) -> Xs {
    Xs {
        x0: (seed & 0xFFFF_FFFF) as u32,
        x1: ((seed >> 32) & 0xFFFF_FFFF) as u32,
        x2: ((seed >> 64) & 0xFFFF_FFFF) as u32,
        x3: ((seed >> 96) & 0xFFFF_FFFF) as u32,
    }
}

/// Builds the generator state from a resolved seed.  Zero is reserved by
/// callers to mean "pick a seed elsewhere"; an all-zero state would only
/// ever draw zeros.
pub fn xs_from_seed(seed: u128) -> (r: Xs)
    requires
        seed != 0,
    ensures
        r == seed_state(seed),
{
    Xs {
        x0: (seed & 0xFFFF_FFFF) as u32,
        x1: ((seed >> 32) & 0xFFFF_FFFF) as u32,
        x2: ((seed >> 64) & 0xFFFF_FFFF) as u32,
        x3: ((seed >> 96) & 0xFFFF_FFFF) as u32,
    }
}

/// Advances the generator one step and returns the new first word.
pub fn xorshift(xs: &mut Xs) -> (r: u32)
    ensures
        *final(xs) == xs_step(*old(xs)),
        r == final(xs).x0,
{
    let t0 = xs.x3;

    xs.x3 = xs.x2;
    xs.x2 = xs.x1;
    xs.x1 = xs.x0;

    let t1 = t0 ^ (t0 << 11);
    let t2 = t1 ^ (t1 >> 8);
    xs.x0 = t2 ^ xs.x0 ^ (xs.x0 >> 19);

    xs.x0
}

/// Draws a value in `[min, one_past_max)` by reducing one generator output
/// modulo the range width.  The modulo bias for widths that do not divide
/// `2^32` is a documented property of the scheme, kept as-is.
pub fn xs_u32(xs: &mut Xs, min: u32, one_past_max: u32) -> (r: u32)
    requires
        min < one_past_max,
    ensures
        *final(xs) == xs_step(*old(xs)),
        r == xs_uniform_val(*old(xs), min, one_past_max),
        min <= r < one_past_max,
{
    (xorshift(xs) % (one_past_max - min)) + min
}

/// Picks one element of a non-empty slice, uniformly up to modulo bias.
pub fn xs_choice(xs: &mut Xs, slice: &[u32]) -> (r: u32)
    requires
        0 < slice@.len() < 0xFFFF_FFFF,
    ensures
        *final(xs) == xs_step(*old(xs)),
        r == slice@[xs_uniform_val(*old(xs), 0, slice@.len() as u32)],
        slice@.contains(r),
{
    let len = slice.len();
    let i = xs_u32(xs, 0, len as u32) as usize;
    let r = slice[i];
    proof {
        assert(slice@[i as int] == r);
    }
    r
}

/// Picks one element of a non-empty slice of strings.
pub fn xs_choice_str<'a>(xs: &mut Xs, slice: &[&'a str]) -> (r: &'a str)
    requires
        0 < slice@.len() < 0xFFFF_FFFF,
    ensures
        *final(xs) == xs_step(*old(xs)),
        r == slice@[xs_uniform_val(*old(xs), 0, slice@.len() as u32)],
        slice@.contains(r),
{
    let len = slice.len();
    let i = xs_u32(xs, 0, len as u32) as usize;
    let r = slice[i];
    proof {
        assert(slice@[i as int] == r);
    }
    r
}

/// The sequence and state after the in-place shuffle has processed
/// indices `[i, len - 2)`.  Index `i` is swapped with a drawn index in
/// `[i, len)`; the pass stops one index short of a full Fisher-Yates
/// permutation, a documented property that seed reproducibility depends
/// on.
pub open spec fn shuffle_from(s: Xs, v: Seq<u32>, i: int) -> (Xs, Seq<u32>)
    decreases v.len() - 2 - i,
{
    if i < 0 || i >= v.len() - 2 {
        (s, v)
    } else {
        let s1 = xs_step(s);
        let j = i + (s1.x0 as int) % (v.len() - i);
        let v1 = v.update(i, v[j]).update(j, v[i]);
        shuffle_from(s1, v1, i + 1)
    }
}

/// The state and sequence produced by `xs_shuffle`.
pub open spec fn xs_shuffle_spec(s: Xs, v: Seq<u32>) -> (Xs, Seq<u32>) {
    shuffle_from(s, v, 0)
}

/// Each processed index swaps two positions, so every partial pass keeps
/// the multiset of elements.
proof fn lemma_shuffle_from_multiset(s: Xs, v: Seq<u32>, i: int)
    ensures
        shuffle_from(s, v, i).1.to_multiset() == v.to_multiset(),
        shuffle_from(s, v, i).1.len() == v.len(),
    decreases v.len() - 2 - i,
{
    broadcast use vstd::seq_lib::to_multiset_update;
    broadcast use vstd::seq_lib::group_to_multiset_ensures;
    broadcast use vstd::multiset::group_multiset_axioms;
    broadcast use vstd::multiset::group_multiset_properties;

    if i < 0 || i >= v.len() - 2 {
    } else {
        let s1 = xs_step(s);
        let j = i + (s1.x0 as int) % (v.len() - i);
        let m = v.to_multiset();
        let u1 = v.update(i, v[j]);
        let v1 = u1.update(j, v[i]);
        assert(v.contains(v[i]) && v.contains(v[j]));
        assert(m.count(v[i]) >= 1 && m.count(v[j]) >= 1);
        assert(u1.to_multiset() == m.insert(v[j]).remove(v[i]));
        assert(u1[j] == v[j]);
        assert(v1.to_multiset() == u1.to_multiset().insert(v[i]).remove(v[j]));
        assert(v1.to_multiset() =~= m);
        lemma_shuffle_from_multiset(s1, v1, i + 1);
    }
}

/// Shuffling permutes the elements: the result holds exactly the elements
/// of the input, with multiplicity.
pub proof fn lemma_shuffle_permutes(s: Xs, v: Seq<u32>)
    ensures
        xs_shuffle_spec(s, v).1.to_multiset() == v.to_multiset(),
        xs_shuffle_spec(s, v).1.len() == v.len(),
{
    lemma_shuffle_from_multiset(s, v, 0);
}

/// The pass stops one swap short of a full permutation, so a two-element
/// sequence is never reordered and the generator state is not advanced.
pub proof fn lemma_shuffle_len2_identity(s: Xs, v: Seq<u32>)
    requires
        v.len() == 2,
    ensures
        xs_shuffle_spec(s, v) == (s, v),
{
}

/// The final swap step of a complete Fisher-Yates pass, the one that
/// would place index `len - 2`, never happens: the pass is already
/// finished when it reaches that index, so the element at the last
/// index is never the target of a final swap.
pub proof fn lemma_shuffle_stops_short(s: Xs, v: Seq<u32>)
    requires
        v.len() >= 2,
    ensures
        shuffle_from(s, v, v.len() - 2) == (s, v),
{
}

/// Shuffles the vector in place with a partial Fisher-Yates pass driven
/// by the generator.
pub fn xs_shuffle(xs: &mut Xs, v: &mut Vec<u32>)
    requires
        old(v)@.len() <= 0xFFFF_FFFF,
    ensures
        (*final(xs), final(v)@) == xs_shuffle_spec(*old(xs), old(v)@),
        final(v)@.to_multiset() == old(v)@.to_multiset(),
        final(v)@.len() == old(v)@.len(),
{
    proof {
        lemma_shuffle_permutes(*xs, v@);
    }
    let ghost s0 = *xs;
    let ghost v0 = v@;
    let len = v.len();
    if len < 2 {
        return;
    }
    for i in 0..(len - 2)
        invariant
            len == v@.len(),
            2 <= len <= 0xFFFF_FFFF,
            shuffle_from(s0, v0, 0) == shuffle_from(*xs, v@, i as int),
    {
        let j = xs_u32(xs, i as u32, len as u32) as usize;
        let vi = v[i];
        let vj = v[j];
        v[i] = vj;
        v[j] = vi;
    }
}


} // verus!
