//! Component bitmasks: one bit per registered component type.
//!
//! A mask is the bitwise OR of the bits of the types that are present. The
//! functions here say what that means for a sequence of presence flags, and
//! the lemmas relate the mask back to the flags it was made from.
use vstd::prelude::*;

verus! {

/// The number of component types a mask can tell apart.
pub const MAX_COMPONENT_TYPES: usize = 32;

/// The bit of the component type that was registered as number `k`,
/// counting from zero.
pub open spec fn bit(k: int) -> u32
    recommends
        0 <= k < 32,
{
    1u32 << (k as u32)
}

/// A mask covers a filter when every bit of the filter is set in the mask.
pub open spec fn covers(mask: u32, filter: u32) -> bool {
    mask & filter == filter
}

/// The bitwise OR of `bit(k)` over every position `k` whose flag is set.
pub open spec fn mask_of(present: Seq<bool>) -> u32
    decreases present.len(),
{
    if present.len() == 0 {
        0
    } else if present.last() {
        mask_of(present.drop_last()) | bit(present.len() - 1)
    } else {
        mask_of(present.drop_last())
    }
}

/// Computes the bit of position `k`.
pub fn bit_at(k: usize) -> (b: u32)
    requires
        k < MAX_COMPONENT_TYPES,
    ensures
        b == bit(k as int),
{
    1u32 << (k as u32)
}

/// Tests whether `mask` has every bit of `filter`.
pub fn mask_covers(mask: u32, filter: u32) -> (r: bool)
    ensures
        r == covers(mask, filter),
{
    mask & filter == filter
}

/// Different positions have different, non-zero, non-overlapping bits.
pub proof fn lemma_bits_disjoint(j: int, k: int)
    requires
        0 <= j < 32,
        0 <= k < 32,
    ensures
        bit(j) != 0,
        bit(j) & bit(k) != 0 <==> j == k,
        bit(j) == bit(k) <==> j == k,
{
    let a = j as u32;
    let b = k as u32;
    assert(a < 32 && b < 32 ==> (1u32 << a) != 0 && (((1u32 << a) & (1u32 << b) != 0) <==> a == b)
        && (((1u32 << a) == (1u32 << b)) <==> a == b)) by (bit_vector);
}

/// A mask made from flags that are all unset is zero.
pub proof fn lemma_mask_of_none(present: Seq<bool>)
    requires
        forall|k: int| 0 <= k < present.len() ==> !present[k],
    ensures
        mask_of(present) == 0,
    decreases present.len(),
{
    if present.len() > 0 {
        lemma_mask_of_none(present.drop_last());
    }
}

/// Appending a flag ORs in the bit of the new position when the flag is set
/// and leaves the mask alone when it is not.
pub proof fn lemma_mask_of_push(present: Seq<bool>, flag: bool)
    ensures
        mask_of(present.push(flag)) == if flag {
            mask_of(present) | bit(present.len() as int)
        } else {
            mask_of(present)
        },
{
    assert(present.push(flag).drop_last() =~= present);
}

/// Bit `k` of the mask is set exactly when flag `k` exists and is set.
pub proof fn lemma_mask_of_bit(present: Seq<bool>, k: int)
    requires
        present.len() <= 32,
        0 <= k < 32,
    ensures
        mask_of(present) & bit(k) != 0 <==> (k < present.len() && present[k]),
        covers(mask_of(present), bit(k)) <==> (k < present.len() && present[k]),
    decreases present.len(),
{
    let b = bit(k);
    lemma_bits_disjoint(k, k);
    if present.len() == 0 {
        assert(0u32 & b == 0) by (bit_vector);
    } else {
        let last = present.len() - 1;
        let rest = mask_of(present.drop_last());
        let c = bit(last);
        lemma_mask_of_bit(present.drop_last(), k);
        lemma_bits_disjoint(last, k);
        assert((rest | c) & b == (rest & b) | (c & b)) by (bit_vector);
        assert(((rest & b) | (c & b) != 0) <==> (rest & b != 0 || c & b != 0)) by (bit_vector);
    }
    let m = mask_of(present);
    assert(b != 0 && b & b != 0 ==> ((m & b != 0) <==> (m & b == b))) by (bit_vector)
        requires
            exists|s: u32| s < 32 && b == 1u32 << s,
    ;
}

/// Setting flag `k` ORs bit `k` into the mask.
pub proof fn lemma_mask_of_set(present: Seq<bool>, k: int)
    requires
        0 <= k < present.len(),
    ensures
        mask_of(present.update(k, true)) == mask_of(present) | bit(k),
    decreases present.len(),
{
    let after = present.update(k, true);
    let last = present.len() - 1;
    let rest = mask_of(present.drop_last());
    let c = bit(last);
    if k == last {
        assert(after.drop_last() =~= present.drop_last());
        assert((rest | c) | c == rest | c) by (bit_vector);
    } else {
        let b = bit(k);
        assert(after.drop_last() =~= present.drop_last().update(k, true));
        lemma_mask_of_set(present.drop_last(), k);
        assert((rest | b) | c == (rest | c) | b) by (bit_vector);
    }
}

/// A mask covers another exactly when every flag that is set in the second
/// is set in the first.
pub proof fn lemma_covers_pointwise(have: Seq<bool>, want: Seq<bool>)
    requires
        have.len() == want.len(),
        want.len() <= 32,
    ensures
        covers(mask_of(have), mask_of(want)) <==> (forall|k: int|
            0 <= k < want.len() && want[k] ==> have[k]),
{
    let mh = mask_of(have);
    let mw = mask_of(want);
    if covers(mh, mw) {
        assert forall|k: int| 0 <= k < want.len() && want[k] implies have[k] by {
            let b = bit(k);
            lemma_mask_of_bit(want, k);
            lemma_mask_of_bit(have, k);
            assert(mh & mw == mw && mw & b != 0 ==> mh & b != 0) by (bit_vector);
        }
    }
    if forall|k: int| 0 <= k < want.len() && want[k] ==> have[k] {
        lemma_pointwise_covers(have, want);
    }
}

proof fn lemma_pointwise_covers(have: Seq<bool>, want: Seq<bool>)
    requires
        have.len() == want.len(),
        forall|k: int| 0 <= k < want.len() && want[k] ==> have[k],
    ensures
        covers(mask_of(have), mask_of(want)),
    decreases want.len(),
{
    if want.len() == 0 {
        assert(0u32 & 0u32 == 0u32) by (bit_vector);
    } else {
        let a = mask_of(have.drop_last());
        let c = mask_of(want.drop_last());
        let b = bit(want.len() - 1);
        lemma_pointwise_covers(have.drop_last(), want.drop_last());
        assert(a & c == c ==> (a | b) & (c | b) == (c | b) && (a | b) & c == c) by (bit_vector);
    }
}

} // verus!
