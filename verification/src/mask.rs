//! The core-mask algebra: a fixed-width bit set that subdivides one core's
//! capacity within a timeslice. Regions carry a mask; interlacing splits a
//! mask into two disjoint parts whose union is the original.

use vstd::prelude::*;

verus! {

/// Number of capacity slots in one core's bitspace.
pub const CORE_MASK_BITS: u32 = 80;

/// All eighty mask bits set: the identity element of the mask algebra.
pub const COMPLETE_MASK: u128 = 0xffff_ffff_ffff_ffff_ffff;

/// A subset of one core's fixed-width capacity bitspace.
#[derive(Clone, Copy, PartialEq, Eq, Structural, Debug)]
pub struct CoreMask {
    pub bits: u128,
}

/// Number of set bits of `bits` below position `n`.
pub open spec fn ones_below(bits: u128, n: int) -> int
    decreases n,
{
    if n <= 0 {
        0
    } else {
        ones_below(bits, n - 1) + (if (bits >> ((n - 1) as u32)) & 1 == 1 {
            1int
        } else {
            0int
        })
    }
}

/// The population count of a mask: how many of the eighty slots it claims.
pub open spec fn mask_weight(m: CoreMask) -> int {
    ones_below(m.bits, CORE_MASK_BITS as int)
}

impl CoreMask {
    /// A mask is valid when it uses only the low eighty bits.
    pub open spec fn valid(self) -> bool {
        self.bits <= COMPLETE_MASK
    }

    pub open spec fn spec_is_empty(self) -> bool {
        self.bits == 0
    }

    pub open spec fn spec_is_complete(self) -> bool {
        self.bits == COMPLETE_MASK
    }

    pub open spec fn spec_subset_of(self, other: CoreMask) -> bool {
        self.bits & other.bits == self.bits
    }

    pub open spec fn spec_disjoint(self, other: CoreMask) -> bool {
        self.bits & other.bits == 0
    }

    pub open spec fn spec_union(self, other: CoreMask) -> CoreMask {
        CoreMask { bits: self.bits | other.bits }
    }

    pub open spec fn spec_without(self, other: CoreMask) -> CoreMask {
        CoreMask { bits: self.bits & !other.bits }
    }

    /// The complete mask: every capacity slot.
    pub fn complete() -> (r: CoreMask)
        ensures
            r.spec_is_complete(),
            r.valid(),
    {
        CoreMask { bits: COMPLETE_MASK }
    }

    /// The empty mask: no capacity slot.
    pub fn void() -> (r: CoreMask)
        ensures
            r.spec_is_empty(),
            r.valid(),
    {
        CoreMask { bits: 0 }
    }

    /// Builds a mask from raw bits, discarding anything above the eighty
    /// mask positions.
    pub fn from_bits(bits: u128) -> (r: CoreMask)
        ensures
            r.bits == bits & COMPLETE_MASK,
            r.valid(),
    {
        proof {
            assert(bits & 0xffff_ffff_ffff_ffff_ffff <= 0xffff_ffff_ffff_ffff_ffff)
                by (bit_vector);
        }
        CoreMask { bits: bits & COMPLETE_MASK }
    }

    pub fn is_empty(&self) -> (r: bool)
        ensures
            r == self.spec_is_empty(),
    {
        self.bits == 0
    }

    pub fn is_complete(&self) -> (r: bool)
        ensures
            r == self.spec_is_complete(),
    {
        self.bits == COMPLETE_MASK
    }

    pub fn subset_of(&self, other: &CoreMask) -> (r: bool)
        ensures
            r == self.spec_subset_of(*other),
    {
        self.bits & other.bits == self.bits
    }

    pub fn disjoint(&self, other: &CoreMask) -> (r: bool)
        ensures
            r == self.spec_disjoint(*other),
    {
        self.bits & other.bits == 0
    }

    pub fn union(&self, other: &CoreMask) -> (r: CoreMask)
        ensures
            r == self.spec_union(*other),
    {
        CoreMask { bits: self.bits | other.bits }
    }

    pub fn without(&self, other: &CoreMask) -> (r: CoreMask)
        ensures
            r == self.spec_without(*other),
    {
        CoreMask { bits: self.bits & !other.bits }
    }

    /// Counts the capacity slots the mask claims.
    pub fn count_ones(&self) -> (r: u32)
        ensures
            r == mask_weight(*self),
            r <= CORE_MASK_BITS,
    {
        let mut c: u32 = 0;
        let mut i: u32 = 0;
        while i < CORE_MASK_BITS
            invariant
                i <= CORE_MASK_BITS,
                c <= i,
                c == ones_below(self.bits, i as int),
            decreases CORE_MASK_BITS - i,
        {
            if (self.bits >> i) & 1 == 1 {
                c = c + 1;
            }
            i = i + 1;
        }
        c
    }
}

/// Splitting a mask at a proper, non-empty part yields two disjoint masks
/// whose union reproduces the whole; in particular the complement of a
/// proper part is itself non-empty.
pub proof fn lemma_mask_split(whole: u128, part: u128)
    by (bit_vector)
    requires
        part & whole == part,
        whole <= 0xffff_ffff_ffff_ffff_ffff,
    ensures
        ((whole & !part) | part) == whole,
        (part | (whole & !part)) == whole,
        (part & (whole & !part)) == 0,
        ((whole & !part) & part) == 0,
        whole & !part <= 0xffff_ffff_ffff_ffff_ffff,
        part <= 0xffff_ffff_ffff_ffff_ffff,
        part != whole ==> (whole & !part) != 0,
{
}

} // verus!
