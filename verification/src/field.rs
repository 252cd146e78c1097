//! Integers of 256 bits, the plain form in which field elements travel
//! through the library.

use vstd::prelude::*;

verus! {

/// The integer that four little-endian limbs of 64 bits stand for.
pub open spec fn limbs_value(l0: u64, l1: u64, l2: u64, l3: u64) -> nat {
    (l0 as nat) + (l1 as nat) * 0x1_0000_0000_0000_0000 + (l2 as nat)
        * 0x1_0000_0000_0000_0000_0000_0000_0000_0000 + (l3 as nat)
        * 0x1_0000_0000_0000_0000_0000_0000_0000_0000_0000_0000_0000_0000
}

/// An integer below 2^256, held as four little-endian limbs.
///
/// Whether it is a member of a given prime field is decided by the scheme
/// that receives it: see [`FieldElement::is_below`].
#[derive(Clone, Copy, Debug, PartialEq, Eq, Structural)]
pub struct FieldElement {
    pub(crate) l0: u64,
    pub(crate) l1: u64,
    pub(crate) l2: u64,
    pub(crate) l3: u64,
}

impl DeepView for FieldElement {
    type V = nat;

    open spec fn deep_view(&self) -> nat {
        self.value()
    }
}

impl FieldElement {
    /// The integer that the element stands for.
    pub closed spec fn value(self) -> nat {
        limbs_value(self.l0, self.l1, self.l2, self.l3)
    }

    /// The four limbs, least significant first.
    pub closed spec fn spec_limbs(self) -> (u64, u64, u64, u64) {
        (self.l0, self.l1, self.l2, self.l3)
    }

    /// Two elements with the same value are the same element.
    pub proof fn lemma_value_injective(a: FieldElement, b: FieldElement)
        requires
            a.value() == b.value(),
        ensures
            a == b,
    {
        lemma_limb_order(a.l0, a.l1, a.l2, a.l3, b.l0, b.l1, b.l2, b.l3);
        lemma_limb_order(b.l0, b.l1, b.l2, b.l3, a.l0, a.l1, a.l2, a.l3);
    }

    /// The element with the given limbs, least significant first.
    pub fn from_limbs(l0: u64, l1: u64, l2: u64, l3: u64) -> (e: FieldElement)
        ensures
            e.value() == limbs_value(l0, l1, l2, l3),
            e.spec_limbs() == (l0, l1, l2, l3),
    {
        FieldElement { l0, l1, l2, l3 }
    }

    /// The limbs of the element, least significant first.
    pub fn limbs(&self) -> (l: [u64; 4])
        ensures
            l@ == seq![
                self.spec_limbs().0,
                self.spec_limbs().1,
                self.spec_limbs().2,
                self.spec_limbs().3,
            ],
            self.value() == limbs_value(l[0], l[1], l[2], l[3]),
    {
        [self.l0, self.l1, self.l2, self.l3]
    }

    /// The element that stands for a 64-bit integer.
    pub fn from_u64(x: u64) -> (e: FieldElement)
        ensures
            e.value() == x,
            e.spec_limbs() == (x, 0u64, 0u64, 0u64),
    {
        FieldElement { l0: x, l1: 0, l2: 0, l3: 0 }
    }

    /// The element that stands for zero.
    pub fn zero() -> (e: FieldElement)
        ensures
            e.value() == 0,
    {
        FieldElement { l0: 0, l1: 0, l2: 0, l3: 0 }
    }

    /// Whether the element is smaller than `bound`, as integers.
    pub fn is_below(&self, bound: &FieldElement) -> (b: bool)
        ensures
            b == (self.value() < bound.value()),
    {
        proof {
            lemma_limb_order(self.l0, self.l1, self.l2, self.l3, bound.l0, bound.l1, bound.l2, bound.l3);
            lemma_limb_order(bound.l0, bound.l1, bound.l2, bound.l3, self.l0, self.l1, self.l2, self.l3);
        }
        if self.l3 != bound.l3 {
            self.l3 < bound.l3
        } else if self.l2 != bound.l2 {
            self.l2 < bound.l2
        } else if self.l1 != bound.l1 {
            self.l1 < bound.l1
        } else {
            self.l0 < bound.l0
        }
    }
}

/// Limbs compared from the most significant down order the values.
proof fn lemma_limb_order(a0: u64, a1: u64, a2: u64, a3: u64, b0: u64, b1: u64, b2: u64, b3: u64)
    ensures
        a3 < b3 ==> limbs_value(a0, a1, a2, a3) < limbs_value(b0, b1, b2, b3),
        a3 == b3 && a2 < b2 ==> limbs_value(a0, a1, a2, a3) < limbs_value(b0, b1, b2, b3),
        a3 == b3 && a2 == b2 && a1 < b1 ==> limbs_value(a0, a1, a2, a3) < limbs_value(
            b0,
            b1,
            b2,
            b3,
        ),
        a3 == b3 && a2 == b2 && a1 == b1 && a0 < b0 ==> limbs_value(a0, a1, a2, a3) < limbs_value(
            b0,
            b1,
            b2,
            b3,
        ),
{
}

} // verus!
