//! Unhardened derivation indexes.
//!
//! A [`NormalIndex`] is a derivation-path component below the hardened
//! boundary `2^31`; such components can be derived from public key material
//! alone. The type keeps its invariant internally and offers a checked
//! increment which reports exhaustion at the upper bound instead of wrapping.

use vstd::prelude::*;

verus! {

/// The first hardened index: unhardened indexes lie strictly below it.
pub const HARDENED_INDEX_BOUNDARY: u32 = 0x8000_0000;

/// An unhardened (normal) derivation index in `[0, 2^31 - 1]`.
#[derive(Clone, Copy, PartialEq, Eq, Structural, PartialOrd, Ord, Hash, Debug)]
pub struct NormalIndex {
    idx: u32,
}

impl View for NormalIndex {
    type V = nat;

    closed spec fn view(&self) -> nat {
        self.idx as nat
    }
}

impl NormalIndex {
    /// The invariant every `NormalIndex` maintains: the value is unhardened.
    #[verifier::type_invariant]
    pub closed spec fn inv(self) -> bool {
        self.idx < HARDENED_INDEX_BOUNDARY
    }

    /// Largest value an unhardened index can take.
    pub open spec fn max_spec() -> nat {
        (HARDENED_INDEX_BOUNDARY - 1) as nat
    }

    /// Builds an unhardened index; rejects values in the hardened range.
    pub fn new(index: u32) -> (r: Option<NormalIndex>)
        ensures
            index < HARDENED_INDEX_BOUNDARY <==> r is Some,
            r matches Some(n) ==> n@ == index,
    {
        if index < HARDENED_INDEX_BOUNDARY {
            Some(NormalIndex { idx: index })
        } else {
            None
        }
    }

    /// The index with the smallest value.
    pub fn zero() -> (r: NormalIndex)
        ensures
            r@ == 0,
    {
        NormalIndex { idx: 0 }
    }

    /// The index with the largest unhardened value.
    pub fn max() -> (r: NormalIndex)
        ensures
            r@ == NormalIndex::max_spec(),
    {
        NormalIndex { idx: HARDENED_INDEX_BOUNDARY - 1 }
    }

    /// The numeric value of the index.
    pub fn value(&self) -> (r: u32)
        ensures
            r == self@,
            r < HARDENED_INDEX_BOUNDARY,
    {
        proof {
            use_type_invariant(self);
        }
        self.idx
    }

    /// The invariant bounds the value below the hardened boundary.
    pub proof fn lemma_inv_bound(self)
        requires
            self.inv(),
        ensures
            self@ < HARDENED_INDEX_BOUNDARY,
    {
    }

    /// The index `k` places after this one (ghost arithmetic on indexes).
    pub closed spec fn spec_add(self, k: int) -> NormalIndex {
        NormalIndex { idx: (self.idx + k) as u32 }
    }

    /// `spec_add` adds on the numeric value while the sum stays unhardened.
    pub proof fn lemma_spec_add(self, k: int)
        requires
            0 <= self@ + k < HARDENED_INDEX_BOUNDARY,
        ensures
            self.spec_add(k)@ == self@ + k,
    {
    }

    /// Indexes with equal values are equal.
    pub proof fn lemma_view_injective(a: NormalIndex, b: NormalIndex)
        requires
            a@ == b@,
        ensures
            a == b,
    {
    }

    /// Builds an index from a value already known to be unhardened.
    pub(crate) fn from_checked(index: u32) -> (r: NormalIndex)
        requires
            index < HARDENED_INDEX_BOUNDARY,
        ensures
            r@ == index,
    {
        NormalIndex { idx: index }
    }

    /// Checked increment: the successor index, or `None` when the index
    /// already sits at the unhardened upper bound. Never wraps.
    pub fn checked_inc(&self) -> (r: Option<NormalIndex>)
        ensures
            self@ == NormalIndex::max_spec() <==> r is None,
            r matches Some(n) ==> n@ == self@ + 1,
    {
        proof {
            use_type_invariant(self);
        }
        if self.idx == HARDENED_INDEX_BOUNDARY - 1 {
            None
        } else {
            Some(NormalIndex { idx: self.idx + 1 })
        }
    }
}

} // verus!
