//! The 32-byte fingerprint that summarises one payout plan.

use vstd::prelude::*;
use vstd::std_specs::cmp::PartialEqSpecImpl;

verus! {

/// An opaque 32-byte root. The all-zero root stands for "no root".
#[derive(Debug, Clone, Copy, Eq)]
pub struct MerkleRoot {
    pub root: [u8; 32],
}

impl View for MerkleRoot {
    type V = Seq<u8>;

    open spec fn view(&self) -> Seq<u8> {
        self.root@
    }
}

impl PartialEq for MerkleRoot {
    /// Two roots are equal when all their bytes are.
    fn eq(&self, other: &Self) -> (r: bool) {
        let mut i: usize = 0;
        while i < 32
            invariant
                i <= 32,
                forall|j: int| 0 <= j < i ==> self.root[j] == other.root[j],
            decreases 32 - i,
        {
            if self.root[i] != other.root[i] {
                return false;
            }
            i += 1;
        }
        assert(self.root =~= other.root);
        true
    }
}

impl PartialEqSpecImpl for MerkleRoot {
    open spec fn obeys_eq_spec() -> bool {
        true
    }

    open spec fn eq_spec(&self, other: &Self) -> bool {
        *self == *other
    }
}

impl MerkleRoot {
    /// Every byte of the root is zero.
    pub open spec fn spec_is_empty(&self) -> bool {
        forall|i: int| 0 <= i < 32 ==> self.root[i] == 0
    }

    /// Tells whether this is the all-zero root.
    #[verifier::when_used_as_spec(spec_is_empty)]
    pub fn is_empty(&self) -> (empty: bool)
        ensures
            empty == self.spec_is_empty(),
    {
        let mut i: usize = 0;
        while i < 32
            invariant
                i <= 32,
                forall|j: int| 0 <= j < i ==> self.root[j] == 0,
            decreases 32 - i,
        {
            if self.root[i] > 0 {
                return false;
            }
            i += 1;
        }
        true
    }
}

impl Default for MerkleRoot {
    /// The all-zero root.
    fn default() -> (root: Self)
        ensures
            root.spec_is_empty(),
    {
        Self { root: [0u8; 32] }
    }
}

} // verus!
