//! The 32-byte identifiers of networks, operators, assets and records.

use vstd::prelude::*;
use vstd::std_specs::cmp::PartialEqSpecImpl;

verus! {

/// A 32-byte identifier. The all-zero identifier is the default one.
#[derive(Debug, Clone, Copy, Eq)]
pub struct Pubkey {
    bytes: [u8; 32],
}

impl View for Pubkey {
    type V = Seq<u8>;

    closed spec fn view(&self) -> Seq<u8> {
        self.bytes@
    }
}

impl PartialEq for Pubkey {
    /// Two identifiers are equal when all their bytes are.
    fn eq(&self, other: &Self) -> (r: bool) {
        let mut i: usize = 0;
        while i < 32
            invariant
                i <= 32,
                forall|j: int| 0 <= j < i ==> self.bytes[j] == other.bytes[j],
            decreases 32 - i,
        {
            if self.bytes[i] != other.bytes[i] {
                return false;
            }
            i += 1;
        }
        assert(self.bytes =~= other.bytes);
        true
    }
}

impl PartialEqSpecImpl for Pubkey {
    open spec fn obeys_eq_spec() -> bool {
        true
    }

    open spec fn eq_spec(&self, other: &Self) -> bool {
        *self == *other
    }
}

impl Pubkey {
    /// The identifier whose bytes are all zero.
    pub closed spec fn spec_default() -> Pubkey {
        Pubkey { bytes: vstd::array::spec_array_fill_for_copy_type::<u8, 32>(0u8) }
    }

    /// This is the all-zero identifier.
    pub open spec fn is_default(&self) -> bool {
        *self == Self::spec_default()
    }

    /// The identifier with these bytes.
    pub fn new_from_array(bytes: [u8; 32]) -> (key: Self)
        ensures
            key@ == bytes@,
    {
        Self { bytes }
    }

    /// The bytes of the identifier.
    pub fn to_bytes(&self) -> (bytes: [u8; 32])
        ensures
            bytes@ == self@,
    {
        self.bytes
    }

    /// Every identifier has 32 bytes, and two identifiers with the same bytes
    /// are the same identifier.
    pub proof fn lemma_view(a: Pubkey, b: Pubkey)
        ensures
            a@.len() == 32,
            (a@ == b@) == (a == b),
            forall|i: int| 0 <= i < 32 ==> Self::spec_default()@[i] == 0,
    {
        if a@ == b@ {
            assert(a.bytes =~= b.bytes);
        }
    }
}

impl Default for Pubkey {
    /// The all-zero identifier.
    fn default() -> (key: Self)
        ensures
            key == Pubkey::spec_default(),
    {
        Self { bytes: [0u8; 32] }
    }
}

} // verus!
