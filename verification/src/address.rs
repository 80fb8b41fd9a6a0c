//! Derived addresses: where the record of a given kind and key is stored.
//!
//! An address is derived from a list of seeds (a namespace and the key
//! fields of the record) and the identifier of the program that owns the
//! record, together with the bump seed that makes the derivation succeed.

use crate::pubkey::Pubkey;
use vstd::prelude::*;
use vstd::slice::slice_to_vec;

verus! {

/// The seeds as sequences of bytes.
pub open spec fn seed_bytes(seeds: &Vec<Vec<u8>>) -> Seq<Seq<u8>> {
    Seq::new(seeds@.len(), |i: int| seeds@[i]@)
}

/// The address and bump seed that `solana_program`'s
/// `Pubkey::try_find_program_address` derives from the seeds and the bytes of
/// the program's identifier, where it derives one.
pub uninterp spec fn program_address(seeds: Seq<Seq<u8>>, program_id: Seq<u8>) -> Option<
    (Seq<u8>, u8),
>;

/// What a derivation found, with the address as its bytes.
pub open spec fn address_bytes(found: Option<(Pubkey, u8)>) -> Option<(Seq<u8>, u8)> {
    match found {
        Some((address, bump)) => Some((address@, bump)),
        None => None,
    }
}

/// `address` and `bump` are what the seeds derive for the program.
pub open spec fn derives(seeds: Seq<Seq<u8>>, program_id: Pubkey, address: Pubkey, bump: u8)
    -> bool {
    program_address(seeds, program_id@) == Some((address@, bump))
}

/// Calls `solana_program::pubkey::Pubkey::try_find_program_address`, which is
/// a function of its arguments alone. The contract gives its result the name
/// [`program_address`] and claims nothing else of it.
#[verifier::external_body]
pub(crate) fn find_address(seeds: &Vec<Vec<u8>>, program_id: &Pubkey) -> (found: Option<
    (Pubkey, u8),
>)
    ensures
        address_bytes(found) == program_address(seed_bytes(seeds), program_id@),
{
    let slices: Vec<&[u8]> = seeds.iter().map(|seed| seed.as_slice()).collect();
    let program = solana_program::pubkey::Pubkey::new_from_array(program_id.to_bytes());
    match solana_program::pubkey::Pubkey::try_find_program_address(&slices, &program) {
        Some((address, bump)) => Some((Pubkey::new_from_array(address.to_bytes()), bump)),
        None => None,
    }
}

/// The bytes of an identifier as a seed.
pub fn key_seed(key: &Pubkey) -> (seed: Vec<u8>)
    ensures
        seed@ == key@,
{
    let bytes = key.to_bytes();
    slice_to_vec(bytes.as_slice())
}

/// The seeds of a derived address with its bump seed behind them: the
/// seeds under which the record at that address is created.
pub open spec fn seeds_with_bump(seeds: Seq<Seq<u8>>, bump: u8) -> Seq<Seq<u8>> {
    seeds.push(seq![bump])
}

/// Checks that `key` is the address that was derived for a record, and
/// gives the seeds under which the record is created there: those of the
/// derivation, with the bump seed behind them.
pub fn stored_at(key: &Pubkey, derived: (Pubkey, u8, Vec<Vec<u8>>)) -> (r: Result<
    Vec<Vec<u8>>,
    AccountError,
>)
    ensures
        match r {
            Ok(seeds) => *key == derived.0 && seed_bytes(&seeds) == seeds_with_bump(
                seed_bytes(&derived.2),
                derived.1,
            ),
            Err(e) => *key != derived.0 && e == AccountError::InvalidAccountData,
        },
{
    let (address, bump, mut seeds) = derived;
    if *key != address {
        return Err(AccountError::InvalidAccountData);
    }
    let ghost before = seed_bytes(&seeds);
    let mut last: Vec<u8> = Vec::new();
    last.push(bump);
    seeds.push(last);
    assert(seed_bytes(&seeds) =~= seeds_with_bump(before, bump));
    Ok(seeds)
}

/// What a stored record shows to the one who loads it.
#[derive(Debug)]
pub struct Account {
    /// The address at which the record is stored.
    pub key: Pubkey,
    /// The program that owns the record.
    pub owner: Pubkey,
    /// Whether the current operation may write the record.
    pub is_writable: bool,
    /// The bytes of the record, the first of which tells its kind.
    pub data: Vec<u8>,
}

/// Why a stored record is refused.
#[derive(Debug, Clone, Copy, PartialEq, Eq, Structural)]
pub enum AccountError {
    /// The record belongs to another program.
    InvalidAccountOwner,
    /// The record is empty, of another kind, not writable where it has to
    /// be, or stored at another address than its key fields derive.
    InvalidAccountData,
}

impl Account {
    /// The outcome of looking at the record itself: it has to be owned by
    /// `program_id`, not empty, writable where that is expected, and of the
    /// kind `discriminator`.
    pub open spec fn spec_inspect(&self, program_id: Pubkey, discriminator: u8, expect_writable: bool)
        -> Result<(), AccountError> {
        if self.owner != program_id {
            Err(AccountError::InvalidAccountOwner)
        } else if self.data@.len() == 0 {
            Err(AccountError::InvalidAccountData)
        } else if expect_writable && !self.is_writable {
            Err(AccountError::InvalidAccountData)
        } else if self.data@[0] != discriminator {
            Err(AccountError::InvalidAccountData)
        } else {
            Ok(())
        }
    }

    /// Looks at the record itself: its owner, its bytes, whether it can be
    /// written, and its kind, in this order.
    pub fn inspect(&self, program_id: &Pubkey, discriminator: u8, expect_writable: bool) -> (r:
        Result<(), AccountError>)
        ensures
            r == self.spec_inspect(*program_id, discriminator, expect_writable),
    {
        if self.owner != *program_id {
            return Err(AccountError::InvalidAccountOwner);
        }
        if self.data.len() == 0 {
            return Err(AccountError::InvalidAccountData);
        }
        if expect_writable && !self.is_writable {
            return Err(AccountError::InvalidAccountData);
        }
        if self.data[0] != discriminator {
            return Err(AccountError::InvalidAccountData);
        }
        Ok(())
    }
}

} // verus!
