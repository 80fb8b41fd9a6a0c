//! The configuration of the weight table program for one network.

use crate::address::{derives, find_address, key_seed, program_address, seed_bytes};
use crate::pubkey::Pubkey;
use vstd::prelude::*;
use vstd::string::*;

verus! {

/// The configuration of one network.
#[derive(Debug, Clone, Copy)]
pub struct Config {
    /// The network that the configuration belongs to.
    pub ncn: Pubkey,
    /// Who may change the configuration.
    pub admin: Pubkey,
}

impl Config {
    /// The seeds of the address of the configuration of a network.
    pub open spec fn spec_seeds(ncn: Pubkey) -> Seq<Seq<u8>> {
        seq!["CONFIG".spec_bytes(), ncn@]
    }

    /// The configuration of a network.
    pub fn new(ncn: Pubkey, admin: Pubkey) -> (config: Self)
        ensures
            config == (Config { ncn, admin }),
    {
        Self { ncn, admin }
    }

    /// The seeds of the address of the configuration: the namespace and the
    /// network.
    pub fn seeds(ncn: &Pubkey) -> (seeds: Vec<Vec<u8>>)
        ensures
            seed_bytes(&seeds) == Self::spec_seeds(*ncn),
    {
        let mut seeds: Vec<Vec<u8>> = Vec::new();
        seeds.push("CONFIG".as_bytes_vec());
        seeds.push(key_seed(ncn));
        assert(seed_bytes(&seeds) =~= Self::spec_seeds(*ncn));
        seeds
    }

    /// The address of the configuration, with its bump seed and the seeds it
    /// was derived from.
    pub fn find_program_address(program_id: &Pubkey, ncn: &Pubkey) -> (found: (
        Pubkey,
        u8,
        Vec<Vec<u8>>,
    ))
        requires
            program_address(Self::spec_seeds(*ncn), program_id@) is Some,
        ensures
            seed_bytes(&found.2) == Self::spec_seeds(*ncn),
            derives(Self::spec_seeds(*ncn), *program_id, found.0, found.1),
    {
        let seeds = Self::seeds(ncn);
        let (pda, bump) = find_address(&seeds, program_id).unwrap();
        (pda, bump, seeds)
    }

    /// The address of the configuration as [`Config::find_program_address`]
    /// gives it, and `None` where the seeds derive no address.
    pub fn try_find_program_address(program_id: &Pubkey, ncn: &Pubkey) -> (found: Option<
        (Pubkey, u8, Vec<Vec<u8>>),
    >)
        ensures
            found is Some <==> program_address(Self::spec_seeds(*ncn), program_id@) is Some,
            found matches Some(f) ==> seed_bytes(&f.2) == Self::spec_seeds(*ncn) && derives(
                Self::spec_seeds(*ncn),
                *program_id,
                f.0,
                f.1,
            ),
    {
        let seeds = Self::seeds(ncn);
        if find_address(&seeds, program_id).is_some() {
            Some(Self::find_program_address(program_id, ncn))
        } else {
            None
        }
    }
}

impl Default for Config {
    /// The configuration with default identifiers.
    fn default() -> (config: Self)
        ensures
            config.ncn.is_default(),
            config.admin.is_default(),
    {
        Self { ncn: Pubkey::default(), admin: Pubkey::default() }
    }
}

} // verus!
