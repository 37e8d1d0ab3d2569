//! The reward ledger of a challenge: the mint at the address derived from
//! the address of the challenge, with the challenge as its authority.

use vstd::prelude::*;
use vstd::slice::slice_to_vec;
use crate::address::{
    address_of, associated_token_program_id, derive_address, push_bump, seed_bytes,
    spec_derive_address, spec_is_on_curve, token_program_id, with_bump, Address,
    ASSOCIATED_TOKEN_PROGRAM_ID, CHALLENGE_PROGRAM_ID, TOKEN_PROGRAM_ID,
};
use crate::state::challenge::{spec_challenge_pda, Challenge, SEED_PREFIX};

verus! {

/// The addresses of the reward ledger of a challenge. This is no record of
/// its own: nothing of it is stored.
#[derive(Clone, Copy, Debug, PartialEq, Eq)]
pub struct Redeem {
    /// The address of the challenge, which is the authority of the mint.
    pub challenge_pda: Address,
    /// The address of the mint, derived from the address of the challenge.
    pub pda: Address,
}

/// The seeds from which the address of a reward ledger is derived.
pub open spec fn redeem_seeds(challenge_pda: Address) -> Seq<Seq<u8>> {
    seq![SEED_PREFIX@, challenge_pda@]
}

/// The address of the reward ledger of a challenge, with its bump seed.
pub open spec fn spec_redeem_pda(challenge_pda: Address) -> Option<(Address, u8)> {
    spec_derive_address(CHALLENGE_PROGRAM_ID, redeem_seeds(challenge_pda))
}

/// The seeds from which the address of an associated account is derived.
pub open spec fn associated_seeds(wallet: Address, token_program: Address, mint: Address) -> Seq<Seq<u8>> {
    seq![wallet@, token_program@, mint@]
}

/// The address of the account that binds a wallet to a mint under a token
/// program.
pub open spec fn spec_associated_token_address(wallet: Address, mint: Address, token_program: Address) -> Option<
    Address,
> {
    match spec_derive_address(ASSOCIATED_TOKEN_PROGRAM_ID, associated_seeds(wallet, token_program, mint)) {
        Some((address, _)) => Some(address),
        None => None,
    }
}

/// Derives the address of the account that binds a wallet to a mint under a
/// token program; `None` where none can be derived.
pub fn associated_token_address(wallet: &Address, mint: &Address, token_program: &Address) -> (ata: Option<
    Address,
>)
    ensures
        ata == spec_associated_token_address(*wallet, *mint, *token_program),
        ata is Some ==> !spec_is_on_curve(ata->0@),
{
    let mut seeds: Vec<Vec<u8>> = Vec::new();
    seeds.push(slice_to_vec(wallet.as_slice()));
    seeds.push(slice_to_vec(token_program.as_slice()));
    seeds.push(slice_to_vec(mint.as_slice()));
    assert(seed_bytes(seeds@) =~= associated_seeds(*wallet, *token_program, *mint));
    match derive_address(&seeds, &associated_token_program_id()) {
        Some((address, _)) => Some(address),
        None => None,
    }
}

impl Redeem {
    /// The seeds from which the address of a reward ledger is derived.
    pub fn seeds_for(challenge_pda: &Address) -> (seeds: Vec<Vec<u8>>)
        ensures
            seed_bytes(seeds@) == redeem_seeds(*challenge_pda),
    {
        let mut seeds: Vec<Vec<u8>> = Vec::new();
        seeds.push(slice_to_vec(SEED_PREFIX.as_slice()));
        seeds.push(slice_to_vec(challenge_pda.as_slice()));
        assert(seed_bytes(seeds@) =~= redeem_seeds(*challenge_pda));
        seeds
    }

    /// The seeds with which the program signs for a reward ledger.
    pub fn seeds_with_bump(challenge_pda: &Address, bump: u8) -> (seeds: Vec<Vec<u8>>)
        ensures
            seed_bytes(seeds@) == with_bump(redeem_seeds(*challenge_pda), bump),
    {
        let mut seeds = Redeem::seeds_for(challenge_pda);
        push_bump(&mut seeds, bump);
        seeds
    }

    /// The address of the reward ledger of a challenge, with its bump seed;
    /// `None` where none can be derived.
    pub fn pda_for(challenge_pda: &Address) -> (pda: Option<(Address, u8)>)
        ensures
            pda == spec_redeem_pda(*challenge_pda),
            pda is Some ==> !spec_is_on_curve(address_of(pda)@),
    {
        let seeds = Redeem::seeds_for(challenge_pda);
        derive_address(&seeds, &CHALLENGE_PROGRAM_ID)
    }

    /// The reward ledger of the challenge at the given address.
    pub open spec fn spec_new(challenge_pda: Address) -> Option<Redeem> {
        match spec_redeem_pda(challenge_pda) {
            Some((pda, _)) => Some(Redeem { challenge_pda, pda }),
            None => None,
        }
    }

    /// The reward ledger of the challenge of a creator and id.
    pub open spec fn spec_for_challenge_with(creator: Address, id: Seq<char>) -> Option<Redeem> {
        match spec_challenge_pda(creator, id) {
            Some((challenge_pda, _)) => Redeem::spec_new(challenge_pda),
            None => None,
        }
    }

    /// The reward ledger of the challenge at the given address; `None` where
    /// no address can be derived for it.
    pub fn new(challenge_pda: Address) -> (redeem: Option<Redeem>)
        ensures
            redeem == Redeem::spec_new(challenge_pda),
    {
        match Redeem::pda_for(&challenge_pda) {
            Some((pda, _)) => Some(Redeem { challenge_pda, pda }),
            None => None,
        }
    }

    /// The reward ledger of the challenge of a creator and id; `None` where
    /// an address cannot be derived.
    pub fn for_challenge_with(creator: &Address, id: &str) -> (redeem: Option<Redeem>)
        ensures
            redeem == Redeem::spec_for_challenge_with(*creator, id@),
    {
        match Challenge::pda_for(creator, id) {
            Some((challenge_pda, _)) => Redeem::new(challenge_pda),
            None => None,
        }
    }

    /// The address of this reward ledger, with its bump seed.
    pub fn pda(&self) -> (pda: Option<(Address, u8)>)
        ensures
            pda == spec_redeem_pda(self.challenge_pda),
    {
        Redeem::pda_for(&self.challenge_pda)
    }

    /// The address of the account in which a receiver holds the reward
    /// token; `None` where none can be derived.
    pub fn ata(&self, recvr: &Address) -> (ata: Option<Address>)
        ensures
            ata == spec_associated_token_address(*recvr, self.pda, TOKEN_PROGRAM_ID),
    {
        associated_token_address(recvr, &self.pda, &token_program_id())
    }
}

} // verus!
