//! Ledger addresses and the deterministic derivation of program-owned
//! sub-account addresses.

use vstd::prelude::*;

verus! {

/// A 32-byte ledger address.
pub type Address = [u8; 32];

/// The address of this program.
pub const CHALLENGE_PROGRAM_ID: Address = [
    211, 169, 220, 188, 152, 95, 104, 30, 134, 9, 125, 182, 157, 145, 245, 211,
    223, 21, 90, 94, 233, 148, 215, 177, 124, 40, 146, 51, 92, 74, 131, 39,
];

/// The address of the system program, which owns every account that no
/// program has claimed.
pub const SYSTEM_PROGRAM_ID: Address = [
    0, 0, 0, 0, 0, 0, 0, 0, 0, 0, 0, 0, 0, 0, 0, 0,
    0, 0, 0, 0, 0, 0, 0, 0, 0, 0, 0, 0, 0, 0, 0, 0,
];

/// The address of the token program, which keeps the reward ledgers.
pub const TOKEN_PROGRAM_ID: Address = [
    6, 221, 246, 225, 215, 101, 161, 147, 217, 203, 225, 70, 206, 235, 121, 172,
    28, 180, 133, 237, 95, 91, 55, 145, 58, 140, 245, 133, 126, 255, 0, 169,
];

/// The address of the program that derives and creates the account which
/// binds one owner to one reward ledger.
pub const ASSOCIATED_TOKEN_PROGRAM_ID: Address = [
    140, 151, 37, 143, 78, 36, 137, 241, 187, 61, 16, 41, 20, 142, 13, 131,
    11, 90, 19, 153, 218, 255, 16, 132, 4, 142, 123, 216, 219, 233, 248, 89,
];

/// Calls `spl_token::id`: the address of the token program.
#[verifier::external_body]
pub(crate) fn token_program_id() -> (id: Address)
    ensures
        id == TOKEN_PROGRAM_ID,
{
    spl_token::id().to_bytes()
}

/// Calls `spl_associated_token_account::id`: the address of the associated
/// token account program.
#[verifier::external_body]
pub(crate) fn associated_token_program_id() -> (id: Address)
    ensures
        id == ASSOCIATED_TOKEN_PROGRAM_ID,
{
    spl_associated_token_account::id().to_bytes()
}

/// The bytes of each seed of a list.
pub open spec fn seed_bytes(seeds: Seq<Vec<u8>>) -> Seq<Seq<u8>> {
    Seq::new(seeds.len(), |i: int| seeds[i]@)
}

/// What `Pubkey::is_on_curve` returns for the 32 bytes of an address:
/// whether they are a point of the curve on which every key with a private
/// key lies.
pub uninterp spec fn spec_is_on_curve(address: Seq<u8>) -> bool;

/// Calls `solana_program::pubkey::Pubkey::is_on_curve`.
#[verifier::external_body]
pub(crate) fn on_curve(address: &Address) -> (r: bool)
    ensures
        r == spec_is_on_curve(address@),
{
    solana_program::pubkey::Pubkey::new_from_array(*address).is_on_curve()
}

/// Whether an address lies on the curve, so that a key pair can own it. An
/// address that a program derives never does.
pub fn is_on_curve(address: &Address) -> (r: bool)
    ensures
        r == spec_is_on_curve(address@),
{
    on_curve(address)
}

/// What `Pubkey::try_find_program_address` returns for the given seeds and
/// program: the derived address with its bump seed, or `None` where no
/// address can be derived.
pub uninterp spec fn spec_find_program_address(seeds: Seq<Seq<u8>>, program_id: Seq<u8>) -> Option<(Seq<u8>, u8)>;

/// Calls `solana_program::pubkey::Pubkey::try_find_program_address`. The
/// result depends on the seeds and the program alone. An address comes back
/// only for fewer than 16 seeds of at most 32 bytes each, and it never lies
/// on the curve.
#[verifier::external_body]
pub(crate) fn find_program_address(seeds: &Vec<Vec<u8>>, program_id: &Address) -> (r: Option<(Address, u8)>)
    ensures
        match r {
            Some((address, bump)) => spec_find_program_address(seed_bytes(seeds@), program_id@) == Some(
                (address@, bump),
            ),
            None => spec_find_program_address(seed_bytes(seeds@), program_id@) is None,
        },
        r is Some ==> seeds@.len() < 16 && forall|i: int| 0 <= i < seeds@.len() ==> seeds@[i]@.len() <= 32,
        r is Some ==> !spec_is_on_curve(address_of(r)@),
{
    let slices: Vec<&[u8]> = seeds.iter().map(|s| s.as_slice()).collect();
    let program = solana_program::pubkey::Pubkey::new_from_array(*program_id);
    match solana_program::pubkey::Pubkey::try_find_program_address(&slices, &program) {
        Some((address, bump)) => Some((address.to_bytes(), bump)),
        None => None,
    }
}

/// The address that a program derives from seeds, with the bump seed that
/// keeps it apart from every address that has a private key.
pub open spec fn spec_derive_address(program_id: Address, seeds: Seq<Seq<u8>>) -> Option<(Address, u8)> {
    match spec_find_program_address(seeds, program_id@) {
        Some((bytes, bump)) => Some((crate::wire::array32(bytes), bump)),
        None => None,
    }
}

/// Derives the address that a program owns for the given seeds. The same
/// seeds and program always give the same address, and the address never
/// lies on the curve: no key pair can own it. `None` where no address can
/// be derived: with 16 seeds or more, or with a seed of more than 32 bytes.
pub fn derive_address(seeds: &Vec<Vec<u8>>, program_id: &Address) -> (r: Option<(Address, u8)>)
    ensures
        r == spec_derive_address(*program_id, seed_bytes(seeds@)),
        r is Some ==> seeds@.len() < 16 && forall|i: int| 0 <= i < seeds@.len() ==> seeds@[i]@.len() <= 32,
        r is Some ==> !spec_is_on_curve(address_of(r)@),
{
    let r = find_program_address(seeds, program_id);
    proof {
        match r {
            Some((address, bump)) => {
                crate::wire::lemma_array32_of_view(address);
            },
            None => {},
        }
    }
    r
}

/// The address of a derivation.
pub open spec fn address_of(derived: Option<(Address, u8)>) -> Address {
    match derived {
        Some((address, _)) => address,
        None => SYSTEM_PROGRAM_ID,
    }
}

/// The bump seed of a derived address.
pub open spec fn bump_of(derived: Option<(Address, u8)>) -> u8 {
    match derived {
        Some((_, bump)) => bump,
        None => 0,
    }
}

/// The seeds with which a program signs for a derived address: the seeds of
/// the address, then its bump seed.
pub open spec fn with_bump(seeds: Seq<Seq<u8>>, bump: u8) -> Seq<Seq<u8>> {
    seeds.push(seq![bump])
}

/// Appends the bump seed to a list of seeds.
pub fn push_bump(seeds: &mut Vec<Vec<u8>>, bump: u8)
    ensures
        seed_bytes(final(seeds)@) == with_bump(seed_bytes(old(seeds)@), bump),
{
    let mut last: Vec<u8> = Vec::new();
    last.push(bump);
    seeds.push(last);
    assert(seed_bytes(seeds@) =~= with_bump(seed_bytes(old(seeds)@), bump));
}

/// A copy of a list of seeds.
pub fn clone_seeds(seeds: &Vec<Vec<u8>>) -> (copy: Vec<Vec<u8>>)
    ensures
        seed_bytes(copy@) == seed_bytes(seeds@),
{
    let mut copy: Vec<Vec<u8>> = Vec::new();
    let mut i: usize = 0;
    while i < seeds.len()
        invariant
            i <= seeds.len(),
            copy@.len() == i,
            forall|j: int| 0 <= j < i ==> copy@[j]@ == seeds@[j]@,
        decreases seeds.len() - i,
    {
        copy.push(vstd::slice::slice_to_vec(seeds[i].as_slice()));
        i += 1;
    }
    assert(seed_bytes(copy@) =~= seed_bytes(seeds@));
    copy
}

/// Whether two addresses hold the same bytes.
pub fn keys_equal(a: &Address, b: &Address) -> (r: bool)
    ensures
        r == (*a == *b),
{
    let mut i: usize = 0;
    while i < 32
        invariant
            i <= 32,
            forall|j: int| 0 <= j < i ==> a[j] == b[j],
        decreases 32 - i,
    {
        if a[i] != b[i] {
            return false;
        }
        i += 1;
    }
    assert(*a =~= *b);
    true
}

} // verus!
