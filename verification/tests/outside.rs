use challenge::address::{
    derive_address, is_on_curve, Address, ASSOCIATED_TOKEN_PROGRAM_ID, CHALLENGE_PROGRAM_ID, SYSTEM_PROGRAM_ID,
    TOKEN_PROGRAM_ID,
};
use challenge::challenge_id;
use challenge::ixs::redeem;
use challenge::rent::{Rent, MAX_LAMPORTS_PER_BYTE};
use challenge::state::challenge::Challenge;
use challenge::state::challenger::Challenger;
use challenge::state::redeem::{associated_token_address, Redeem};
use challenge::utils::mint::MINT_LEN;
use solana_program::program_pack::Pack;
use solana_program::pubkey::Pubkey;
use std::str::FromStr;

const ID: &str = "challenge-id";

fn outside_find(seeds: &[&[u8]], program: &Address) -> (Address, u8) {
    let (address, bump) = Pubkey::find_program_address(seeds, &Pubkey::new_from_array(*program));
    (address.to_bytes(), bump)
}

#[test]
fn program_id_is_the_declared_address() {
    let declared = Pubkey::from_str("FFFFaFpoGXkYsidMpWTK6W2BeZ7FEfcYkg476zPFsLnS").unwrap();
    assert_eq!(challenge_id(), declared.to_bytes());
    assert_eq!(CHALLENGE_PROGRAM_ID, declared.to_bytes());
}

#[test]
fn well_known_program_ids_are_those_of_their_crates() {
    assert_eq!(TOKEN_PROGRAM_ID, spl_token::id().to_bytes());
    assert_eq!(ASSOCIATED_TOKEN_PROGRAM_ID, spl_associated_token_account::id().to_bytes());
    assert_eq!(SYSTEM_PROGRAM_ID, Pubkey::from_str("11111111111111111111111111111111").unwrap().to_bytes());
    // the request to redeem names them through the library
    let ix = redeem([1u8; 32], [2u8; 32], ID, [3u8; 32], "hello").unwrap();
    assert_eq!(ix.accounts[6].pubkey, spl_token::id().to_bytes());
    assert_eq!(ix.accounts[7].pubkey, spl_associated_token_account::id().to_bytes());
    assert_eq!(ix.accounts[8].pubkey, [0u8; 32]);
}

#[test]
fn mint_len_is_that_of_the_token_crate() {
    assert_eq!(MINT_LEN, spl_token::state::Mint::LEN);
    assert_eq!(MINT_LEN, 82);
}

#[test]
fn challenge_address_is_derived_from_prefix_creator_and_id() {
    let creator: Address = [21u8; 32];
    let expected = outside_find(&[b"challenge", &creator, ID.as_bytes()], &CHALLENGE_PROGRAM_ID);
    assert_eq!(Challenge::pda_for(&creator, ID), Some(expected));
    assert_ne!(expected.0, creator);
    // the same seeds give the same address, other seeds another
    assert_eq!(Challenge::pda_for(&creator, ID), Challenge::pda_for(&creator, ID));
    assert_ne!(Challenge::pda_for(&creator, ID), Challenge::pda_for(&creator, "challenge-ie"));
    assert_ne!(Challenge::pda_for(&creator, ID), Challenge::pda_for(&[22u8; 32], ID));
}

#[test]
fn challenger_address_is_derived_from_prefix_challenge_and_challenger() {
    let challenge_pda: Address = [40u8; 32];
    let challenger: Address = [41u8; 32];
    let expected = outside_find(&[b"challenge", &challenge_pda, &challenger], &CHALLENGE_PROGRAM_ID);
    assert_eq!(Challenger::pda_for(&challenge_pda, &challenger), Some(expected));
    let record = Challenger { authority: challenger, challenge_pda, tries_remaining: 1, redeemed: false };
    assert_eq!(record.pda(), Some(expected));
}

#[test]
fn redeem_address_is_derived_from_prefix_and_challenge() {
    let challenge_pda: Address = [40u8; 32];
    let expected = outside_find(&[b"challenge", &challenge_pda], &CHALLENGE_PROGRAM_ID);
    assert_eq!(Redeem::pda_for(&challenge_pda), Some(expected));
    let mint = Redeem::new(challenge_pda).unwrap();
    assert_eq!(mint.challenge_pda, challenge_pda);
    assert_eq!(mint.pda, expected.0);
    assert_eq!(mint.pda(), Some(expected));

    let creator: Address = [21u8; 32];
    let of_creator = Redeem::for_challenge_with(&creator, ID).unwrap();
    let (challenge_of_creator, _) = Challenge::pda_for(&creator, ID).unwrap();
    assert_eq!(of_creator.challenge_pda, challenge_of_creator);
    assert_eq!(of_creator.pda, Redeem::pda_for(&challenge_of_creator).unwrap().0);
}

#[test]
fn no_address_is_derived_from_a_seed_of_more_than_32_bytes() {
    let creator: Address = [21u8; 32];
    let long_id = "a-challenge-id-of-more-than-32-bytes";
    assert!(long_id.len() > 32);
    assert_eq!(Challenge::pda_for(&creator, long_id), None);
    assert_eq!(Redeem::for_challenge_with(&creator, long_id), None);
    let exactly_32 = "a-challenge-id-of-just-32-bytes!";
    assert_eq!(exactly_32.len(), 32);
    assert!(Challenge::pda_for(&creator, exactly_32).is_some());
}

#[test]
fn no_address_is_derived_from_16_seeds() {
    let seeds: Vec<Vec<u8>> = (0..16u8).map(|i| vec![i]).collect();
    assert_eq!(derive_address(&seeds, &CHALLENGE_PROGRAM_ID), None);
    let fewer: Vec<Vec<u8>> = (0..15u8).map(|i| vec![i]).collect();
    let slices: Vec<&[u8]> = fewer.iter().map(|s| s.as_slice()).collect();
    assert_eq!(derive_address(&fewer, &CHALLENGE_PROGRAM_ID), Some(outside_find(&slices, &CHALLENGE_PROGRAM_ID)));
}

#[test]
fn associated_account_is_that_of_the_associated_token_crate() {
    let wallet: Address = [50u8; 32];
    let mint: Address = [51u8; 32];
    let expected = spl_associated_token_account::get_associated_token_address_with_program_id(
        &spl_token::solana_program::pubkey::Pubkey::new_from_array(wallet),
        &spl_token::solana_program::pubkey::Pubkey::new_from_array(mint),
        &spl_token::id(),
    );
    assert_eq!(associated_token_address(&wallet, &mint, &TOKEN_PROGRAM_ID), Some(expected.to_bytes()));
    let reward = Redeem { challenge_pda: [52u8; 32], pda: mint };
    assert_eq!(reward.ata(&wallet), Some(expected.to_bytes()));
    assert_ne!(reward.ata(&[53u8; 32]), Some(expected.to_bytes()));
}

#[allow(deprecated)]
fn outside_rent(rent: &Rent) -> solana_program::rent::Rent {
    solana_program::rent::Rent {
        lamports_per_byte: rent.lamports_per_byte,
        exemption_threshold: rent.exemption_threshold,
        burn_percent: rent.burn_percent,
    }
}

#[test]
#[allow(deprecated)]
fn minimum_balance_is_that_of_the_host() {
    let default = solana_program::rent::Rent::default();
    let rent = Rent {
        lamports_per_byte: default.lamports_per_byte,
        exemption_threshold: default.exemption_threshold,
        burn_percent: default.burn_percent,
    };
    assert_eq!(rent.minimum_balance(0), Some(default.minimum_balance(0)));
    assert_eq!(rent.minimum_balance(66), Some(1_350_240));
    assert_eq!(rent.minimum_balance(160), Some(default.minimum_balance(160)));
    assert_ne!(rent.minimum_balance(160), Some(160));

    let doubled = Rent { lamports_per_byte: 3_480, exemption_threshold: 2f64.to_le_bytes(), burn_percent: 50 };
    assert_eq!(doubled.minimum_balance(66), Some(1_350_240));
    let odd = Rent { lamports_per_byte: 1_000, exemption_threshold: 1.5f64.to_le_bytes(), burn_percent: 0 };
    assert_eq!(odd.minimum_balance(72), outside_rent(&odd).try_minimum_balance(72));
    assert_eq!(odd.minimum_balance(72), Some(300_000));
}

#[test]
fn minimum_balance_is_undefined_beyond_the_limits() {
    let rent = Rent { lamports_per_byte: 6_960, exemption_threshold: 1f64.to_le_bytes(), burn_percent: 50 };
    assert!(rent.minimum_balance(10 * 1024 * 1024).is_some());
    assert_eq!(rent.minimum_balance(10 * 1024 * 1024 + 1), None);

    let steep = Rent { lamports_per_byte: MAX_LAMPORTS_PER_BYTE + 1, ..rent };
    assert_eq!(steep.minimum_balance(0), None);
    let steepest_allowed = Rent { lamports_per_byte: MAX_LAMPORTS_PER_BYTE, ..rent };
    assert_eq!(steepest_allowed.minimum_balance(10), outside_rent(&steepest_allowed).try_minimum_balance(10));
    let too_steep_when_doubled =
        Rent { lamports_per_byte: MAX_LAMPORTS_PER_BYTE, exemption_threshold: 2f64.to_le_bytes(), burn_percent: 50 };
    assert_eq!(too_steep_when_doubled.minimum_balance(10), None);
}

#[test]
fn derived_addresses_lie_off_the_curve_and_keys_on_it() {
    // the base point of the curve is the public key of some key pair
    let mut base_point = [0x66u8; 32];
    base_point[0] = 0x58;
    assert!(is_on_curve(&base_point));
    assert!(Pubkey::new_from_array(base_point).is_on_curve());

    let creator: Address = [21u8; 32];
    let (challenge_pda, _) = Challenge::pda_for(&creator, ID).unwrap();
    let (challenger_pda, _) = Challenger::pda_for(&challenge_pda, &[22u8; 32]).unwrap();
    let (mint_pda, _) = Redeem::pda_for(&challenge_pda).unwrap();
    let ata = associated_token_address(&[22u8; 32], &mint_pda, &TOKEN_PROGRAM_ID).unwrap();
    for derived in [challenge_pda, challenger_pda, mint_pda, ata] {
        assert!(!is_on_curve(&derived));
        assert!(!Pubkey::new_from_array(derived).is_on_curve());
    }
}
