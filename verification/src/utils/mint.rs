//! The reward ledger: creating its mint and minting the reward token.

use vstd::prelude::*;
use crate::action::{perform, Action, ActionView, Execution, ExecutionView};
use crate::address::{seed_bytes, token_program_id, Address, TOKEN_PROGRAM_ID};
use crate::error::{ChallengeError, ProcessorError};
use crate::rent::Rent;
use crate::state::redeem::{associated_token_address, spec_associated_token_address};
use crate::utils::accounts::{
    allocate_account_and_assign_owner, spec_allocate_account_and_assign_owner,
    AllocateAndAssignAccountArgs, Step,
};
use crate::utils::asserts::assert_keys_equal;

verus! {

/// The bytes that the account of a mint takes.
pub const MINT_LEN: usize = 82;

/// The tokens that one redemption mints.
pub const REWARD_AMOUNT: u64 = 1;

/// Reads `spl_token::state::Mint::LEN`: the bytes that the account of a
/// mint takes.
#[verifier::external_body]
pub(crate) fn mint_account_len() -> (len: usize)
    ensures
        len == MINT_LEN,
{
    <spl_token::state::Mint as solana_program::program_pack::Pack>::LEN
}

/// What it takes to create the mint of a reward ledger.
#[derive(Debug)]
pub struct CreateMintArgs {
    /// The account that pays for the mint's minimum balance.
    pub payer: Address,
    /// The account that becomes the mint.
    pub mint: Address,
    /// The account that may mint: the challenge.
    pub mint_authority: Address,
    /// The token program that is to own the mint.
    pub spl_token_program: Address,
    /// The seeds with which the program signs for the mint.
    pub signer_seeds: Vec<Vec<u8>>,
}

/// The creation of a mint: the account is created for the token program,
/// then it is made a mint without decimals.
pub open spec fn spec_create_mint(
    ex: ExecutionView,
    rent: Rent,
    payer: Address,
    mint: Address,
    mint_authority: Address,
    spl_token_program: Address,
    signer_seeds: Seq<Seq<u8>>,
) -> Step {
    if spl_token_program != TOKEN_PROGRAM_ID {
        Err(ProcessorError::Custom(ChallengeError::ProvidedAtaIsIncorrect))
    } else {
        match spec_allocate_account_and_assign_owner(
            ex,
            rent,
            payer,
            mint,
            spl_token_program,
            signer_seeds,
            MINT_LEN,
        ) {
            Err(e) => Err(e),
            Ok(created) => Ok(
                perform(
                    created,
                    ActionView::InitializeMint {
                        token_program: spl_token_program,
                        mint,
                        mint_authority,
                        decimals: 0,
                    },
                ),
            ),
        }
    }
}

/// Plans the request that makes an account a mint without decimals and
/// without a freeze authority.
fn initialize_mint(ex: &mut Execution, mint: Address, mint_authority: Address, spl_token_program: Address)
    ensures
        final(ex)@ == perform(
            old(ex)@,
            ActionView::InitializeMint { token_program: spl_token_program, mint, mint_authority, decimals: 0 },
        ),
{
    ex.perform(
        Action::InitializeMint { token_program: spl_token_program, mint, mint_authority, decimals: 0 },
    );
}

/// Creates the mint of a reward ledger. Fails where the token program
/// supplied is not the token program.
pub fn create_mint(ex: &mut Execution, rent: &Rent, args: CreateMintArgs) -> (r: Result<(), ProcessorError>)
    ensures
        match r {
            Ok(()) => spec_create_mint(
                old(ex)@,
                *rent,
                args.payer,
                args.mint,
                args.mint_authority,
                args.spl_token_program,
                seed_bytes(args.signer_seeds@),
            ) == Ok::<ExecutionView, ProcessorError>(final(ex)@),
            Err(e) => spec_create_mint(
                old(ex)@,
                *rent,
                args.payer,
                args.mint,
                args.mint_authority,
                args.spl_token_program,
                seed_bytes(args.signer_seeds@),
            ) == Err::<ExecutionView, ProcessorError>(e) && final(ex)@ == old(ex)@,
        },
{
    let CreateMintArgs { payer, mint, mint_authority, spl_token_program, signer_seeds } = args;
    match assert_keys_equal(&spl_token_program, &token_program_id()) {
        Ok(()) => {},
        Err(e) => { return Err(e); },
    }
    let created = allocate_account_and_assign_owner(
        ex,
        rent,
        AllocateAndAssignAccountArgs {
            payer,
            account: mint,
            owner: spl_token_program,
            signer_seeds,
            size: mint_account_len(),
        },
    );
    match created {
        Ok(()) => {},
        Err(e) => { return Err(e); },
    }
    initialize_mint(ex, mint, mint_authority, spl_token_program);
    Ok(())
}

/// What it takes to mint the reward token to a receiver.
#[derive(Debug)]
pub struct MintTokenArgs {
    /// The account that pays for the receiver's associated account.
    pub payer: Address,
    /// The receiver of the token.
    pub recvr: Address,
    /// The receiver's associated account for the mint.
    pub recvr_ata: Address,
    /// The mint of the reward ledger.
    pub mint: Address,
    /// The account that may mint: the challenge.
    pub mint_authority: Address,
    /// The token program.
    pub spl_token_program: Address,
    /// The seeds with which the program signs for the mint authority.
    pub signer_seeds: Vec<Vec<u8>>,
}

/// The minting of one reward token: the receiver's associated account is
/// created unless it exists, then one token is minted to it.
pub open spec fn spec_mint_token_to_recvr(
    ex: ExecutionView,
    payer: Address,
    recvr: Address,
    recvr_ata: Address,
    mint: Address,
    mint_authority: Address,
    spl_token_program: Address,
    signer_seeds: Seq<Seq<u8>>,
) -> Step {
    match spec_associated_token_address(recvr, mint, spl_token_program) {
        None => Err(ProcessorError::InvalidSeeds),
        Some(ata) => if recvr_ata != ata {
            Err(ProcessorError::Custom(ChallengeError::ProvidedAtaIsIncorrect))
        } else {
            Ok(
                perform(
                    perform(
                        ex,
                        ActionView::CreateAssociatedTokenAccount {
                            payer,
                            wallet: recvr,
                            mint,
                            token_program: spl_token_program,
                            associated_account: recvr_ata,
                        },
                    ),
                    ActionView::MintTo {
                        token_program: spl_token_program,
                        mint,
                        account: recvr_ata,
                        mint_authority,
                        amount: REWARD_AMOUNT,
                        signer_seeds,
                    },
                ),
            )
        },
    }
}

/// Mints exactly one reward token to the receiver's associated account,
/// which is created first unless it exists. Fails where the account
/// supplied is not the receiver's associated account for the mint.
pub fn mint_token_to_recvr(ex: &mut Execution, args: MintTokenArgs) -> (r: Result<(), ProcessorError>)
    ensures
        match r {
            Ok(()) => spec_mint_token_to_recvr(
                old(ex)@,
                args.payer,
                args.recvr,
                args.recvr_ata,
                args.mint,
                args.mint_authority,
                args.spl_token_program,
                seed_bytes(args.signer_seeds@),
            ) == Ok::<ExecutionView, ProcessorError>(final(ex)@),
            Err(e) => spec_mint_token_to_recvr(
                old(ex)@,
                args.payer,
                args.recvr,
                args.recvr_ata,
                args.mint,
                args.mint_authority,
                args.spl_token_program,
                seed_bytes(args.signer_seeds@),
            ) == Err::<ExecutionView, ProcessorError>(e) && final(ex)@ == old(ex)@,
        },
{
    let MintTokenArgs { payer, recvr, recvr_ata, mint, mint_authority, spl_token_program, signer_seeds } = args;
    let ata = match associated_token_address(&recvr, &mint, &spl_token_program) {
        Some(ata) => ata,
        None => { return Err(ProcessorError::InvalidSeeds); },
    };
    match assert_keys_equal(&recvr_ata, &ata) {
        Ok(()) => {},
        Err(e) => { return Err(e); },
    }
    ex.perform(
        Action::CreateAssociatedTokenAccount {
            payer,
            wallet: recvr,
            mint,
            token_program: spl_token_program,
            associated_account: recvr_ata,
        },
    );
    ex.perform(
        Action::MintTo {
            token_program: spl_token_program,
            mint,
            account: recvr_ata,
            mint_authority,
            amount: REWARD_AMOUNT,
            signer_seeds,
        },
    );
    Ok(())
}

} // verus!
