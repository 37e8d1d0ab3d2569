//! Moving lamports, and creating and growing the accounts that the program
//! owns.

use vstd::prelude::*;
use crate::action::{perform, Action, ActionView, Execution, ExecutionView};
use crate::address::{clone_seeds, keys_equal, seed_bytes, Address};
use crate::error::{ChallengeError, ProcessorError};
use crate::rent::Rent;

verus! {

/// What a step of a run yields: the run after it, or the error that stops it.
pub type Step = Result<ExecutionView, ProcessorError>;

/// The transfer of `lamports` from `payer` to `to`: it fails where the
/// payer holds less, or where the receiver cannot hold more.
pub open spec fn spec_transfer_lamports(ex: ExecutionView, payer: Address, to: Address, lamports: u64) -> Step {
    if ex.ledger[payer].lamports < lamports {
        Err(ProcessorError::Custom(ChallengeError::InsufficientFunds))
    } else if payer != to && ex.ledger[to].lamports + lamports > u64::MAX {
        Err(ProcessorError::ArithmeticOverflow)
    } else {
        Ok(perform(ex, ActionView::Transfer { from: payer, to, lamports }))
    }
}

/// Transfers `lamports` from `payer` to `to`. Fails with `InsufficientFunds`
/// where the payer holds less than `lamports`.
pub fn transfer_lamports(ex: &mut Execution, payer: &Address, to: &Address, lamports: u64) -> (r: Result<
    (),
    ProcessorError,
>)
    ensures
        match r {
            Ok(()) => spec_transfer_lamports(old(ex)@, *payer, *to, lamports) == Ok::<
                ExecutionView,
                ProcessorError,
            >(final(ex)@),
            Err(e) => spec_transfer_lamports(old(ex)@, *payer, *to, lamports) == Err::<
                ExecutionView,
                ProcessorError,
            >(e) && final(ex)@ == old(ex)@,
        },
{
    if ex.ledger.lamports(payer) < lamports {
        return Err(ProcessorError::Custom(ChallengeError::InsufficientFunds));
    }
    if !keys_equal(payer, to) && ex.ledger.lamports(to) > u64::MAX - lamports {
        return Err(ProcessorError::ArithmeticOverflow);
    }
    ex.perform(Action::Transfer { from: *payer, to: *to, lamports });
    Ok(())
}

/// What it takes to create an account of the program.
#[derive(Debug)]
pub struct AllocateAndAssignAccountArgs {
    /// The account that pays for the new account's minimum balance.
    pub payer: Address,
    /// The account to create.
    pub account: Address,
    /// The program that is to own the account.
    pub owner: Address,
    /// The seeds with which the program signs for the account.
    pub signer_seeds: Vec<Vec<u8>>,
    /// The bytes that the account is to hold.
    pub size: usize,
}

/// The lamports that an account lacks to the minimum balance, which counts
/// as 1 at least.
pub open spec fn lamports_to_create(minimum_balance: u64, held: u64) -> u64 {
    let floor = if minimum_balance > 1 { minimum_balance } else { 1 };
    if floor > held { (floor - held) as u64 } else { 0 }
}

/// The creation of an account: the payer tops it up to the minimum balance
/// of its size, then it is given its buffer and its owner.
pub open spec fn spec_allocate_account_and_assign_owner(
    ex: ExecutionView,
    rent: Rent,
    payer: Address,
    account: Address,
    owner: Address,
    signer_seeds: Seq<Seq<u8>>,
    size: usize,
) -> Step {
    match rent.spec_minimum_balance(size) {
        None => Err(ProcessorError::RentUnavailable),
        Some(minimum_balance) => {
            let required = lamports_to_create(minimum_balance, ex.ledger[account].lamports);
            let funded = if required > 0 {
                spec_transfer_lamports(ex, payer, account, required)
            } else {
                Ok(ex)
            };
            match funded {
                Err(e) => Err(e),
                Ok(funded) => Ok(
                    perform(
                        perform(funded, ActionView::Allocate { account, space: size, signer_seeds }),
                        ActionView::Assign { account, owner, signer_seeds },
                    ),
                ),
            }
        },
    }
}

/// Creates an account of `args.size` bytes that `args.owner` owns: the payer
/// tops it up to the minimum balance of that size, then the account is given
/// its zeroed buffer and its owner.
pub fn allocate_account_and_assign_owner(
    ex: &mut Execution,
    rent: &Rent,
    args: AllocateAndAssignAccountArgs,
) -> (r: Result<(), ProcessorError>)
    ensures
        match r {
            Ok(()) => spec_allocate_account_and_assign_owner(
                old(ex)@,
                *rent,
                args.payer,
                args.account,
                args.owner,
                seed_bytes(args.signer_seeds@),
                args.size,
            ) == Ok::<ExecutionView, ProcessorError>(final(ex)@),
            Err(e) => spec_allocate_account_and_assign_owner(
                old(ex)@,
                *rent,
                args.payer,
                args.account,
                args.owner,
                seed_bytes(args.signer_seeds@),
                args.size,
            ) == Err::<ExecutionView, ProcessorError>(e) && final(ex)@ == old(ex)@,
        },
{
    let AllocateAndAssignAccountArgs { payer, account, owner, signer_seeds, size } = args;
    let minimum_balance = match rent.minimum_balance(size) {
        Some(balance) => balance,
        None => { return Err(ProcessorError::RentUnavailable); },
    };
    let floor: u64 = if minimum_balance > 1 { minimum_balance } else { 1 };
    let required_lamports: u64 = floor.saturating_sub(ex.ledger.lamports(&account));
    if required_lamports > 0 {
        match transfer_lamports(ex, &payer, &account, required_lamports) {
            Ok(()) => {},
            Err(e) => { return Err(e); },
        }
    }
    ex.perform(Action::Allocate { account, space: size, signer_seeds: clone_seeds(&signer_seeds) });
    ex.perform(Action::Assign { account, owner, signer_seeds });
    Ok(())
}

/// What it takes to change the size of an account.
#[derive(Debug)]
pub struct ReallocateAccountArgs {
    /// The account that pays what the account lacks for its new size.
    pub payer: Address,
    /// The account to resize.
    pub account: Address,
    /// The bytes that the account is to hold.
    pub new_size: usize,
}

/// The lamports that an account lacks to a minimum balance.
pub open spec fn lamports_to_grow(minimum_balance: u64, held: u64) -> u64 {
    if minimum_balance > held { (minimum_balance - held) as u64 } else { 0 }
}

/// The resizing of an account: the payer tops it up to the minimum balance
/// of the new size, then its buffer is resized.
pub open spec fn spec_reallocate_account(
    ex: ExecutionView,
    rent: Rent,
    payer: Address,
    account: Address,
    new_size: usize,
) -> Step {
    match rent.spec_minimum_balance(new_size) {
        None => Err(ProcessorError::RentUnavailable),
        Some(minimum_balance) => {
            let required = lamports_to_grow(minimum_balance, ex.ledger[account].lamports);
            let funded = if required > 0 {
                spec_transfer_lamports(ex, payer, account, required)
            } else {
                Ok(ex)
            };
            match funded {
                Err(e) => Err(e),
                Ok(funded) => Ok(perform(funded, ActionView::Resize { account, new_size })),
            }
        },
    }
}

/// Brings an account to `args.new_size` bytes: the payer tops it up to the
/// minimum balance of that size, then the buffer is resized. Growth is
/// never implicit: this is the one place where a buffer changes its size.
pub fn reallocate_account(ex: &mut Execution, rent: &Rent, args: ReallocateAccountArgs) -> (r: Result<
    (),
    ProcessorError,
>)
    ensures
        match r {
            Ok(()) => spec_reallocate_account(old(ex)@, *rent, args.payer, args.account, args.new_size) == Ok::<
                ExecutionView,
                ProcessorError,
            >(final(ex)@),
            Err(e) => spec_reallocate_account(old(ex)@, *rent, args.payer, args.account, args.new_size) == Err::<
                ExecutionView,
                ProcessorError,
            >(e) && final(ex)@ == old(ex)@,
        },
{
    let ReallocateAccountArgs { payer, account, new_size } = args;
    let minimum_balance = match rent.minimum_balance(new_size) {
        Some(balance) => balance,
        None => { return Err(ProcessorError::RentUnavailable); },
    };
    let required_lamports: u64 = minimum_balance.saturating_sub(ex.ledger.lamports(&account));
    if required_lamports > 0 {
        match transfer_lamports(ex, &payer, &account, required_lamports) {
            Ok(()) => {},
            Err(e) => { return Err(e); },
        }
    }
    ex.perform(Action::Resize { account, new_size });
    Ok(())
}

} // verus!
