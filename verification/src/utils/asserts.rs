//! The named precondition checks. Each one maps to one error kind and
//! changes nothing.

use vstd::prelude::*;
use crate::address::{keys_equal, Address, SYSTEM_PROGRAM_ID};
use crate::error::{ChallengeError, ProcessorError};
use crate::ixs::AccountMeta;
use crate::ledger::{Ledger, LedgerView};
use crate::state::challenge::{Challenge, MAX_SUPPORTED_SOLUTIONS};
use crate::state::challenger::Challenger;
use crate::Solution;

verus! {

/// The outcome of a check.
pub type Checked = Result<(), ProcessorError>;

/// The outcome of a check that fails with `error` unless `holds`.
pub open spec fn check(holds: bool, error: ChallengeError) -> Checked {
    if holds {
        Ok(())
    } else {
        Err(ProcessorError::Custom(error))
    }
}

/// Whether an account is as the host keeps an address that was never used.
pub open spec fn account_exists(ledger: LedgerView, key: Address) -> bool {
    ledger[key].owner != SYSTEM_PROGRAM_ID || ledger[key].lamports != 0 || ledger[key].data.len() != 0
}

/// The outcome of the check that an account holds a record: it has data
/// and it has a balance.
pub open spec fn spec_funded_and_has_data(ledger: LedgerView, key: Address) -> Checked {
    if ledger[key].data.len() == 0 {
        Err(ProcessorError::Custom(ChallengeError::AccountHasNoData))
    } else if ledger[key].lamports < 1 {
        Err(ProcessorError::Custom(ChallengeError::AccountNotFunded))
    } else {
        Ok(())
    }
}

/// Fails unless the address supplied is the address expected.
pub fn assert_keys_equal(provided_key: &Address, expected_key: &Address) -> (r: Checked)
    ensures
        r == check(*provided_key == *expected_key, ChallengeError::ProvidedAtaIsIncorrect),
{
    if keys_equal(provided_key, expected_key) {
        Ok(())
    } else {
        Err(ProcessorError::Custom(ChallengeError::ProvidedAtaIsIncorrect))
    }
}

/// Fails where there are more solutions than a challenge holds.
pub fn assert_max_supported_solutions(solutions: &[Solution]) -> (r: Checked)
    ensures
        r == check(solutions@.len() <= MAX_SUPPORTED_SOLUTIONS, ChallengeError::ExceedingMaxSupportedSolutions),
{
    if solutions.len() > MAX_SUPPORTED_SOLUTIONS {
        Err(ProcessorError::Custom(ChallengeError::ExceedingMaxSupportedSolutions))
    } else {
        Ok(())
    }
}

/// Fails where the solutions held and the solutions to add are together
/// more than a challenge holds.
pub fn assert_can_add_solutions(solutions: &[Solution], extra_solutions: &[Solution]) -> (r: Checked)
    ensures
        r == check(
            solutions@.len() + extra_solutions@.len() <= MAX_SUPPORTED_SOLUTIONS,
            ChallengeError::ExceedingMaxSupportedSolutions,
        ),
{
    let final_len = solutions.len().saturating_add(extra_solutions.len());
    if final_len > MAX_SUPPORTED_SOLUTIONS {
        Err(ProcessorError::Custom(ChallengeError::ExceedingMaxSupportedSolutions))
    } else {
        Ok(())
    }
}

/// Fails where no solution is to be added.
pub fn assert_adding_non_empty(extra_solutions: &[Solution]) -> (r: Checked)
    ensures
        r == check(extra_solutions@.len() > 0, ChallengeError::NoSolutionsToAddProvided),
{
    if extra_solutions.len() == 0 {
        Err(ProcessorError::Custom(ChallengeError::NoSolutionsToAddProvided))
    } else {
        Ok(())
    }
}

/// Fails where the account holds no data, and else where it holds no
/// balance.
pub fn assert_account_is_funded_and_has_data(ledger: &Ledger, account: &Address) -> (r: Checked)
    ensures
        r == spec_funded_and_has_data(ledger@, *account),
{
    if ledger.data_len(account) == 0 {
        Err(ProcessorError::Custom(ChallengeError::AccountHasNoData))
    } else if ledger.lamports(account) < 1 {
        Err(ProcessorError::Custom(ChallengeError::AccountNotFunded))
    } else {
        Ok(())
    }
}

/// Fails where the account holds data.
pub fn assert_account_has_no_data(ledger: &Ledger, account: &Address) -> (r: Checked)
    ensures
        r == check(ledger@[*account].data.len() == 0, ChallengeError::AccountAlreadyHasData),
{
    if ledger.data_len(account) != 0 {
        Err(ProcessorError::Custom(ChallengeError::AccountAlreadyHasData))
    } else {
        Ok(())
    }
}

/// Fails unless the account signed.
pub fn assert_is_signer(account: &AccountMeta) -> (r: Checked)
    ensures
        r == check(account.is_signer, ChallengeError::AccountShouldBeSigner),
{
    if !account.is_signer {
        Err(ProcessorError::Custom(ChallengeError::AccountShouldBeSigner))
    } else {
        Ok(())
    }
}

/// Fails where the challenge was started.
pub fn assert_not_started(challenge: &Challenge) -> (r: Checked)
    ensures
        r == check(!challenge@.started, ChallengeError::ChallengeAlreadyStarted),
{
    if challenge.started {
        Err(ProcessorError::Custom(ChallengeError::ChallengeAlreadyStarted))
    } else {
        Ok(())
    }
}

/// Fails where the challenge holds no solution.
pub fn assert_has_solutions(challenge: &Challenge) -> (r: Checked)
    ensures
        r == check(challenge@.solutions.len() > 0, ChallengeError::ChallengeHasNoSolutions),
{
    if challenge.solutions.len() == 0 {
        Err(ProcessorError::Custom(ChallengeError::ChallengeHasNoSolutions))
    } else {
        Ok(())
    }
}

/// Fails unless the challenge was started.
pub fn assert_started(challenge: &Challenge) -> (r: Checked)
    ensures
        r == check(challenge@.started, ChallengeError::ChallengeNotYetStarted),
{
    if !challenge.started {
        Err(ProcessorError::Custom(ChallengeError::ChallengeNotYetStarted))
    } else {
        Ok(())
    }
}

/// Fails where the challenge is finished.
pub fn assert_not_finished(challenge: &Challenge) -> (r: Checked)
    ensures
        r == check(!challenge@.finished, ChallengeError::ChallengeAlreadyFinished),
{
    if challenge.finished {
        Err(ProcessorError::Custom(ChallengeError::ChallengeAlreadyFinished))
    } else {
        Ok(())
    }
}

/// Fails where the account exists: it has an owner other than the system
/// program, a balance, or data.
pub fn assert_account_does_not_exist(ledger: &Ledger, account: &Address) -> (r: Checked)
    ensures
        r == check(!account_exists(ledger@, *account), ChallengeError::AccountAlreadyExists),
{
    let owner = ledger.owner(account);
    if !keys_equal(&owner, &SYSTEM_PROGRAM_ID) || ledger.lamports(account) != 0 || ledger.data_len(account) != 0 {
        Err(ProcessorError::Custom(ChallengeError::AccountAlreadyExists))
    } else {
        Ok(())
    }
}

/// Fails where the challenger has no try left.
pub fn assert_challenger_has_tries_remaining(challenger: &Challenger) -> (r: Checked)
    ensures
        r == check(challenger.tries_remaining > 0, ChallengeError::ChallengerHasNoTriesRemaining),
{
    if challenger.tries_remaining == 0 {
        Err(ProcessorError::Custom(ChallengeError::ChallengerHasNoTriesRemaining))
    } else {
        Ok(())
    }
}

/// Fails where no solution is left to solve.
pub fn assert_has_solution(challenge: &Challenge) -> (r: Checked)
    ensures
        r == check(challenge@.current_solution() is Some, ChallengeError::OutOfSolutions),
{
    if challenge.current_solution().is_none() {
        Err(ProcessorError::Custom(ChallengeError::OutOfSolutions))
    } else {
        Ok(())
    }
}

} // verus!
