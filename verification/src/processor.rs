//! The processor: it decodes an instruction and hands it to one of five
//! handlers. A handler checks its preconditions in a fixed order, and where
//! all hold it plans the requests to the host that carry out the transition.
//! The first check that fails decides the error, and then nothing is planned.

use vstd::prelude::*;
use crate::action::{perform, Action, ActionView, Execution, ExecutionView};
use crate::address::{with_bump, Address, CHALLENGE_PROGRAM_ID};
use crate::challenge_id;
use crate::error::{ChallengeError, ProcessorError};
use crate::ixs::{AccountMeta, ChallengeInstruction, InstructionView};
use crate::ledger::{Ledger, LedgerView};
use crate::rent::Rent;
use crate::state::challenge::{
    challenge_seeds, lemma_challenge_decode_encode, lemma_challenge_encode_decode,
    lemma_challenge_encoded_size, spec_challenge_pda, spec_needed_size, Challenge, ChallengeView,
    MAX_ID_BYTES, MAX_SOLVING, MAX_SUPPORTED_SOLUTIONS,
};
use crate::state::challenger::{challenger_seeds, spec_challenger_pda, Challenger, CHALLENGER_SIZE};
use crate::state::common::{
    spec_account_state_verifying_creator, spec_challenge_state, spec_challenger_state,
    TryStateFromAccount,
};
use crate::state::redeem::{redeem_seeds, spec_redeem_pda, Redeem};
use crate::utils::accounts::{
    allocate_account_and_assign_owner, reallocate_account, spec_allocate_account_and_assign_owner,
    spec_reallocate_account, spec_transfer_lamports, transfer_lamports, AllocateAndAssignAccountArgs,
    ReallocateAccountArgs, Step,
};
use crate::utils::asserts::{
    account_exists, assert_account_does_not_exist, assert_account_has_no_data, assert_adding_non_empty,
    assert_can_add_solutions, assert_challenger_has_tries_remaining, assert_has_solution,
    assert_has_solutions, assert_is_signer, assert_keys_equal, assert_max_supported_solutions,
    assert_not_finished, assert_not_started, assert_started,
};
use crate::utils::mint::{
    create_mint, mint_token_to_recvr, spec_create_mint, spec_mint_token_to_recvr, CreateMintArgs,
    MintTokenArgs,
};
use crate::Solution;

verus! {

/// The error of every check that compares two addresses.
pub open spec fn mismatch() -> ProcessorError {
    ProcessorError::Custom(ChallengeError::ProvidedAtaIsIncorrect)
}

/// The run of an instruction before its first request.
pub open spec fn start_of(ledger: LedgerView) -> ExecutionView {
    ExecutionView { ledger, actions: Seq::empty() }
}

/// The outcome of a handler as a mathematical value.
pub open spec fn step_of(r: Result<Execution, ProcessorError>) -> Step {
    match r {
        Ok(ex) => Ok(ex@),
        Err(e) => Err(e),
    }
}

/// Whether the account at an address holds exactly the layout of a
/// challenge, in a buffer of the size that the challenge needs: the fixed
/// part, the id, and 32 bytes for each solution.
pub open spec fn holds_challenge(ledger: LedgerView, key: Address, record: ChallengeView) -> bool {
    &&& ledger[key].data == record.encode()
    &&& ChallengeView::decode(ledger[key].data) == Some(record)
    &&& ledger[key].data.len() == spec_needed_size(record.solutions.len(), record.id)
}

// ---------------------------------------------------------------------------
// Start Challenge
// ---------------------------------------------------------------------------

/// A challenge after it was started.
pub open spec fn started(state: ChallengeView) -> ChallengeView {
    ChallengeView { started: true, ..state }
}

/// What `StartChallenge` does. Accounts: the creator, who must sign, and
/// the challenge.
pub open spec fn spec_process_start_challenge(
    program_id: Address,
    ledger: LedgerView,
    accounts: Seq<AccountMeta>,
    id: Seq<char>,
) -> Step {
    if program_id != CHALLENGE_PROGRAM_ID {
        Err(mismatch())
    } else if accounts.len() < 2 {
        Err(ProcessorError::NotEnoughAccountKeys)
    } else {
        let creator = accounts[0];
        let challenge = accounts[1].pubkey;
        match spec_account_state_verifying_creator(ledger, challenge, creator, id) {
            Err(e) => Err(e),
            Ok(found) => if found.state.started {
                Err(ProcessorError::Custom(ChallengeError::ChallengeAlreadyStarted))
            } else if found.state.solutions.len() == 0 {
                Err(ProcessorError::Custom(ChallengeError::ChallengeHasNoSolutions))
            } else {
                Ok(
                    perform(
                        start_of(ledger),
                        ActionView::Write { account: challenge, data: started(found.state).encode() },
                    ),
                )
            },
        }
    }
}

/// Starts a challenge: only its authority may, only once, and only where
/// the challenge holds a solution.
pub fn process_start_challenge(program_id: &Address, ledger: &Ledger, accounts: &[AccountMeta], id: String) -> (r:
    Result<Execution, ProcessorError>)
    ensures
        step_of(r) == spec_process_start_challenge(*program_id, ledger@, accounts@, id@),
{
    assert_keys_equal(program_id, &challenge_id())?;
    if accounts.len() < 2 {
        return Err(ProcessorError::NotEnoughAccountKeys);
    }
    let creator = accounts[0];
    let challenge_pda = accounts[1].pubkey;
    let found = Challenge::account_state_verifying_creator(ledger, &challenge_pda, &creator, id.as_str())?;
    let mut challenge = found.state;
    assert_not_started(&challenge)?;
    assert_has_solutions(&challenge)?;
    proof {
        lemma_challenge_encode_decode(ledger@[challenge_pda].data);
    }
    challenge.started = true;
    let data = challenge.to_vec();
    let mut ex = Execution::begin(ledger);
    ex.perform(Action::Write { account: challenge_pda, data });
    Ok(ex)
}

// ---------------------------------------------------------------------------
// Create Challenge
// ---------------------------------------------------------------------------

/// The record of a challenge that was just created: not started, not
/// finished, with the first solution to solve next.
pub open spec fn created(
    creator: Address,
    id: Seq<char>,
    admit_cost: u64,
    tries_per_admit: u8,
    redeem: Address,
    solutions: Seq<Solution>,
) -> ChallengeView {
    ChallengeView {
        authority: creator,
        id,
        started: false,
        finished: false,
        admit_cost,
        tries_per_admit,
        redeem,
        solving: 0,
        solutions,
    }
}

/// The creation of the account of a challenge: the account supplied must
/// lie at the address derived from creator and id and hold no data; it is
/// created with the size of the record, owned by this program.
pub open spec fn spec_create_challenge_account(
    ex: ExecutionView,
    rent: Rent,
    program_id: Address,
    payer: Address,
    creator: Address,
    challenge: Address,
    id: Seq<char>,
    solutions: nat,
) -> Step {
    match spec_challenge_pda(creator, id) {
        None => Err(ProcessorError::InvalidSeeds),
        Some((pda, bump)) => if challenge != pda {
            Err(mismatch())
        } else if ex.ledger[challenge].data.len() != 0 {
            Err(ProcessorError::Custom(ChallengeError::AccountAlreadyHasData))
        } else {
            spec_allocate_account_and_assign_owner(
                ex,
                rent,
                payer,
                challenge,
                program_id,
                with_bump(challenge_seeds(creator, id), bump),
                spec_needed_size(solutions, id) as usize,
            )
        },
    }
}

/// The creation of the reward ledger of a challenge: the account supplied
/// must lie at the address derived from the address of the challenge and
/// hold no data; it becomes a mint whose authority is the challenge.
pub open spec fn spec_create_redeem_mint(
    ex: ExecutionView,
    rent: Rent,
    payer: Address,
    challenge: Address,
    mint: Address,
    token_program: Address,
) -> Step {
    match spec_redeem_pda(challenge) {
        None => Err(ProcessorError::InvalidSeeds),
        Some((pda, bump)) => if mint != pda {
            Err(mismatch())
        } else if ex.ledger[mint].data.len() != 0 {
            Err(ProcessorError::Custom(ChallengeError::AccountAlreadyHasData))
        } else {
            spec_create_mint(ex, rent, payer, mint, challenge, token_program, with_bump(redeem_seeds(challenge), bump))
        },
    }
}

/// What `CreateChallenge` does. Accounts: the payer, the creator, the
/// challenge, the mint of the reward ledger, the token program.
pub open spec fn spec_process_create_challenge(
    program_id: Address,
    ledger: LedgerView,
    accounts: Seq<AccountMeta>,
    rent: Rent,
    id: Seq<char>,
    admit_cost: u64,
    tries_per_admit: u8,
    redeem: Address,
    solutions: Seq<Solution>,
) -> Step {
    if program_id != CHALLENGE_PROGRAM_ID {
        Err(mismatch())
    } else if solutions.len() > MAX_SUPPORTED_SOLUTIONS {
        Err(ProcessorError::Custom(ChallengeError::ExceedingMaxSupportedSolutions))
    } else if accounts.len() < 5 {
        Err(ProcessorError::NotEnoughAccountKeys)
    } else {
        let payer = accounts[0].pubkey;
        let creator = accounts[1].pubkey;
        let challenge = accounts[2].pubkey;
        let mint = accounts[3].pubkey;
        let token_program = accounts[4].pubkey;
        if mint != redeem {
            Err(mismatch())
        } else {
            match spec_create_challenge_account(
                start_of(ledger),
                rent,
                program_id,
                payer,
                creator,
                challenge,
                id,
                solutions.len(),
            ) {
                Err(e) => Err(e),
                Ok(allocated) => match spec_create_redeem_mint(allocated, rent, payer, challenge, mint, token_program) {
                    Err(e) => Err(e),
                    Ok(minted) => Ok(
                        perform(
                            minted,
                            ActionView::Write {
                                account: challenge,
                                data: created(creator, id, admit_cost, tries_per_admit, redeem, solutions).encode(),
                            },
                        ),
                    ),
                },
            }
        }
    }
}

/// Creates the account of a challenge at the address derived from creator
/// and id, with room for the id and the given number of solutions.
fn create_challenge_account(
    ex: &mut Execution,
    rent: &Rent,
    program_id: &Address,
    payer: Address,
    creator: Address,
    challenge: Address,
    id: &str,
    solutions: &[Solution],
) -> (r: Result<(), ProcessorError>)
    requires
        solutions@.len() <= MAX_SUPPORTED_SOLUTIONS,
    ensures
        match r {
            Ok(()) => spec_create_challenge_account(
                old(ex)@,
                *rent,
                *program_id,
                payer,
                creator,
                challenge,
                id@,
                solutions@.len(),
            ) == Ok::<ExecutionView, ProcessorError>(final(ex)@),
            Err(e) => spec_create_challenge_account(
                old(ex)@,
                *rent,
                *program_id,
                payer,
                creator,
                challenge,
                id@,
                solutions@.len(),
            ) == Err::<ExecutionView, ProcessorError>(e),
        },
        r is Ok ==> vstd::utf8::encode_utf8(id@).len() <= MAX_ID_BYTES,
{
    let (pda, bump) = match Challenge::pda_for(&creator, id) {
        Some(derived) => derived,
        None => { return Err(ProcessorError::InvalidSeeds); },
    };
    assert_keys_equal(&challenge, &pda)?;
    assert_account_has_no_data(&ex.ledger, &challenge)?;
    let signer_seeds = Challenge::seeds_with_bump(&creator, id, bump);
    let size = Challenge::needed_size(solutions, id);
    allocate_account_and_assign_owner(
        ex,
        rent,
        AllocateAndAssignAccountArgs { payer, account: challenge, owner: *program_id, signer_seeds, size },
    )
}

/// Creates the mint of the reward ledger of a challenge at the address
/// derived from the address of the challenge.
fn create_redeem_mint(
    ex: &mut Execution,
    rent: &Rent,
    payer: Address,
    challenge: Address,
    mint: Address,
    token_program: Address,
) -> (r: Result<(), ProcessorError>)
    ensures
        match r {
            Ok(()) => spec_create_redeem_mint(old(ex)@, *rent, payer, challenge, mint, token_program) == Ok::<
                ExecutionView,
                ProcessorError,
            >(final(ex)@),
            Err(e) => spec_create_redeem_mint(old(ex)@, *rent, payer, challenge, mint, token_program) == Err::<
                ExecutionView,
                ProcessorError,
            >(e),
        },
{
    let (pda, bump) = match Redeem::pda_for(&challenge) {
        Some(derived) => derived,
        None => { return Err(ProcessorError::InvalidSeeds); },
    };
    assert_keys_equal(&mint, &pda)?;
    assert_account_has_no_data(&ex.ledger, &mint)?;
    let signer_seeds = Redeem::seeds_with_bump(&challenge, bump);
    create_mint(
        ex,
        rent,
        CreateMintArgs { payer, mint, mint_authority: challenge, spl_token_program: token_program, signer_seeds },
    )
}

/// Creates a challenge and its reward ledger: the account of the challenge
/// is sized for the id and the solutions and holds the record of a
/// challenge that is neither started nor finished; the mint of the reward
/// ledger has the challenge as its authority.
pub fn process_create_challenge(
    program_id: &Address,
    ledger: &Ledger,
    accounts: &[AccountMeta],
    rent: &Rent,
    id: String,
    admit_cost: u64,
    tries_per_admit: u8,
    redeem: Address,
    solutions: Vec<Solution>,
) -> (r: Result<Execution, ProcessorError>)
    ensures
        step_of(r) == spec_process_create_challenge(
            *program_id,
            ledger@,
            accounts@,
            *rent,
            id@,
            admit_cost,
            tries_per_admit,
            redeem,
            solutions@,
        ),
        r is Ok ==> holds_challenge(
            r->Ok_0@.ledger,
            accounts@[2].pubkey,
            created(accounts@[1].pubkey, id@, admit_cost, tries_per_admit, redeem, solutions@),
        ),
{
    assert_keys_equal(program_id, &challenge_id())?;
    assert_max_supported_solutions(solutions.as_slice())?;
    if accounts.len() < 5 {
        return Err(ProcessorError::NotEnoughAccountKeys);
    }
    let payer = accounts[0].pubkey;
    let creator = accounts[1].pubkey;
    let challenge_pda = accounts[2].pubkey;
    let redeem_pda = accounts[3].pubkey;
    let spl_token_program = accounts[4].pubkey;
    assert_keys_equal(&redeem_pda, &redeem)?;

    let mut ex = Execution::begin(ledger);
    create_challenge_account(
        &mut ex,
        rent,
        program_id,
        payer,
        creator,
        challenge_pda,
        id.as_str(),
        solutions.as_slice(),
    )?;
    create_redeem_mint(&mut ex, rent, payer, challenge_pda, redeem_pda, spl_token_program)?;

    let challenge = Challenge {
        authority: creator,
        id,
        started: false,
        finished: false,
        admit_cost,
        tries_per_admit,
        redeem,
        solving: 0,
        solutions,
    };
    let data = challenge.to_vec();
    proof {
        lemma_challenge_decode_encode(challenge@);
        lemma_challenge_encoded_size(challenge@);
    }
    ex.perform(Action::Write { account: challenge_pda, data });
    Ok(ex)
}

// ---------------------------------------------------------------------------
// Add Solutions
// ---------------------------------------------------------------------------

/// A challenge after solutions were appended to those it holds.
pub open spec fn grown(state: ChallengeView, extra_solutions: Seq<Solution>) -> ChallengeView {
    ChallengeView { solutions: state.solutions + extra_solutions, ..state }
}

/// What `AddSolutions` does. Accounts: the payer, the creator, who must
/// sign, and the challenge.
pub open spec fn spec_process_add_solutions(
    program_id: Address,
    ledger: LedgerView,
    accounts: Seq<AccountMeta>,
    rent: Rent,
    id: Seq<char>,
    extra_solutions: Seq<Solution>,
) -> Step {
    if program_id != CHALLENGE_PROGRAM_ID {
        Err(mismatch())
    } else if extra_solutions.len() == 0 {
        Err(ProcessorError::Custom(ChallengeError::NoSolutionsToAddProvided))
    } else if accounts.len() < 3 {
        Err(ProcessorError::NotEnoughAccountKeys)
    } else {
        let payer = accounts[0].pubkey;
        let creator = accounts[1];
        let challenge = accounts[2].pubkey;
        match spec_account_state_verifying_creator(ledger, challenge, creator, id) {
            Err(e) => Err(e),
            Ok(found) => if found.state.solutions.len() + extra_solutions.len() > MAX_SUPPORTED_SOLUTIONS {
                Err(ProcessorError::Custom(ChallengeError::ExceedingMaxSupportedSolutions))
            } else {
                let state = grown(found.state, extra_solutions);
                if spec_needed_size(state.solutions.len(), state.id) > usize::MAX {
                    Err(ProcessorError::ArithmeticOverflow)
                } else {
                    match spec_reallocate_account(
                        start_of(ledger),
                        rent,
                        payer,
                        challenge,
                        spec_needed_size(state.solutions.len(), state.id) as usize,
                    ) {
                        Err(e) => Err(e),
                        Ok(resized) => Ok(
                            perform(resized, ActionView::Write { account: challenge, data: state.encode() }),
                        ),
                    }
                }
            },
        }
    }
}

/// Appends solutions to a challenge: only its authority may, at least one
/// solution must be added, and the challenge must not come to hold more
/// than it supports. The account grows by 32 bytes for each solution.
pub fn process_add_solutions(
    program_id: &Address,
    ledger: &Ledger,
    accounts: &[AccountMeta],
    rent: &Rent,
    id: String,
    extra_solutions: Vec<Solution>,
) -> (r: Result<Execution, ProcessorError>)
    ensures
        step_of(r) == spec_process_add_solutions(*program_id, ledger@, accounts@, *rent, id@, extra_solutions@),
        r is Ok ==> holds_challenge(
            r->Ok_0@.ledger,
            accounts@[2].pubkey,
            grown(ChallengeView::decode(ledger@[accounts@[2].pubkey].data)->0, extra_solutions@),
        ),
{
    assert_keys_equal(program_id, &challenge_id())?;
    assert_adding_non_empty(extra_solutions.as_slice())?;
    if accounts.len() < 3 {
        return Err(ProcessorError::NotEnoughAccountKeys);
    }
    let payer = accounts[0].pubkey;
    let creator = accounts[1];
    let challenge_pda = accounts[2].pubkey;
    let found = Challenge::account_state_verifying_creator(ledger, &challenge_pda, &creator, id.as_str())?;
    let mut challenge = found.state;

    assert_can_add_solutions(challenge.solutions.as_slice(), extra_solutions.as_slice())?;
    proof {
        lemma_challenge_encode_decode(ledger@[challenge_pda].data);
    }
    let mut extra_solutions = extra_solutions;
    challenge.solutions.append(&mut extra_solutions);

    let size = match challenge.checked_size() {
        Some(size) => size,
        None => { return Err(ProcessorError::ArithmeticOverflow); },
    };
    let mut ex = Execution::begin(ledger);
    reallocate_account(&mut ex, rent, ReallocateAccountArgs { payer, account: challenge_pda, new_size: size })?;

    let data = challenge.to_vec();
    proof {
        lemma_challenge_decode_encode(challenge@);
        lemma_challenge_encoded_size(challenge@);
    }
    ex.perform(Action::Write { account: challenge_pda, data });
    Ok(ex)
}

// ---------------------------------------------------------------------------
// Admit Challenger
// ---------------------------------------------------------------------------

/// The record of a challenger that was just admitted.
pub open spec fn admitted(challenger: Address, challenge_pda: Address, tries_per_admit: u8) -> Challenger {
    Challenger { authority: challenger, challenge_pda, tries_remaining: tries_per_admit, redeemed: false }
}

/// What `AdmitChallenger` does. Accounts: the payer, the creator, the
/// challenge, the challenger, the record of the challenger.
pub open spec fn spec_process_admit_challenger(
    program_id: Address,
    ledger: LedgerView,
    accounts: Seq<AccountMeta>,
    rent: Rent,
    challenge_pda: Address,
) -> Step {
    if program_id != CHALLENGE_PROGRAM_ID {
        Err(mismatch())
    } else if accounts.len() < 5 {
        Err(ProcessorError::NotEnoughAccountKeys)
    } else {
        let payer = accounts[0].pubkey;
        let creator = accounts[1].pubkey;
        let challenge = accounts[2].pubkey;
        let challenger = accounts[3].pubkey;
        let record = accounts[4].pubkey;
        if challenge != challenge_pda {
            Err(mismatch())
        } else if account_exists(ledger, record) {
            Err(ProcessorError::Custom(ChallengeError::AccountAlreadyExists))
        } else {
            match spec_challenge_state(ledger, challenge) {
                Err(e) => Err(e),
                Ok(state) => if !state.started {
                    Err(ProcessorError::Custom(ChallengeError::ChallengeNotYetStarted))
                } else if state.finished {
                    Err(ProcessorError::Custom(ChallengeError::ChallengeAlreadyFinished))
                } else if creator != state.authority {
                    Err(mismatch())
                } else {
                    match spec_challenger_pda(challenge_pda, challenger) {
                        None => Err(ProcessorError::InvalidSeeds),
                        Some((pda, bump)) => if record != pda {
                            Err(mismatch())
                        } else {
                            match spec_allocate_account_and_assign_owner(
                                start_of(ledger),
                                rent,
                                payer,
                                record,
                                program_id,
                                with_bump(challenger_seeds(challenge_pda, challenger), bump),
                                CHALLENGER_SIZE,
                            ) {
                                Err(e) => Err(e),
                                Ok(allocated) => spec_transfer_lamports(
                                    perform(
                                        allocated,
                                        ActionView::Write {
                                            account: record,
                                            data: admitted(challenger, challenge_pda, state.tries_per_admit).encode(),
                                        },
                                    ),
                                    payer,
                                    creator,
                                    state.admit_cost,
                                ),
                            }
                        },
                    }
                },
            }
        }
    }
}

/// Admits a challenger to a challenge that is started and not finished:
/// the record of the challenger is created, which fails where it exists,
/// with the tries that the challenge grants, and the payer pays the
/// admission fee to the authority of the challenge.
pub fn process_admit_challenger(
    program_id: &Address,
    ledger: &Ledger,
    accounts: &[AccountMeta],
    rent: &Rent,
    challenge_pda: Address,
) -> (r: Result<Execution, ProcessorError>)
    ensures
        step_of(r) == spec_process_admit_challenger(*program_id, ledger@, accounts@, *rent, challenge_pda),
{
    assert_keys_equal(program_id, &challenge_id())?;
    if accounts.len() < 5 {
        return Err(ProcessorError::NotEnoughAccountKeys);
    }
    let payer = accounts[0].pubkey;
    let creator = accounts[1].pubkey;
    let challenge_key = accounts[2].pubkey;
    let challenger_key = accounts[3].pubkey;
    let challenger_pda = accounts[4].pubkey;

    assert_keys_equal(&challenge_key, &challenge_pda)?;
    assert_account_does_not_exist(ledger, &challenger_pda)?;

    let challenge: Challenge = ledger.try_state_from_account(&challenge_key)?;
    assert_started(&challenge)?;
    assert_not_finished(&challenge)?;
    assert_keys_equal(&creator, &challenge.authority)?;

    // 1. create the account of the challenger record
    let (pda, bump) = match Challenger::pda_for(&challenge_pda, &challenger_key) {
        Some(derived) => derived,
        None => { return Err(ProcessorError::InvalidSeeds); },
    };
    assert_keys_equal(&challenger_pda, &pda)?;
    let signer_seeds = Challenger::seeds_with_bump(&challenge_pda, &challenger_key, bump);
    let mut ex = Execution::begin(ledger);
    allocate_account_and_assign_owner(
        &mut ex,
        rent,
        AllocateAndAssignAccountArgs {
            payer,
            account: challenger_pda,
            owner: *program_id,
            signer_seeds,
            size: Challenger::size(),
        },
    )?;

    // 2. write the record with the tries that the challenge grants
    let challenger = Challenger {
        authority: challenger_key,
        challenge_pda,
        tries_remaining: challenge.tries_per_admit,
        redeemed: false,
    };
    ex.perform(Action::Write { account: challenger_pda, data: challenger.to_vec() });

    // 3. pay the admission fee to the authority
    transfer_lamports(&mut ex, &payer, &creator, challenge.admit_cost)?;
    Ok(ex)
}

// ---------------------------------------------------------------------------
// Redeem
// ---------------------------------------------------------------------------

/// A challenge after the solution that was next has been solved: the next
/// one is to solve, and the challenge is finished where none is left. The
/// index is one byte: where the last of 256 solutions was solved it stays
/// at 255, and the challenge is finished.
pub open spec fn solved(state: ChallengeView) -> ChallengeView {
    ChallengeView {
        solving: if state.solving < MAX_SOLVING { (state.solving + 1) as u8 } else { MAX_SOLVING },
        finished: state.solving + 1 >= state.solutions.len(),
        ..state
    }
}

/// A challenger record after an attempt: one try less, and marked as
/// redeemed where the attempt was correct.
pub open spec fn attempted(record: Challenger, correct: bool) -> Challenger {
    Challenger {
        tries_remaining: (record.tries_remaining - 1) as u8,
        redeemed: record.redeemed || correct,
        ..record
    }
}

/// The reward for a correct solution: the challenge moves on to the next
/// solution, and one token of the reward ledger is minted to the
/// challenger's associated account, with the challenge signing as the mint
/// authority.
pub open spec fn spec_reward(
    ex: ExecutionView,
    state: ChallengeView,
    payer: Address,
    challenge: Address,
    challenger: Address,
    mint: Address,
    associated_account: Address,
    token_program: Address,
) -> Step {
    let moved_on = perform(ex, ActionView::Write { account: challenge, data: solved(state).encode() });
    match spec_challenge_pda(state.authority, state.id) {
        None => Err(ProcessorError::InvalidSeeds),
        Some((_, bump)) => spec_mint_token_to_recvr(
            moved_on,
            payer,
            challenger,
            associated_account,
            mint,
            challenge,
            token_program,
            with_bump(challenge_seeds(state.authority, state.id), bump),
        ),
    }
}

/// What `Redeem` does. Accounts: the payer and the challenge, the
/// challenger and the record of the challenger, the mint of the reward
/// ledger and the challenger's associated account for it, the token
/// program. Payer and challenger must sign.
pub open spec fn spec_process_redeem(
    program_id: Address,
    ledger: LedgerView,
    accounts: Seq<AccountMeta>,
    solution: Solution,
) -> Step {
    if program_id != CHALLENGE_PROGRAM_ID {
        Err(mismatch())
    } else if accounts.len() < 7 {
        Err(ProcessorError::NotEnoughAccountKeys)
    } else {
        let payer = accounts[0];
        let challenge = accounts[1].pubkey;
        let challenger = accounts[2];
        let record = accounts[3].pubkey;
        let mint = accounts[4].pubkey;
        let associated_account = accounts[5].pubkey;
        let token_program = accounts[6].pubkey;
        if !payer.is_signer || !challenger.is_signer {
            Err(ProcessorError::Custom(ChallengeError::AccountShouldBeSigner))
        } else {
            match spec_challenger_state(ledger, record) {
                Err(e) => Err(e),
                Ok(admitted) => if admitted.challenge_pda != challenge {
                    Err(mismatch())
                } else {
                    match spec_challenge_state(ledger, challenge) {
                        Err(e) => Err(e),
                        Ok(state) => if !state.started {
                            Err(ProcessorError::Custom(ChallengeError::ChallengeNotYetStarted))
                        } else if state.finished {
                            Err(ProcessorError::Custom(ChallengeError::ChallengeAlreadyFinished))
                        } else if mint != state.redeem {
                            Err(mismatch())
                        } else if admitted.tries_remaining == 0 {
                            Err(ProcessorError::Custom(ChallengeError::ChallengerHasNoTriesRemaining))
                        } else if state.current_solution() is None {
                            Err(ProcessorError::Custom(ChallengeError::OutOfSolutions))
                        } else {
                            let correct = state.is_solution_correct(solution);
                            let rewarded = if correct {
                                spec_reward(
                                    start_of(ledger),
                                    state,
                                    payer.pubkey,
                                    challenge,
                                    challenger.pubkey,
                                    mint,
                                    associated_account,
                                    token_program,
                                )
                            } else {
                                Ok(start_of(ledger))
                            };
                            match rewarded {
                                Err(e) => Err(e),
                                Ok(rewarded) => Ok(
                                    perform(
                                        rewarded,
                                        ActionView::Write { account: record, data: attempted(admitted, correct).encode() },
                                    ),
                                ),
                            }
                        },
                    }
                },
            }
        }
    }
}

/// Moves a challenge on to its next solution and mints the reward.
fn reward(
    ex: &mut Execution,
    challenge: Challenge,
    payer: Address,
    challenge_pda: Address,
    challenger: Address,
    mint: Address,
    associated_account: Address,
    token_program: Address,
) -> (r: Result<(), ProcessorError>)
    requires
        challenge@.encodable(),
        challenge@.current_solution() is Some,
    ensures
        match r {
            Ok(()) => spec_reward(
                old(ex)@,
                challenge@,
                payer,
                challenge_pda,
                challenger,
                mint,
                associated_account,
                token_program,
            ) == Ok::<ExecutionView, ProcessorError>(final(ex)@),
            Err(e) => spec_reward(
                old(ex)@,
                challenge@,
                payer,
                challenge_pda,
                challenger,
                mint,
                associated_account,
                token_program,
            ) == Err::<ExecutionView, ProcessorError>(e),
        },
{
    let ghost before = challenge@;
    let mut challenge = challenge;
    challenge.finished = challenge.solving as usize + 1 >= challenge.solutions.len();
    if challenge.solving < MAX_SOLVING {
        challenge.solving += 1;
    }
    assert(challenge@ == solved(before));
    let data = challenge.to_vec();
    ex.perform(Action::Write { account: challenge_pda, data });

    let (_, bump) = match challenge.pda() {
        Some(derived) => derived,
        None => { return Err(ProcessorError::InvalidSeeds); },
    };
    let signer_seeds = Challenge::seeds_with_bump(&challenge.authority, challenge.id.as_str(), bump);
    mint_token_to_recvr(
        ex,
        MintTokenArgs {
            payer,
            recvr: challenger,
            recvr_ata: associated_account,
            mint,
            mint_authority: challenge_pda,
            spl_token_program: token_program,
            signer_seeds,
        },
    )
}

/// Takes one attempt of a challenger at the solution that is next. The
/// attempt costs one try whether it is correct or not. A correct attempt
/// moves the challenge on, finishes it where no solution is left, and mints
/// one reward token to the challenger; an incorrect one mints nothing.
pub fn process_redeem(program_id: &Address, ledger: &Ledger, accounts: &[AccountMeta], solution: Solution) -> (r:
    Result<Execution, ProcessorError>)
    ensures
        step_of(r) == spec_process_redeem(*program_id, ledger@, accounts@, solution),
{
    assert_keys_equal(program_id, &challenge_id())?;
    if accounts.len() < 7 {
        return Err(ProcessorError::NotEnoughAccountKeys);
    }
    let payer = accounts[0];
    let challenge_pda = accounts[1].pubkey;
    let challenger_info = accounts[2];
    let challenger_pda = accounts[3].pubkey;
    let redeem = accounts[4].pubkey;
    let redeem_ata = accounts[5].pubkey;
    let spl_token_program = accounts[6].pubkey;

    assert_is_signer(&payer)?;
    assert_is_signer(&challenger_info)?;

    let mut challenger: Challenger = ledger.try_state_from_account(&challenger_pda)?;
    assert_keys_equal(&challenger.challenge_pda, &challenge_pda)?;

    let challenge: Challenge = ledger.try_state_from_account(&challenge_pda)?;
    assert_started(&challenge)?;
    assert_not_finished(&challenge)?;
    assert_keys_equal(&redeem, &challenge.redeem)?;

    assert_challenger_has_tries_remaining(&challenger)?;
    assert_has_solution(&challenge)?;
    proof {
        lemma_challenge_encode_decode(ledger@[challenge_pda].data);
    }

    let mut ex = Execution::begin(ledger);
    if challenge.is_solution_correct(&solution) {
        reward(
            &mut ex,
            challenge,
            payer.pubkey,
            challenge_pda,
            challenger_info.pubkey,
            redeem,
            redeem_ata,
            spl_token_program,
        )?;
        challenger.redeemed = true;
    }
    // in all cases the attempt costs a try
    challenger.tries_remaining -= 1;
    ex.perform(Action::Write { account: challenger_pda, data: challenger.to_vec() });
    Ok(ex)
}

// ---------------------------------------------------------------------------
// Processor Entry
// ---------------------------------------------------------------------------

/// What the program does with an instruction: the data must be the layout
/// of an instruction, which goes to its handler.
pub open spec fn spec_process(
    program_id: Address,
    ledger: LedgerView,
    accounts: Seq<AccountMeta>,
    instruction_data: Seq<u8>,
    rent: Rent,
) -> Step {
    match InstructionView::decode(instruction_data) {
        None => Err(ProcessorError::InvalidInstructionData),
        Some(InstructionView::CreateChallenge { id, admit_cost, tries_per_admit, redeem, solutions }) =>
            spec_process_create_challenge(
                program_id,
                ledger,
                accounts,
                rent,
                id,
                admit_cost,
                tries_per_admit,
                redeem,
                solutions,
            ),
        Some(InstructionView::AddSolutions { id, solutions }) => spec_process_add_solutions(
            program_id,
            ledger,
            accounts,
            rent,
            id,
            solutions,
        ),
        Some(InstructionView::StartChallenge { id }) => spec_process_start_challenge(
            program_id,
            ledger,
            accounts,
            id,
        ),
        Some(InstructionView::AdmitChallenger { challenge_pda }) => spec_process_admit_challenger(
            program_id,
            ledger,
            accounts,
            rent,
            challenge_pda,
        ),
        Some(InstructionView::Redeem { solution }) => spec_process_redeem(program_id, ledger, accounts, solution),
    }
}

/// Processes one instruction against a ledger. On success the result holds
/// the requests to the host, in order, and the ledger as it stands after
/// them; the ledger passed in is never changed. On failure nothing is
/// planned: an instruction takes effect as a whole or not at all.
pub fn process(
    program_id: &Address,
    ledger: &Ledger,
    accounts: &[AccountMeta],
    instruction_data: &[u8],
    rent: &Rent,
) -> (r: Result<Execution, ProcessorError>)
    ensures
        step_of(r) == spec_process(*program_id, ledger@, accounts@, instruction_data@, *rent),
{
    let instruction = match ChallengeInstruction::try_from_slice(instruction_data) {
        Some(instruction) => instruction,
        None => { return Err(ProcessorError::InvalidInstructionData); },
    };
    match instruction {
        ChallengeInstruction::CreateChallenge { id, admit_cost, tries_per_admit, redeem, solutions } =>
            process_create_challenge(
                program_id,
                ledger,
                accounts,
                rent,
                id,
                admit_cost,
                tries_per_admit,
                redeem,
                solutions,
            ),
        ChallengeInstruction::AddSolutions { id, solutions } => process_add_solutions(
            program_id,
            ledger,
            accounts,
            rent,
            id,
            solutions,
        ),
        ChallengeInstruction::StartChallenge { id } => process_start_challenge(program_id, ledger, accounts, id),
        ChallengeInstruction::AdmitChallenger { challenge_pda } => process_admit_challenger(
            program_id,
            ledger,
            accounts,
            rent,
            challenge_pda,
        ),
        ChallengeInstruction::Redeem { solution } => process_redeem(program_id, ledger, accounts, solution),
    }
}

} // verus!
