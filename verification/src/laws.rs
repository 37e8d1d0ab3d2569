//! What holds of the program as a whole: of every ledger, every list of
//! accounts and every instruction.

use vstd::prelude::*;
use crate::action::{perform, zeros, ActionView, ExecutionView};
use crate::address::Address;
use crate::error::{ChallengeError, ProcessorError};
use crate::ixs::{AccountMeta, InstructionView};
use crate::ledger::LedgerView;
use crate::processor::{
    admitted, attempted, created, grown, holds_challenge, solved, spec_create_challenge_account,
    spec_create_redeem_mint, spec_process, spec_process_add_solutions, spec_process_admit_challenger,
    spec_process_create_challenge, spec_process_redeem, spec_process_start_challenge, spec_reward,
    start_of, started,
};
use crate::rent::Rent;
use crate::state::challenge::{
    lemma_challenge_decode_encode, lemma_challenge_encode_decode, lemma_challenge_encoded_size,
    spec_needed_size, ChallengeView, EMPTY_CHALLENGE_SIZE_WITH_EMPTY_ID, MAX_SUPPORTED_SOLUTIONS,
};
use crate::state::challenger::{lemma_challenger_decode_encode, lemma_challenger_encode_decode, Challenger, CHALLENGER_SIZE};
use crate::utils::accounts::{
    spec_allocate_account_and_assign_owner, spec_reallocate_account, spec_transfer_lamports,
};
use crate::utils::asserts::account_exists;
use crate::utils::mint::{spec_create_mint, spec_mint_token_to_recvr, MINT_LEN};
use crate::utils::solutions::{spec_challenger_sends, spec_stored_solution};
use crate::Solution;

verus! {

// ---------------------------------------------------------------------------
// What each step leaves alone
// ---------------------------------------------------------------------------

/// Whether two ledgers hold the same buffer at every address but one.
pub open spec fn same_data_except(before: LedgerView, after: LedgerView, account: Address) -> bool {
    forall|key: Address| key != account ==> (#[trigger] after[key]).data == before[key].data
}

/// Whether two ledgers hold the same buffer at every address.
pub open spec fn same_data(before: LedgerView, after: LedgerView) -> bool {
    forall|key: Address| (#[trigger] after[key]).data == before[key].data
}

/// A transfer changes no buffer.
pub proof fn lemma_transfer_keeps_data(ex: ExecutionView, payer: Address, to: Address, lamports: u64)
    requires
        spec_transfer_lamports(ex, payer, to, lamports) is Ok,
    ensures
        same_data(ex.ledger, spec_transfer_lamports(ex, payer, to, lamports)->Ok_0.ledger),
{
}

/// Creating an account changes the buffer of that account alone, which
/// comes to hold as many zero bytes as the account was sized for.
pub proof fn lemma_allocate_data(
    ex: ExecutionView,
    rent: Rent,
    payer: Address,
    account: Address,
    owner: Address,
    signer_seeds: Seq<Seq<u8>>,
    size: usize,
)
    requires
        spec_allocate_account_and_assign_owner(ex, rent, payer, account, owner, signer_seeds, size) is Ok,
    ensures
        same_data_except(
            ex.ledger,
            spec_allocate_account_and_assign_owner(ex, rent, payer, account, owner, signer_seeds, size)->Ok_0.ledger,
            account,
        ),
        spec_allocate_account_and_assign_owner(
            ex,
            rent,
            payer,
            account,
            owner,
            signer_seeds,
            size,
        )->Ok_0.ledger[account].data == zeros(size as nat),
{
}

/// Resizing an account changes the buffer of that account alone.
pub proof fn lemma_reallocate_data(ex: ExecutionView, rent: Rent, payer: Address, account: Address, new_size: usize)
    requires
        spec_reallocate_account(ex, rent, payer, account, new_size) is Ok,
    ensures
        same_data_except(
            ex.ledger,
            spec_reallocate_account(ex, rent, payer, account, new_size)->Ok_0.ledger,
            account,
        ),
{
}

/// Creating a mint changes the buffer of the mint alone, which comes to
/// hold the zero bytes of a mint.
pub proof fn lemma_create_mint_data(
    ex: ExecutionView,
    rent: Rent,
    payer: Address,
    mint: Address,
    mint_authority: Address,
    token_program: Address,
    signer_seeds: Seq<Seq<u8>>,
)
    requires
        spec_create_mint(ex, rent, payer, mint, mint_authority, token_program, signer_seeds) is Ok,
    ensures
        same_data_except(
            ex.ledger,
            spec_create_mint(ex, rent, payer, mint, mint_authority, token_program, signer_seeds)->Ok_0.ledger,
            mint,
        ),
        spec_create_mint(
            ex,
            rent,
            payer,
            mint,
            mint_authority,
            token_program,
            signer_seeds,
        )->Ok_0.ledger[mint].data.len() == MINT_LEN,
{
    lemma_allocate_data(ex, rent, payer, mint, token_program, signer_seeds, MINT_LEN);
}

/// Minting the reward changes no account of this model.
pub proof fn lemma_mint_token_keeps_ledger(
    ex: ExecutionView,
    payer: Address,
    recvr: Address,
    recvr_ata: Address,
    mint: Address,
    mint_authority: Address,
    token_program: Address,
    signer_seeds: Seq<Seq<u8>>,
)
    requires
        spec_mint_token_to_recvr(ex, payer, recvr, recvr_ata, mint, mint_authority, token_program, signer_seeds) is Ok,
    ensures
        spec_mint_token_to_recvr(
            ex,
            payer,
            recvr,
            recvr_ata,
            mint,
            mint_authority,
            token_program,
            signer_seeds,
        )->Ok_0.ledger == ex.ledger,
{
}

/// Size invariant. A buffer that holds a challenge has exactly the size
/// that the challenge needs: the fixed part, the bytes of the id, and 32
/// bytes for each solution.
pub proof fn law_size_invariant(data: Seq<u8>)
    requires
        ChallengeView::decode(data) is Some,
    ensures
        data.len() == spec_needed_size(
            ChallengeView::decode(data)->0.solutions.len(),
            ChallengeView::decode(data)->0.id,
        ),
{
    lemma_challenge_encode_decode(data);
    lemma_challenge_encoded_size(ChallengeView::decode(data)->0);
}

/// Size invariant after `CreateChallenge`. Where the instruction succeeds,
/// the account of the challenge holds exactly the layout of the new record,
/// in a buffer of the size that the record needs.
pub proof fn law_create_sizes_the_account(
    program_id: Address,
    ledger: LedgerView,
    accounts: Seq<AccountMeta>,
    rent: Rent,
    id: Seq<char>,
    admit_cost: u64,
    tries_per_admit: u8,
    redeem: Address,
    solutions: Seq<Solution>,
)
    requires
        spec_process_create_challenge(
            program_id,
            ledger,
            accounts,
            rent,
            id,
            admit_cost,
            tries_per_admit,
            redeem,
            solutions,
        ) is Ok,
    ensures
        holds_challenge(
            spec_process_create_challenge(
                program_id,
                ledger,
                accounts,
                rent,
                id,
                admit_cost,
                tries_per_admit,
                redeem,
                solutions,
            )->Ok_0.ledger,
            accounts[2].pubkey,
            created(accounts[1].pubkey, id, admit_cost, tries_per_admit, redeem, solutions),
        ),
{
    let record = created(accounts[1].pubkey, id, admit_cost, tries_per_admit, redeem, solutions);
    lemma_challenge_decode_encode(record);
    lemma_challenge_encoded_size(record);
}

/// Size invariant after `AddSolutions`. Where the instruction succeeds, the
/// account of the challenge holds exactly the layout of the record with the
/// solutions appended, in a buffer of the size that this record needs.
pub proof fn law_add_solutions_sizes_the_account(
    program_id: Address,
    ledger: LedgerView,
    accounts: Seq<AccountMeta>,
    rent: Rent,
    id: Seq<char>,
    extra_solutions: Seq<Solution>,
)
    requires
        spec_process_add_solutions(program_id, ledger, accounts, rent, id, extra_solutions) is Ok,
    ensures
        holds_challenge(
            spec_process_add_solutions(program_id, ledger, accounts, rent, id, extra_solutions)->Ok_0.ledger,
            accounts[2].pubkey,
            grown(ChallengeView::decode(ledger[accounts[2].pubkey].data)->0, extra_solutions),
        ),
{
    let challenge = accounts[2].pubkey;
    let record = grown(ChallengeView::decode(ledger[challenge].data)->0, extra_solutions);
    lemma_challenge_encode_decode(ledger[challenge].data);
    lemma_challenge_decode_encode(record);
    lemma_challenge_encoded_size(record);
}

/// The layout of a challenge takes at least the bytes of its fixed part.
pub proof fn lemma_challenge_min_size(data: Seq<u8>)
    requires
        ChallengeView::decode(data) is Some,
    ensures
        data.len() >= EMPTY_CHALLENGE_SIZE_WITH_EMPTY_ID,
{
    lemma_challenge_encode_decode(data);
    lemma_challenge_encoded_size(ChallengeView::decode(data)->0);
}

// ---------------------------------------------------------------------------
// Monotonicity
// ---------------------------------------------------------------------------

/// Whether a challenge has not gone back: the index of the solution to
/// solve next has not decreased, and what was started or finished still is.
pub open spec fn advanced(before: ChallengeView, after: ChallengeView) -> bool {
    &&& before.solving <= after.solving
    &&& before.started ==> after.started
    &&& before.finished ==> after.finished
}

/// Whether no challenge on a ledger has gone back: wherever an account held
/// a challenge before and holds one after, the challenge has advanced.
pub open spec fn progress_kept(before: LedgerView, after: LedgerView) -> bool {
    forall|key: Address|
        ChallengeView::decode(before[key].data) is Some && ChallengeView::decode((#[trigger] after[key]).data) is Some
            ==> advanced(ChallengeView::decode(before[key].data)->0, ChallengeView::decode(after[key].data)->0)
}

/// `StartChallenge` lets no challenge go back.
pub proof fn lemma_start_keeps_progress(
    program_id: Address,
    ledger: LedgerView,
    accounts: Seq<AccountMeta>,
    id: Seq<char>,
)
    requires
        spec_process_start_challenge(program_id, ledger, accounts, id) is Ok,
    ensures
        progress_kept(ledger, spec_process_start_challenge(program_id, ledger, accounts, id)->Ok_0.ledger),
{
    let after = spec_process_start_challenge(program_id, ledger, accounts, id)->Ok_0.ledger;
    let challenge = accounts[1].pubkey;
    let state = ChallengeView::decode(ledger[challenge].data)->0;
    lemma_challenge_encode_decode(ledger[challenge].data);
    lemma_challenge_decode_encode(started(state));
    assert forall|key: Address|
        ChallengeView::decode(ledger[key].data) is Some && ChallengeView::decode((#[trigger] after[key]).data) is Some
        implies advanced(ChallengeView::decode(ledger[key].data)->0, ChallengeView::decode(after[key].data)->0) by {
        if key == challenge {
            assert(after[key].data == started(state).encode());
        } else {
            assert(after[key].data == ledger[key].data);
        }
    }
}

/// `AddSolutions` lets no challenge go back.
pub proof fn lemma_add_solutions_keeps_progress(
    program_id: Address,
    ledger: LedgerView,
    accounts: Seq<AccountMeta>,
    rent: Rent,
    id: Seq<char>,
    extra_solutions: Seq<Solution>,
)
    requires
        spec_process_add_solutions(program_id, ledger, accounts, rent, id, extra_solutions) is Ok,
    ensures
        progress_kept(
            ledger,
            spec_process_add_solutions(program_id, ledger, accounts, rent, id, extra_solutions)->Ok_0.ledger,
        ),
{
    let after = spec_process_add_solutions(program_id, ledger, accounts, rent, id, extra_solutions)->Ok_0.ledger;
    let payer = accounts[0].pubkey;
    let challenge = accounts[2].pubkey;
    let state = ChallengeView::decode(ledger[challenge].data)->0;
    let more = grown(state, extra_solutions);
    let size = spec_needed_size(more.solutions.len(), more.id) as usize;
    lemma_challenge_encode_decode(ledger[challenge].data);
    lemma_challenge_decode_encode(more);
    lemma_reallocate_data(start_of(ledger), rent, payer, challenge, size);
    let resized = spec_reallocate_account(start_of(ledger), rent, payer, challenge, size)->Ok_0;
    assert forall|key: Address|
        ChallengeView::decode(ledger[key].data) is Some && ChallengeView::decode((#[trigger] after[key]).data) is Some
        implies advanced(ChallengeView::decode(ledger[key].data)->0, ChallengeView::decode(after[key].data)->0) by {
        if key == challenge {
            assert(after[key].data == more.encode());
        } else {
            assert(resized.ledger[key].data == ledger[key].data);
            assert(after[key].data == ledger[key].data);
        }
    }
}

/// `CreateChallenge` lets no challenge go back: the two accounts that it
/// writes held no data before.
pub proof fn lemma_create_keeps_progress(
    program_id: Address,
    ledger: LedgerView,
    accounts: Seq<AccountMeta>,
    rent: Rent,
    id: Seq<char>,
    admit_cost: u64,
    tries_per_admit: u8,
    redeem: Address,
    solutions: Seq<Solution>,
)
    requires
        spec_process_create_challenge(
            program_id,
            ledger,
            accounts,
            rent,
            id,
            admit_cost,
            tries_per_admit,
            redeem,
            solutions,
        ) is Ok,
    ensures
        progress_kept(
            ledger,
            spec_process_create_challenge(
                program_id,
                ledger,
                accounts,
                rent,
                id,
                admit_cost,
                tries_per_admit,
                redeem,
                solutions,
            )->Ok_0.ledger,
        ),
{
    let after = spec_process_create_challenge(
        program_id,
        ledger,
        accounts,
        rent,
        id,
        admit_cost,
        tries_per_admit,
        redeem,
        solutions,
    )->Ok_0.ledger;
    let payer = accounts[0].pubkey;
    let creator = accounts[1].pubkey;
    let challenge = accounts[2].pubkey;
    let mint = accounts[3].pubkey;
    let token_program = accounts[4].pubkey;
    let bump = crate::address::bump_of(crate::state::challenge::spec_challenge_pda(creator, id));
    let size = spec_needed_size(solutions.len(), id) as usize;
    let seeds = crate::address::with_bump(crate::state::challenge::challenge_seeds(creator, id), bump);
    lemma_allocate_data(start_of(ledger), rent, payer, challenge, program_id, seeds, size);
    let allocated = spec_create_challenge_account(
        start_of(ledger),
        rent,
        program_id,
        payer,
        creator,
        challenge,
        id,
        solutions.len(),
    )->Ok_0;
    let mint_bump = crate::address::bump_of(crate::state::redeem::spec_redeem_pda(challenge));
    let mint_seeds = crate::address::with_bump(crate::state::redeem::redeem_seeds(challenge), mint_bump);
    lemma_create_mint_data(allocated, rent, payer, mint, challenge, token_program, mint_seeds);
    let minted = spec_create_redeem_mint(allocated, rent, payer, challenge, mint, token_program)->Ok_0;
    assert forall|key: Address|
        ChallengeView::decode(ledger[key].data) is Some && ChallengeView::decode((#[trigger] after[key]).data) is Some
        implies advanced(ChallengeView::decode(ledger[key].data)->0, ChallengeView::decode(after[key].data)->0) by {
        lemma_challenge_min_size(ledger[key].data);
        if key == challenge {
            assert(ledger[key].data.len() == 0);
        } else if key == mint {
            assert(allocated.ledger[key].data == ledger[key].data);
            assert(ledger[key].data.len() == 0);
        } else {
            assert(allocated.ledger[key].data == ledger[key].data);
            assert(minted.ledger[key].data == allocated.ledger[key].data);
            assert(after[key].data == ledger[key].data);
        }
    }
}

/// `AdmitChallenger` lets no challenge go back: the one account that it
/// writes did not exist before.
pub proof fn lemma_admit_keeps_progress(
    program_id: Address,
    ledger: LedgerView,
    accounts: Seq<AccountMeta>,
    rent: Rent,
    challenge_pda: Address,
)
    requires
        spec_process_admit_challenger(program_id, ledger, accounts, rent, challenge_pda) is Ok,
    ensures
        progress_kept(
            ledger,
            spec_process_admit_challenger(program_id, ledger, accounts, rent, challenge_pda)->Ok_0.ledger,
        ),
{
    let after = spec_process_admit_challenger(program_id, ledger, accounts, rent, challenge_pda)->Ok_0.ledger;
    let payer = accounts[0].pubkey;
    let creator = accounts[1].pubkey;
    let challenger = accounts[3].pubkey;
    let record = accounts[4].pubkey;
    let state = ChallengeView::decode(ledger[challenge_pda].data)->0;
    let bump = crate::address::bump_of(crate::state::challenger::spec_challenger_pda(challenge_pda, challenger));
    let seeds = crate::address::with_bump(
        crate::state::challenger::challenger_seeds(challenge_pda, challenger),
        bump,
    );
    lemma_allocate_data(start_of(ledger), rent, payer, record, program_id, seeds, CHALLENGER_SIZE);
    let allocated = spec_allocate_account_and_assign_owner(
        start_of(ledger),
        rent,
        payer,
        record,
        program_id,
        seeds,
        CHALLENGER_SIZE,
    )->Ok_0;
    let written = perform(
        allocated,
        ActionView::Write {
            account: record,
            data: admitted(challenger, challenge_pda, state.tries_per_admit).encode(),
        },
    );
    lemma_transfer_keeps_data(written, payer, creator, state.admit_cost);
    assert forall|key: Address|
        ChallengeView::decode(ledger[key].data) is Some && ChallengeView::decode((#[trigger] after[key]).data) is Some
        implies advanced(ChallengeView::decode(ledger[key].data)->0, ChallengeView::decode(after[key].data)->0) by {
        lemma_challenge_min_size(ledger[key].data);
        if key == record {
            assert(ledger[key].data.len() == 0);
        } else {
            assert(allocated.ledger[key].data == ledger[key].data);
            assert(written.ledger[key].data == ledger[key].data);
            assert(after[key].data == written.ledger[key].data);
        }
    }
}

/// `Redeem` lets no challenge go back: a correct attempt moves the
/// challenge on by one solution, an incorrect one leaves it as it is.
pub proof fn lemma_redeem_keeps_progress(
    program_id: Address,
    ledger: LedgerView,
    accounts: Seq<AccountMeta>,
    solution: Solution,
)
    requires
        spec_process_redeem(program_id, ledger, accounts, solution) is Ok,
    ensures
        progress_kept(ledger, spec_process_redeem(program_id, ledger, accounts, solution)->Ok_0.ledger),
{
    let after = spec_process_redeem(program_id, ledger, accounts, solution)->Ok_0.ledger;
    let payer = accounts[0].pubkey;
    let challenge = accounts[1].pubkey;
    let challenger = accounts[2].pubkey;
    let record = accounts[3].pubkey;
    let mint = accounts[4].pubkey;
    let associated_account = accounts[5].pubkey;
    let token_program = accounts[6].pubkey;
    let held = Challenger::decode(ledger[record].data)->0;
    let state = ChallengeView::decode(ledger[challenge].data)->0;
    let correct = state.is_solution_correct(solution);
    lemma_challenge_encode_decode(ledger[challenge].data);
    lemma_challenge_decode_encode(solved(state));
    lemma_challenger_decode_encode(attempted(held, correct));
    lemma_challenger_encode_decode(attempted(held, correct).encode());
    let rewarded = if correct {
        spec_reward(start_of(ledger), state, payer, challenge, challenger, mint, associated_account, token_program)->Ok_0
    } else {
        start_of(ledger)
    };
    if correct {
        let moved_on = perform(
            start_of(ledger),
            ActionView::Write { account: challenge, data: solved(state).encode() },
        );
        let bump = crate::address::bump_of(crate::state::challenge::spec_challenge_pda(state.authority, state.id));
        lemma_mint_token_keeps_ledger(
            moved_on,
            payer,
            challenger,
            associated_account,
            mint,
            challenge,
            token_program,
            crate::address::with_bump(crate::state::challenge::challenge_seeds(state.authority, state.id), bump),
        );
        assert(rewarded.ledger == moved_on.ledger);
    }
    assert forall|key: Address|
        ChallengeView::decode(ledger[key].data) is Some && ChallengeView::decode((#[trigger] after[key]).data) is Some
        implies advanced(ChallengeView::decode(ledger[key].data)->0, ChallengeView::decode(after[key].data)->0) by {
        if key == record {
            assert(after[key].data == attempted(held, correct).encode());
            lemma_challenge_min_size(after[key].data);
        } else if key == challenge && correct {
            assert(after[key].data == solved(state).encode());
        } else {
            assert(after[key].data == ledger[key].data);
        }
    }
}

/// Monotonicity. Whatever instruction the program processes on whatever
/// ledger: where it succeeds, the index of the solution to solve next has
/// decreased for no challenge, and no challenge that was started or
/// finished has ceased to be so.
pub proof fn law_progress_is_monotonic(
    program_id: Address,
    ledger: LedgerView,
    accounts: Seq<AccountMeta>,
    instruction_data: Seq<u8>,
    rent: Rent,
)
    requires
        spec_process(program_id, ledger, accounts, instruction_data, rent) is Ok,
    ensures
        progress_kept(ledger, spec_process(program_id, ledger, accounts, instruction_data, rent)->Ok_0.ledger),
{
    match InstructionView::decode(instruction_data) {
        None => {},
        Some(InstructionView::CreateChallenge { id, admit_cost, tries_per_admit, redeem, solutions }) => {
            lemma_create_keeps_progress(
                program_id,
                ledger,
                accounts,
                rent,
                id,
                admit_cost,
                tries_per_admit,
                redeem,
                solutions,
            );
        },
        Some(InstructionView::AddSolutions { id, solutions }) => {
            lemma_add_solutions_keeps_progress(program_id, ledger, accounts, rent, id, solutions);
        },
        Some(InstructionView::StartChallenge { id }) => {
            lemma_start_keeps_progress(program_id, ledger, accounts, id);
        },
        Some(InstructionView::AdmitChallenger { challenge_pda }) => {
            lemma_admit_keeps_progress(program_id, ledger, accounts, rent, challenge_pda);
        },
        Some(InstructionView::Redeem { solution }) => {
            lemma_redeem_keeps_progress(program_id, ledger, accounts, solution);
        },
    }
}

// ---------------------------------------------------------------------------
// Well-formed challenges
// ---------------------------------------------------------------------------

/// Whether every challenge on a ledger is well formed.
pub open spec fn all_well_formed(ledger: LedgerView) -> bool {
    forall|key: Address|
        ChallengeView::decode((#[trigger] ledger[key]).data) is Some ==> ChallengeView::decode(
            ledger[key].data,
        )->0.well_formed()
}

/// `StartChallenge` keeps every challenge well formed.
pub proof fn lemma_start_keeps_well_formed(
    program_id: Address,
    ledger: LedgerView,
    accounts: Seq<AccountMeta>,
    id: Seq<char>,
)
    requires
        spec_process_start_challenge(program_id, ledger, accounts, id) is Ok,
        all_well_formed(ledger),
    ensures
        all_well_formed(spec_process_start_challenge(program_id, ledger, accounts, id)->Ok_0.ledger),
{
    let after = spec_process_start_challenge(program_id, ledger, accounts, id)->Ok_0.ledger;
    let challenge = accounts[1].pubkey;
    let state = ChallengeView::decode(ledger[challenge].data)->0;
    lemma_challenge_encode_decode(ledger[challenge].data);
    lemma_challenge_decode_encode(started(state));
    assert(ledger[challenge] == ledger[challenge]);
    assert forall|key: Address| ChallengeView::decode((#[trigger] after[key]).data) is Some implies ChallengeView::decode(
        after[key].data,
    )->0.well_formed() by {
        if key == challenge {
            assert(after[key].data == started(state).encode());
        } else {
            assert(after[key].data == ledger[key].data);
        }
    }
}

/// `AddSolutions` keeps every challenge well formed.
pub proof fn lemma_add_solutions_keeps_well_formed(
    program_id: Address,
    ledger: LedgerView,
    accounts: Seq<AccountMeta>,
    rent: Rent,
    id: Seq<char>,
    extra_solutions: Seq<Solution>,
)
    requires
        spec_process_add_solutions(program_id, ledger, accounts, rent, id, extra_solutions) is Ok,
        all_well_formed(ledger),
    ensures
        all_well_formed(
            spec_process_add_solutions(program_id, ledger, accounts, rent, id, extra_solutions)->Ok_0.ledger,
        ),
{
    let after = spec_process_add_solutions(program_id, ledger, accounts, rent, id, extra_solutions)->Ok_0.ledger;
    let payer = accounts[0].pubkey;
    let challenge = accounts[2].pubkey;
    let state = ChallengeView::decode(ledger[challenge].data)->0;
    let more = grown(state, extra_solutions);
    let size = spec_needed_size(more.solutions.len(), more.id) as usize;
    lemma_challenge_encode_decode(ledger[challenge].data);
    lemma_challenge_decode_encode(more);
    lemma_reallocate_data(start_of(ledger), rent, payer, challenge, size);
    let resized = spec_reallocate_account(start_of(ledger), rent, payer, challenge, size)->Ok_0;
    assert(ledger[challenge] == ledger[challenge]);
    assert forall|key: Address| ChallengeView::decode((#[trigger] after[key]).data) is Some implies ChallengeView::decode(
        after[key].data,
    )->0.well_formed() by {
        if key == challenge {
            assert(after[key].data == more.encode());
        } else {
            assert(resized.ledger[key].data == ledger[key].data);
            assert(after[key].data == ledger[key].data);
        }
    }
}

/// `CreateChallenge` keeps every challenge well formed, and the challenge
/// that it creates is well formed.
pub proof fn lemma_create_keeps_well_formed(
    program_id: Address,
    ledger: LedgerView,
    accounts: Seq<AccountMeta>,
    rent: Rent,
    id: Seq<char>,
    admit_cost: u64,
    tries_per_admit: u8,
    redeem: Address,
    solutions: Seq<Solution>,
)
    requires
        spec_process_create_challenge(
            program_id,
            ledger,
            accounts,
            rent,
            id,
            admit_cost,
            tries_per_admit,
            redeem,
            solutions,
        ) is Ok,
        all_well_formed(ledger),
    ensures
        all_well_formed(
            spec_process_create_challenge(
                program_id,
                ledger,
                accounts,
                rent,
                id,
                admit_cost,
                tries_per_admit,
                redeem,
                solutions,
            )->Ok_0.ledger,
        ),
{
    let after = spec_process_create_challenge(
        program_id,
        ledger,
        accounts,
        rent,
        id,
        admit_cost,
        tries_per_admit,
        redeem,
        solutions,
    )->Ok_0.ledger;
    let payer = accounts[0].pubkey;
    let creator = accounts[1].pubkey;
    let challenge = accounts[2].pubkey;
    let mint = accounts[3].pubkey;
    let token_program = accounts[4].pubkey;
    let record = created(creator, id, admit_cost, tries_per_admit, redeem, solutions);
    let bump = crate::address::bump_of(crate::state::challenge::spec_challenge_pda(creator, id));
    let size = spec_needed_size(solutions.len(), id) as usize;
    let seeds = crate::address::with_bump(crate::state::challenge::challenge_seeds(creator, id), bump);
    lemma_allocate_data(start_of(ledger), rent, payer, challenge, program_id, seeds, size);
    let allocated = spec_create_challenge_account(
        start_of(ledger),
        rent,
        program_id,
        payer,
        creator,
        challenge,
        id,
        solutions.len(),
    )->Ok_0;
    let mint_bump = crate::address::bump_of(crate::state::redeem::spec_redeem_pda(challenge));
    let mint_seeds = crate::address::with_bump(crate::state::redeem::redeem_seeds(challenge), mint_bump);
    lemma_create_mint_data(allocated, rent, payer, mint, challenge, token_program, mint_seeds);
    let minted = spec_create_redeem_mint(allocated, rent, payer, challenge, mint, token_program)->Ok_0;
    lemma_challenge_decode_encode(record);
    assert forall|key: Address| ChallengeView::decode((#[trigger] after[key]).data) is Some implies ChallengeView::decode(
        after[key].data,
    )->0.well_formed() by {
        if key == challenge {
            assert(after[key].data == record.encode());
        } else if key == mint {
            assert(after[key].data == minted.ledger[key].data);
            lemma_challenge_min_size(after[key].data);
        } else {
            assert(allocated.ledger[key].data == ledger[key].data);
            assert(minted.ledger[key].data == allocated.ledger[key].data);
            assert(after[key].data == ledger[key].data);
            assert(ledger[key] == ledger[key]);
        }
    }
}

/// `AdmitChallenger` keeps every challenge well formed.
pub proof fn lemma_admit_keeps_well_formed(
    program_id: Address,
    ledger: LedgerView,
    accounts: Seq<AccountMeta>,
    rent: Rent,
    challenge_pda: Address,
)
    requires
        spec_process_admit_challenger(program_id, ledger, accounts, rent, challenge_pda) is Ok,
        all_well_formed(ledger),
    ensures
        all_well_formed(
            spec_process_admit_challenger(program_id, ledger, accounts, rent, challenge_pda)->Ok_0.ledger,
        ),
{
    let after = spec_process_admit_challenger(program_id, ledger, accounts, rent, challenge_pda)->Ok_0.ledger;
    let payer = accounts[0].pubkey;
    let creator = accounts[1].pubkey;
    let challenger = accounts[3].pubkey;
    let record = accounts[4].pubkey;
    let state = ChallengeView::decode(ledger[challenge_pda].data)->0;
    let bump = crate::address::bump_of(crate::state::challenger::spec_challenger_pda(challenge_pda, challenger));
    let seeds = crate::address::with_bump(
        crate::state::challenger::challenger_seeds(challenge_pda, challenger),
        bump,
    );
    lemma_allocate_data(start_of(ledger), rent, payer, record, program_id, seeds, CHALLENGER_SIZE);
    let allocated = spec_allocate_account_and_assign_owner(
        start_of(ledger),
        rent,
        payer,
        record,
        program_id,
        seeds,
        CHALLENGER_SIZE,
    )->Ok_0;
    let held = admitted(challenger, challenge_pda, state.tries_per_admit);
    let written = perform(allocated, ActionView::Write { account: record, data: held.encode() });
    lemma_transfer_keeps_data(written, payer, creator, state.admit_cost);
    lemma_challenger_decode_encode(held);
    lemma_challenger_encode_decode(held.encode());
    assert forall|key: Address| ChallengeView::decode((#[trigger] after[key]).data) is Some implies ChallengeView::decode(
        after[key].data,
    )->0.well_formed() by {
        assert(after[key].data == written.ledger[key].data);
        if key == record {
            assert(after[key].data == held.encode());
            lemma_challenge_min_size(after[key].data);
        } else {
            assert(allocated.ledger[key].data == ledger[key].data);
            assert(written.ledger[key].data == ledger[key].data);
            assert(ledger[key] == ledger[key]);
        }
    }
}

/// `Redeem` keeps every challenge well formed.
pub proof fn lemma_redeem_keeps_well_formed(
    program_id: Address,
    ledger: LedgerView,
    accounts: Seq<AccountMeta>,
    solution: Solution,
)
    requires
        spec_process_redeem(program_id, ledger, accounts, solution) is Ok,
        all_well_formed(ledger),
    ensures
        all_well_formed(spec_process_redeem(program_id, ledger, accounts, solution)->Ok_0.ledger),
{
    let after = spec_process_redeem(program_id, ledger, accounts, solution)->Ok_0.ledger;
    let payer = accounts[0].pubkey;
    let challenge = accounts[1].pubkey;
    let challenger = accounts[2].pubkey;
    let record = accounts[3].pubkey;
    let mint = accounts[4].pubkey;
    let associated_account = accounts[5].pubkey;
    let token_program = accounts[6].pubkey;
    let held = Challenger::decode(ledger[record].data)->0;
    let state = ChallengeView::decode(ledger[challenge].data)->0;
    let correct = state.is_solution_correct(solution);
    lemma_challenge_encode_decode(ledger[challenge].data);
    lemma_challenge_decode_encode(solved(state));
    lemma_challenger_decode_encode(attempted(held, correct));
    lemma_challenger_encode_decode(attempted(held, correct).encode());
    assert(ledger[challenge] == ledger[challenge]);
    let rewarded = if correct {
        spec_reward(start_of(ledger), state, payer, challenge, challenger, mint, associated_account, token_program)->Ok_0
    } else {
        start_of(ledger)
    };
    if correct {
        let moved_on = perform(
            start_of(ledger),
            ActionView::Write { account: challenge, data: solved(state).encode() },
        );
        let bump = crate::address::bump_of(crate::state::challenge::spec_challenge_pda(state.authority, state.id));
        lemma_mint_token_keeps_ledger(
            moved_on,
            payer,
            challenger,
            associated_account,
            mint,
            challenge,
            token_program,
            crate::address::with_bump(crate::state::challenge::challenge_seeds(state.authority, state.id), bump),
        );
        assert(rewarded.ledger == moved_on.ledger);
    }
    assert forall|key: Address| ChallengeView::decode((#[trigger] after[key]).data) is Some implies ChallengeView::decode(
        after[key].data,
    )->0.well_formed() by {
        if key == record {
            assert(after[key].data == attempted(held, correct).encode());
            lemma_challenge_min_size(after[key].data);
        } else if key == challenge && correct {
            assert(after[key].data == solved(state).encode());
        } else {
            assert(after[key].data == ledger[key].data);
            assert(ledger[key] == ledger[key]);
        }
    }
}

/// Well-formed challenges stay well formed. Whatever instruction the
/// program processes: where every challenge on the ledger is well formed
/// before, every challenge on it is well formed after, the one that the
/// instruction may have created among them.
pub proof fn law_well_formed_is_kept(
    program_id: Address,
    ledger: LedgerView,
    accounts: Seq<AccountMeta>,
    instruction_data: Seq<u8>,
    rent: Rent,
)
    requires
        spec_process(program_id, ledger, accounts, instruction_data, rent) is Ok,
        all_well_formed(ledger),
    ensures
        all_well_formed(spec_process(program_id, ledger, accounts, instruction_data, rent)->Ok_0.ledger),
{
    match InstructionView::decode(instruction_data) {
        None => {},
        Some(InstructionView::CreateChallenge { id, admit_cost, tries_per_admit, redeem, solutions }) => {
            lemma_create_keeps_well_formed(
                program_id,
                ledger,
                accounts,
                rent,
                id,
                admit_cost,
                tries_per_admit,
                redeem,
                solutions,
            );
        },
        Some(InstructionView::AddSolutions { id, solutions }) => {
            lemma_add_solutions_keeps_well_formed(program_id, ledger, accounts, rent, id, solutions);
        },
        Some(InstructionView::StartChallenge { id }) => {
            lemma_start_keeps_well_formed(program_id, ledger, accounts, id);
        },
        Some(InstructionView::AdmitChallenger { challenge_pda }) => {
            lemma_admit_keeps_well_formed(program_id, ledger, accounts, rent, challenge_pda);
        },
        Some(InstructionView::Redeem { solution }) => {
            lemma_redeem_keeps_well_formed(program_id, ledger, accounts, solution);
        },
    }
}

// ---------------------------------------------------------------------------
// Exclusivity
// ---------------------------------------------------------------------------

/// Exclusivity. Once a challenger was admitted to a challenge, every later
/// admission to that challenge that names the same record fails with
/// `AccountAlreadyExists`, whoever pays and whatever the rent is by then.
pub proof fn law_second_admission_fails(
    program_id: Address,
    ledger: LedgerView,
    accounts: Seq<AccountMeta>,
    rent: Rent,
    challenge_pda: Address,
    later_accounts: Seq<AccountMeta>,
    later_rent: Rent,
)
    requires
        spec_process_admit_challenger(program_id, ledger, accounts, rent, challenge_pda) is Ok,
        later_accounts.len() >= 5,
        later_accounts[2].pubkey == challenge_pda,
        later_accounts[4].pubkey == accounts[4].pubkey,
    ensures
        spec_process_admit_challenger(
            program_id,
            spec_process_admit_challenger(program_id, ledger, accounts, rent, challenge_pda)->Ok_0.ledger,
            later_accounts,
            later_rent,
            challenge_pda,
        ) == Err::<ExecutionView, ProcessorError>(ProcessorError::Custom(ChallengeError::AccountAlreadyExists)),
{
    let after = spec_process_admit_challenger(program_id, ledger, accounts, rent, challenge_pda)->Ok_0.ledger;
    let payer = accounts[0].pubkey;
    let creator = accounts[1].pubkey;
    let challenger = accounts[3].pubkey;
    let record = accounts[4].pubkey;
    let state = ChallengeView::decode(ledger[challenge_pda].data)->0;
    let bump = crate::address::bump_of(crate::state::challenger::spec_challenger_pda(challenge_pda, challenger));
    let seeds = crate::address::with_bump(
        crate::state::challenger::challenger_seeds(challenge_pda, challenger),
        bump,
    );
    let allocated = spec_allocate_account_and_assign_owner(
        start_of(ledger),
        rent,
        payer,
        record,
        program_id,
        seeds,
        CHALLENGER_SIZE,
    )->Ok_0;
    let held = admitted(challenger, challenge_pda, state.tries_per_admit);
    let written = perform(allocated, ActionView::Write { account: record, data: held.encode() });
    lemma_transfer_keeps_data(written, payer, creator, state.admit_cost);
    lemma_challenger_decode_encode(held);
    lemma_challenger_encode_decode(held.encode());
    assert(written.ledger[record].data == held.encode());
    assert(after[record].data == written.ledger[record].data);
    assert(account_exists(after, record));
}

// ---------------------------------------------------------------------------
// Commitment
// ---------------------------------------------------------------------------

/// Commitment correctness. A challenge stores for a plaintext the hash of
/// the hash of its bytes, and a challenger sends the hash of the bytes of a
/// plaintext. What a challenger sends for a plaintext is correct exactly
/// where a solution is left and the commitment to solve next is what the
/// challenge stores for that plaintext.
pub proof fn law_commitment(state: ChallengeView, sent: Solution, plaintext: Seq<char>)
    requires
        sent@ == spec_challenger_sends(plaintext),
    ensures
        state.is_solution_correct(sent) <==> (state.solving as int) < state.solutions.len()
            && state.solutions[state.solving as int]@ == spec_stored_solution(plaintext),
{
}

/// A correct attempt finishes a challenge exactly where it solves the last
/// solution. Where the challenge holds fewer than 256 solutions, the index
/// of the solution to solve next then equals the number of solutions.
pub proof fn law_finished_when_all_solved(state: ChallengeView)
    requires
        state.current_solution() is Some,
    ensures
        solved(state).finished <==> state.solving + 1 == state.solutions.len(),
        state.solutions.len() < MAX_SUPPORTED_SOLUTIONS ==> solved(state).solving == state.solving + 1 && (
        solved(state).finished <==> solved(state).solving == state.solutions.len()),
{
}

// ---------------------------------------------------------------------------
// The ledger of a run
// ---------------------------------------------------------------------------

/// A transfer keeps a run consistent with the ledger it started on.
proof fn lemma_transfer_consistent(start: LedgerView, ex: ExecutionView, payer: Address, to: Address, lamports: u64)
    requires
        crate::action::consistent(start, ex),
        spec_transfer_lamports(ex, payer, to, lamports) is Ok,
    ensures
        crate::action::consistent(start, spec_transfer_lamports(ex, payer, to, lamports)->Ok_0),
{
    crate::action::lemma_perform_consistent(start, ex, ActionView::Transfer { from: payer, to, lamports });
}

/// Creating an account keeps a run consistent with the ledger it started on.
proof fn lemma_allocate_consistent(
    start: LedgerView,
    ex: ExecutionView,
    rent: Rent,
    payer: Address,
    account: Address,
    owner: Address,
    signer_seeds: Seq<Seq<u8>>,
    size: usize,
)
    requires
        crate::action::consistent(start, ex),
        spec_allocate_account_and_assign_owner(ex, rent, payer, account, owner, signer_seeds, size) is Ok,
    ensures
        crate::action::consistent(
            start,
            spec_allocate_account_and_assign_owner(ex, rent, payer, account, owner, signer_seeds, size)->Ok_0,
        ),
{
    let minimum_balance = rent.spec_minimum_balance(size)->0;
    let required = crate::utils::accounts::lamports_to_create(minimum_balance, ex.ledger[account].lamports);
    let funded = if required > 0 {
        lemma_transfer_consistent(start, ex, payer, account, required);
        spec_transfer_lamports(ex, payer, account, required)->Ok_0
    } else {
        ex
    };
    let allocate = ActionView::Allocate { account, space: size, signer_seeds };
    crate::action::lemma_perform_consistent(start, funded, allocate);
    crate::action::lemma_perform_consistent(
        start,
        perform(funded, allocate),
        ActionView::Assign { account, owner, signer_seeds },
    );
}

/// The ledger of a run. Where the program succeeds, the ledger that it
/// hands back is the ledger that it was given after the requests that it
/// hands back were carried out in order.
pub proof fn law_ledger_follows_requests(
    program_id: Address,
    ledger: LedgerView,
    accounts: Seq<AccountMeta>,
    instruction_data: Seq<u8>,
    rent: Rent,
)
    requires
        spec_process(program_id, ledger, accounts, instruction_data, rent) is Ok,
    ensures
        crate::action::consistent(ledger, spec_process(program_id, ledger, accounts, instruction_data, rent)->Ok_0),
{
    let start = start_of(ledger);
    assert(crate::action::consistent(ledger, start));
    match InstructionView::decode(instruction_data) {
        None => {},
        Some(InstructionView::CreateChallenge { id, admit_cost, tries_per_admit, redeem, solutions }) => {
            let payer = accounts[0].pubkey;
            let creator = accounts[1].pubkey;
            let challenge = accounts[2].pubkey;
            let mint = accounts[3].pubkey;
            let token_program = accounts[4].pubkey;
            let bump = crate::address::bump_of(crate::state::challenge::spec_challenge_pda(creator, id));
            let seeds = crate::address::with_bump(crate::state::challenge::challenge_seeds(creator, id), bump);
            let size = spec_needed_size(solutions.len(), id) as usize;
            lemma_allocate_consistent(ledger, start, rent, payer, challenge, program_id, seeds, size);
            let allocated = spec_allocate_account_and_assign_owner(
                start,
                rent,
                payer,
                challenge,
                program_id,
                seeds,
                size,
            )->Ok_0;
            let mint_bump = crate::address::bump_of(crate::state::redeem::spec_redeem_pda(challenge));
            let mint_seeds = crate::address::with_bump(crate::state::redeem::redeem_seeds(challenge), mint_bump);
            lemma_allocate_consistent(ledger, allocated, rent, payer, mint, token_program, mint_seeds, MINT_LEN);
            let mint_allocated = spec_allocate_account_and_assign_owner(
                allocated,
                rent,
                payer,
                mint,
                token_program,
                mint_seeds,
                MINT_LEN,
            )->Ok_0;
            let initialize = ActionView::InitializeMint {
                token_program,
                mint,
                mint_authority: challenge,
                decimals: 0,
            };
            crate::action::lemma_perform_consistent(ledger, mint_allocated, initialize);
            crate::action::lemma_perform_consistent(
                ledger,
                perform(mint_allocated, initialize),
                ActionView::Write {
                    account: challenge,
                    data: created(creator, id, admit_cost, tries_per_admit, redeem, solutions).encode(),
                },
            );
        },
        Some(InstructionView::AddSolutions { id, solutions }) => {
            let payer = accounts[0].pubkey;
            let challenge = accounts[2].pubkey;
            let state = grown(ChallengeView::decode(ledger[challenge].data)->0, solutions);
            let size = spec_needed_size(state.solutions.len(), state.id) as usize;
            let minimum_balance = rent.spec_minimum_balance(size)->0;
            let required = crate::utils::accounts::lamports_to_grow(minimum_balance, ledger[challenge].lamports);
            let funded = if required > 0 {
                lemma_transfer_consistent(ledger, start, payer, challenge, required);
                spec_transfer_lamports(start, payer, challenge, required)->Ok_0
            } else {
                start
            };
            let resize = ActionView::Resize { account: challenge, new_size: size };
            crate::action::lemma_perform_consistent(ledger, funded, resize);
            crate::action::lemma_perform_consistent(
                ledger,
                perform(funded, resize),
                ActionView::Write { account: challenge, data: state.encode() },
            );
        },
        Some(InstructionView::StartChallenge { id }) => {
            let challenge = accounts[1].pubkey;
            let state = ChallengeView::decode(ledger[challenge].data)->0;
            crate::action::lemma_perform_consistent(
                ledger,
                start,
                ActionView::Write { account: challenge, data: started(state).encode() },
            );
        },
        Some(InstructionView::AdmitChallenger { challenge_pda }) => {
            let payer = accounts[0].pubkey;
            let creator = accounts[1].pubkey;
            let challenger = accounts[3].pubkey;
            let record = accounts[4].pubkey;
            let state = ChallengeView::decode(ledger[challenge_pda].data)->0;
            let bump = crate::address::bump_of(
                crate::state::challenger::spec_challenger_pda(challenge_pda, challenger),
            );
            let seeds = crate::address::with_bump(
                crate::state::challenger::challenger_seeds(challenge_pda, challenger),
                bump,
            );
            lemma_allocate_consistent(ledger, start, rent, payer, record, program_id, seeds, CHALLENGER_SIZE);
            let allocated = spec_allocate_account_and_assign_owner(
                start,
                rent,
                payer,
                record,
                program_id,
                seeds,
                CHALLENGER_SIZE,
            )->Ok_0;
            let write = ActionView::Write {
                account: record,
                data: admitted(challenger, challenge_pda, state.tries_per_admit).encode(),
            };
            crate::action::lemma_perform_consistent(ledger, allocated, write);
            lemma_transfer_consistent(ledger, perform(allocated, write), payer, creator, state.admit_cost);
        },
        Some(InstructionView::Redeem { solution }) => {
            let payer = accounts[0].pubkey;
            let challenge = accounts[1].pubkey;
            let challenger = accounts[2].pubkey;
            let record = accounts[3].pubkey;
            let mint = accounts[4].pubkey;
            let associated_account = accounts[5].pubkey;
            let token_program = accounts[6].pubkey;
            let held = Challenger::decode(ledger[record].data)->0;
            let state = ChallengeView::decode(ledger[challenge].data)->0;
            let correct = state.is_solution_correct(solution);
            let rewarded = if correct {
                let write = ActionView::Write { account: challenge, data: solved(state).encode() };
                crate::action::lemma_perform_consistent(ledger, start, write);
                let bump = crate::address::bump_of(
                    crate::state::challenge::spec_challenge_pda(state.authority, state.id),
                );
                let create = ActionView::CreateAssociatedTokenAccount {
                    payer,
                    wallet: challenger,
                    mint,
                    token_program,
                    associated_account,
                };
                crate::action::lemma_perform_consistent(ledger, perform(start, write), create);
                let mint_to = ActionView::MintTo {
                    token_program,
                    mint,
                    account: associated_account,
                    mint_authority: challenge,
                    amount: crate::utils::mint::REWARD_AMOUNT,
                    signer_seeds: crate::address::with_bump(
                        crate::state::challenge::challenge_seeds(state.authority, state.id),
                        bump,
                    ),
                };
                crate::action::lemma_perform_consistent(ledger, perform(perform(start, write), create), mint_to);
                perform(perform(perform(start, write), create), mint_to)
            } else {
                start
            };
            crate::action::lemma_perform_consistent(
                ledger,
                rewarded,
                ActionView::Write { account: record, data: attempted(held, correct).encode() },
            );
        },
    }
}

} // verus!
