use challenge::action::{Action, Execution};
use challenge::address::{Address, SYSTEM_PROGRAM_ID};
use challenge::error::{ChallengeError, ProcessorError};
use challenge::ixs::AccountMeta;
use challenge::ledger::Ledger;
use challenge::rent::Rent;
use challenge::utils::accounts::{
    allocate_account_and_assign_owner, reallocate_account, transfer_lamports, AllocateAndAssignAccountArgs,
    ReallocateAccountArgs,
};
use challenge::utils::asserts::{
    assert_account_does_not_exist, assert_account_has_no_data, assert_account_is_funded_and_has_data,
    assert_adding_non_empty, assert_can_add_solutions, assert_is_signer, assert_keys_equal,
    assert_max_supported_solutions,
};

fn model_rent() -> Rent {
    Rent { lamports_per_byte: 6_960, exemption_threshold: [0, 0, 0, 0, 0, 0, 240, 63], burn_percent: 50 }
}

const A: Address = [1u8; 32];
const B: Address = [2u8; 32];

#[test]
fn an_untouched_address_holds_the_vacant_account() {
    let ledger = Ledger::new();
    assert_eq!(ledger.lamports(&A), 0);
    assert_eq!(ledger.owner(&A), SYSTEM_PROGRAM_ID);
    assert_eq!(ledger.data_len(&A), 0);
    assert_eq!(ledger.data(&A), Vec::<u8>::new());
}

#[test]
fn setting_one_account_leaves_the_others() {
    let mut ledger = Ledger::new();
    ledger.set_account(&A, [9u8; 32], 5, vec![1, 2, 3]);
    ledger.set_account(&B, [8u8; 32], 6, vec![4]);
    ledger.set_lamports(&A, 7);
    ledger.set_data(&B, vec![5, 6]);
    ledger.set_owner(&B, [7u8; 32]);
    assert_eq!((ledger.owner(&A), ledger.lamports(&A), ledger.data(&A)), ([9u8; 32], 7, vec![1, 2, 3]));
    assert_eq!((ledger.owner(&B), ledger.lamports(&B), ledger.data(&B)), ([7u8; 32], 6, vec![5, 6]));
    let copy = ledger.duplicate();
    ledger.set_lamports(&A, 0);
    assert_eq!(copy.lamports(&A), 7);
    assert_eq!(copy.data(&B), vec![5, 6]);
}

#[test]
fn each_request_does_to_the_ledger_what_it_says() {
    let mut ledger = Ledger::new();
    ledger.set_account(&A, SYSTEM_PROGRAM_ID, 100, Vec::new());
    let mut ex = Execution::begin(&ledger);
    ex.perform(Action::Transfer { from: A, to: B, lamports: 30 });
    assert_eq!((ex.ledger.lamports(&A), ex.ledger.lamports(&B)), (70, 30));
    ex.perform(Action::Allocate { account: B, space: 4, signer_seeds: vec![] });
    assert_eq!(ex.ledger.data(&B), vec![0, 0, 0, 0]);
    ex.perform(Action::Write { account: B, data: vec![1, 2, 3, 4] });
    assert_eq!(ex.ledger.data(&B), vec![1, 2, 3, 4]);
    ex.perform(Action::Resize { account: B, new_size: 6 });
    assert_eq!(ex.ledger.data(&B), vec![1, 2, 3, 4, 0, 0]);
    ex.perform(Action::Resize { account: B, new_size: 2 });
    assert_eq!(ex.ledger.data(&B), vec![1, 2]);
    ex.perform(Action::Assign { account: B, owner: [5u8; 32], signer_seeds: vec![] });
    assert_eq!(ex.ledger.owner(&B), [5u8; 32]);
    ex.perform(Action::InitializeMint { token_program: A, mint: B, mint_authority: A, decimals: 0 });
    ex.perform(Action::MintTo {
        token_program: A,
        mint: B,
        account: A,
        mint_authority: A,
        amount: 1,
        signer_seeds: vec![],
    });
    assert_eq!((ex.ledger.lamports(&A), ex.ledger.lamports(&B)), (70, 30));
    assert_eq!(ex.ledger.data(&B), vec![1, 2]);
    assert_eq!(ex.actions.len(), 8);
    // the ledger that the run started on is untouched
    assert_eq!((ledger.lamports(&A), ledger.lamports(&B)), (100, 0));
}

#[test]
fn a_transfer_to_oneself_changes_nothing() {
    let mut ledger = Ledger::new();
    ledger.set_account(&A, SYSTEM_PROGRAM_ID, 100, Vec::new());
    let mut ex = Execution::begin(&ledger);
    assert_eq!(transfer_lamports(&mut ex, &A, &A, 100), Ok(()));
    assert_eq!(ex.ledger.lamports(&A), 100);
    assert_eq!(transfer_lamports(&mut ex, &A, &A, 101), Err(ProcessorError::Custom(ChallengeError::InsufficientFunds)));
}

#[test]
fn a_transfer_fails_without_funds_or_room() {
    let mut ledger = Ledger::new();
    ledger.set_account(&A, SYSTEM_PROGRAM_ID, 100, Vec::new());
    ledger.set_account(&B, SYSTEM_PROGRAM_ID, u64::MAX - 10, Vec::new());
    let mut ex = Execution::begin(&ledger);
    assert_eq!(
        transfer_lamports(&mut ex, &A, &B, 101),
        Err(ProcessorError::Custom(ChallengeError::InsufficientFunds))
    );
    assert_eq!(transfer_lamports(&mut ex, &A, &B, 11), Err(ProcessorError::ArithmeticOverflow));
    assert!(ex.actions.is_empty());
    assert_eq!(transfer_lamports(&mut ex, &A, &B, 10), Ok(()));
    assert_eq!((ex.ledger.lamports(&A), ex.ledger.lamports(&B)), (90, u64::MAX));
    assert_eq!(ex.actions, vec![Action::Transfer { from: A, to: B, lamports: 10 }]);
}

#[test]
fn creating_an_account_tops_it_up_to_the_minimum_balance() {
    let mut ledger = Ledger::new();
    ledger.set_account(&A, SYSTEM_PROGRAM_ID, 10_000_000, Vec::new());
    // the account holds a part of its rent already
    ledger.set_account(&B, SYSTEM_PROGRAM_ID, 1_000_000, Vec::new());
    let mut ex = Execution::begin(&ledger);
    let created = allocate_account_and_assign_owner(
        &mut ex,
        &model_rent(),
        AllocateAndAssignAccountArgs { payer: A, account: B, owner: [5u8; 32], signer_seeds: vec![vec![1]], size: 66 },
    );
    assert_eq!(created, Ok(()));
    assert_eq!(ex.ledger.lamports(&B), 1_350_240);
    assert_eq!(ex.ledger.lamports(&A), 10_000_000 - 350_240);
    assert_eq!(ex.ledger.data(&B), vec![0u8; 66]);
    assert_eq!(ex.ledger.owner(&B), [5u8; 32]);
    assert_eq!(
        ex.actions,
        vec![
            Action::Transfer { from: A, to: B, lamports: 350_240 },
            Action::Allocate { account: B, space: 66, signer_seeds: vec![vec![1]] },
            Action::Assign { account: B, owner: [5u8; 32], signer_seeds: vec![vec![1]] },
        ]
    );
}

#[test]
fn creating_an_account_that_holds_its_rent_transfers_nothing() {
    let mut ledger = Ledger::new();
    ledger.set_account(&B, SYSTEM_PROGRAM_ID, 2_000_000, Vec::new());
    let mut ex = Execution::begin(&ledger);
    let created = allocate_account_and_assign_owner(
        &mut ex,
        &model_rent(),
        AllocateAndAssignAccountArgs { payer: A, account: B, owner: [5u8; 32], signer_seeds: vec![], size: 66 },
    );
    assert_eq!(created, Ok(()));
    assert_eq!(ex.actions.len(), 2);
    assert_eq!(ex.ledger.lamports(&B), 2_000_000);
}

#[test]
fn creating_an_account_under_free_rent_still_funds_it_with_one_lamport() {
    let mut ledger = Ledger::new();
    ledger.set_account(&A, SYSTEM_PROGRAM_ID, 5, Vec::new());
    let free = Rent { lamports_per_byte: 0, ..model_rent() };
    let mut ex = Execution::begin(&ledger);
    let created = allocate_account_and_assign_owner(
        &mut ex,
        &free,
        AllocateAndAssignAccountArgs { payer: A, account: B, owner: [5u8; 32], signer_seeds: vec![], size: 66 },
    );
    assert_eq!(created, Ok(()));
    assert_eq!((ex.ledger.lamports(&A), ex.ledger.lamports(&B)), (4, 1));
}

#[test]
fn growing_an_account_tops_it_up_and_keeps_its_bytes() {
    let mut ledger = Ledger::new();
    ledger.set_account(&A, SYSTEM_PROGRAM_ID, 10_000_000, Vec::new());
    ledger.set_account(&B, [5u8; 32], (128 + 2) * 6_960, vec![7, 8]);
    let mut ex = Execution::begin(&ledger);
    let grown =
        reallocate_account(&mut ex, &model_rent(), ReallocateAccountArgs { payer: A, account: B, new_size: 5 });
    assert_eq!(grown, Ok(()));
    assert_eq!(ex.ledger.data(&B), vec![7, 8, 0, 0, 0]);
    assert_eq!(ex.ledger.lamports(&B), (128 + 5) * 6_960);
    assert_eq!(ex.ledger.lamports(&A), 10_000_000 - 3 * 6_960);

    let poor = Ledger::new();
    let mut ex = Execution::begin(&poor);
    let failed =
        reallocate_account(&mut ex, &model_rent(), ReallocateAccountArgs { payer: A, account: B, new_size: 5 });
    assert_eq!(failed, Err(ProcessorError::Custom(ChallengeError::InsufficientFunds)));
    assert!(ex.actions.is_empty());

    let mut ex = Execution::begin(&ledger);
    let too_large = reallocate_account(
        &mut ex,
        &model_rent(),
        ReallocateAccountArgs { payer: A, account: B, new_size: 11 * 1024 * 1024 },
    );
    assert_eq!(too_large, Err(ProcessorError::RentUnavailable));
}

#[test]
fn the_checks_report_their_errors() {
    let custom = |e: ChallengeError| Err::<(), ProcessorError>(ProcessorError::Custom(e));
    assert_eq!(assert_keys_equal(&A, &A), Ok(()));
    assert_eq!(assert_keys_equal(&A, &B), custom(ChallengeError::ProvidedAtaIsIncorrect));
    let mut nearly = A;
    nearly[31] = 0;
    assert_eq!(assert_keys_equal(&A, &nearly), custom(ChallengeError::ProvidedAtaIsIncorrect));

    assert_eq!(assert_max_supported_solutions(&vec![[0u8; 32]; 256]), Ok(()));
    assert_eq!(
        assert_max_supported_solutions(&vec![[0u8; 32]; 257]),
        custom(ChallengeError::ExceedingMaxSupportedSolutions)
    );
    assert_eq!(assert_can_add_solutions(&vec![[0u8; 32]; 200], &vec![[0u8; 32]; 56]), Ok(()));
    assert_eq!(
        assert_can_add_solutions(&vec![[0u8; 32]; 200], &vec![[0u8; 32]; 57]),
        custom(ChallengeError::ExceedingMaxSupportedSolutions)
    );
    assert_eq!(assert_adding_non_empty(&[[0u8; 32]]), Ok(()));
    assert_eq!(assert_adding_non_empty(&[]), custom(ChallengeError::NoSolutionsToAddProvided));

    assert_eq!(assert_is_signer(&AccountMeta::new(A, true)), Ok(()));
    assert_eq!(assert_is_signer(&AccountMeta::new(A, false)), custom(ChallengeError::AccountShouldBeSigner));

    let mut ledger = Ledger::new();
    assert_eq!(assert_account_does_not_exist(&ledger, &A), Ok(()));
    assert_eq!(assert_account_has_no_data(&ledger, &A), Ok(()));
    assert_eq!(assert_account_is_funded_and_has_data(&ledger, &A), custom(ChallengeError::AccountHasNoData));
    ledger.set_lamports(&A, 1);
    assert_eq!(assert_account_does_not_exist(&ledger, &A), custom(ChallengeError::AccountAlreadyExists));
    ledger.set_lamports(&A, 0);
    ledger.set_owner(&A, [5u8; 32]);
    assert_eq!(assert_account_does_not_exist(&ledger, &A), custom(ChallengeError::AccountAlreadyExists));
    ledger.set_owner(&A, SYSTEM_PROGRAM_ID);
    ledger.set_data(&A, vec![1]);
    assert_eq!(assert_account_does_not_exist(&ledger, &A), custom(ChallengeError::AccountAlreadyExists));
    assert_eq!(assert_account_has_no_data(&ledger, &A), custom(ChallengeError::AccountAlreadyHasData));
    assert_eq!(assert_account_is_funded_and_has_data(&ledger, &A), custom(ChallengeError::AccountNotFunded));
    ledger.set_lamports(&A, 1);
    assert_eq!(assert_account_is_funded_and_has_data(&ledger, &A), Ok(()));
}
