use challenge::action::Action;
use challenge::address::{Address, CHALLENGE_PROGRAM_ID, SYSTEM_PROGRAM_ID, TOKEN_PROGRAM_ID};
use challenge::error::{ChallengeError, ProcessorError};
use challenge::ixs::{redeem, AccountMeta, Instruction};
use challenge::ledger::Ledger;
use challenge::processor::process;
use challenge::rent::Rent;
use challenge::state::challenge::Challenge;
use challenge::state::challenger::Challenger;
use challenge::state::redeem::Redeem;
use challenge::utils::solutions::hash_solutions;

const ID: &str = "challenge-id";
const ADMIT_COST: u64 = 200;
const TRIES_PER_ADMIT: u8 = 11;

fn redeem_rent() -> Rent {
    Rent { lamports_per_byte: 6_960, exemption_threshold: [0, 0, 0, 0, 0, 0, 240, 63], burn_percent: 50 }
}

fn redeem_payer() -> Address {
    [7u8; 32]
}

fn redeem_ledger() -> Ledger {
    let mut ledger = Ledger::new();
    ledger.set_account(&redeem_payer(), SYSTEM_PROGRAM_ID, 100_000_000_000, Vec::new());
    ledger
}

fn redeem_run(ledger: &mut Ledger, ix: &Instruction) -> Result<Vec<Action>, ProcessorError> {
    let done = process(&ix.program_id, ledger, &ix.accounts, &ix.data, &redeem_rent())?;
    *ledger = done.ledger;
    Ok(done.actions)
}

fn redeem_challenge(creator: Address, solutions: &[&str]) -> Challenge {
    let mint = Redeem::for_challenge_with(&creator, ID).expect("no mint address");
    Challenge {
        authority: creator,
        id: ID.to_string(),
        started: true,
        finished: false,
        admit_cost: ADMIT_COST,
        tries_per_admit: TRIES_PER_ADMIT,
        redeem: mint.pda,
        solving: 0,
        solutions: hash_solutions(solutions),
    }
}

fn redeem_add_challenge(ledger: &mut Ledger, challenge: &Challenge) -> Address {
    let (address, _) = challenge.pda().expect("no challenge address");
    let lamports = redeem_rent().minimum_balance(challenge.size()).expect("no rent");
    ledger.set_account(&address, CHALLENGE_PROGRAM_ID, lamports, challenge.try_to_vec().unwrap());
    address
}

fn redeem_add_challenger(ledger: &mut Ledger, challenger: &Challenger) -> Address {
    let (address, _) = challenger.pda().expect("no challenger address");
    let lamports = redeem_rent().minimum_balance(Challenger::size()).expect("no rent");
    ledger.set_account(&address, CHALLENGE_PROGRAM_ID, lamports, challenger.to_vec());
    address
}

fn redeem_read_challenge(ledger: &Ledger, pda: &Address) -> Challenge {
    Challenge::try_from_slice(&ledger.data(pda)).expect("Unable to deserialize")
}

fn redeem_read_challenger(ledger: &Ledger, pda: &Address) -> Challenger {
    Challenger::try_from_slice(&ledger.data(pda)).expect("Unable to deserialize")
}

/// The tokens that a list of requests mints to an account of a mint.
fn minted(actions: &[Action], the_mint: &Address, to: &Address) -> u64 {
    actions
        .iter()
        .map(|action| match action {
            Action::MintTo { mint, account, amount, .. } if mint == the_mint && account == to => *amount,
            _ => 0,
        })
        .sum()
}

fn admitted_challenger_redeems_with(
    ledger: &mut Ledger,
    challenge: &Challenge,
    challenger_key: Address,
    creator: Address,
    solution: &str,
) -> (Challenger, Vec<Action>) {
    let challenger = Challenger {
        authority: challenger_key,
        challenge_pda: challenge.pda().unwrap().0,
        tries_remaining: TRIES_PER_ADMIT,
        redeemed: false,
    };
    redeem_add_challenger(ledger, &challenger);

    let ix = redeem(redeem_payer(), creator, ID, challenger_key, solution).expect("failed to create instruction");
    let actions = redeem_run(ledger, &ix).expect("Failed to redeem");
    (challenger, actions)
}

#[test]
fn redeem_for_valid_challenge_and_two_challengers_with_correct_solution() {
    let mut ledger = redeem_ledger();
    let creator: Address = [21u8; 32];

    let mint = Redeem::for_challenge_with(&creator, ID).unwrap();
    let challenge = redeem_challenge(creator, &["hello", "world"]);
    let challenge_pda = redeem_add_challenge(&mut ledger, &challenge);
    let mut supply = 0;

    // First challenger solves the challenge
    {
        let (challenger, actions) =
            admitted_challenger_redeems_with(&mut ledger, &challenge, [31u8; 32], creator, "hello");

        let value = redeem_read_challenger(&ledger, &challenger.pda().unwrap().0);
        assert!(value.redeemed);
        assert_eq!(value.tries_remaining, TRIES_PER_ADMIT - 1);

        let value = redeem_read_challenge(&ledger, &challenge_pda);
        assert!(value.started);
        assert!(!value.finished);
        assert_eq!(value.admit_cost, ADMIT_COST);
        assert_eq!(value.solving, 1);
        assert_eq!(value.tries_per_admit, TRIES_PER_ADMIT);

        let ata = mint.ata(&challenger.authority).unwrap();
        supply += minted(&actions, &mint.pda, &ata);
        assert_eq!(supply, 1);
    }
    // Second challenger solves the challenge which finishes it
    {
        let (challenger, actions) =
            admitted_challenger_redeems_with(&mut ledger, &challenge, [32u8; 32], creator, "world");

        let value = redeem_read_challenger(&ledger, &challenger.pda().unwrap().0);
        assert!(value.redeemed);
        assert_eq!(value.tries_remaining, TRIES_PER_ADMIT - 1);

        let value = redeem_read_challenge(&ledger, &challenge_pda);
        assert!(value.started);
        assert!(value.finished);
        assert_eq!(value.admit_cost, ADMIT_COST);
        assert_eq!(value.solving, 2);
        assert_eq!(value.tries_per_admit, TRIES_PER_ADMIT);

        let ata = mint.ata(&challenger.authority).unwrap();
        supply += minted(&actions, &mint.pda, &ata);
        assert_eq!(supply, 2);
    }
}

#[test]
fn redeem_with_correct_solution_plans_the_mint_of_one_token() {
    let mut ledger = redeem_ledger();
    let creator: Address = [21u8; 32];
    let challenger_key: Address = [31u8; 32];
    let mint = Redeem::for_challenge_with(&creator, ID).unwrap();
    let challenge = redeem_challenge(creator, &["hello", "world"]);
    let (challenge_pda, bump) = challenge.pda().unwrap();
    redeem_add_challenge(&mut ledger, &challenge);
    let (challenger, actions) =
        admitted_challenger_redeems_with(&mut ledger, &challenge, challenger_key, creator, "hello");
    let ata = mint.ata(&challenger_key).unwrap();

    assert_eq!(actions.len(), 4);
    match &actions[0] {
        Action::Write { account, data } => {
            assert_eq!(*account, challenge_pda);
            assert_eq!(data.len(), challenge.size());
        }
        other => panic!("unexpected request {:?}", other),
    }
    match &actions[1] {
        Action::CreateAssociatedTokenAccount { payer, wallet, mint: the_mint, token_program, associated_account } => {
            assert_eq!(*payer, redeem_payer());
            assert_eq!(*wallet, challenger_key);
            assert_eq!(*the_mint, mint.pda);
            assert_eq!(*token_program, TOKEN_PROGRAM_ID);
            assert_eq!(*associated_account, ata);
        }
        other => panic!("unexpected request {:?}", other),
    }
    match &actions[2] {
        Action::MintTo { token_program, mint: the_mint, account, mint_authority, amount, signer_seeds } => {
            assert_eq!(*token_program, TOKEN_PROGRAM_ID);
            assert_eq!(*the_mint, mint.pda);
            assert_eq!(*account, ata);
            assert_eq!(*mint_authority, challenge_pda);
            assert_eq!(*amount, 1);
            assert_eq!(
                signer_seeds,
                &vec![b"challenge".to_vec(), creator.to_vec(), ID.as_bytes().to_vec(), vec![bump]]
            );
        }
        other => panic!("unexpected request {:?}", other),
    }
    match &actions[3] {
        Action::Write { account, data } => {
            assert_eq!(*account, challenger.pda().unwrap().0);
            assert_eq!(data.len(), 66);
        }
        other => panic!("unexpected request {:?}", other),
    }
}

#[test]
fn redeem_with_incorrect_solution_costs_a_try_and_mints_nothing() {
    let mut ledger = redeem_ledger();
    let creator: Address = [21u8; 32];
    let mint = Redeem::for_challenge_with(&creator, ID).unwrap();
    let challenge = redeem_challenge(creator, &["hello", "world"]);
    let challenge_pda = redeem_add_challenge(&mut ledger, &challenge);
    let before = ledger.data(&challenge_pda);

    // "world" is a solution, but not the one that is next
    let (challenger, actions) =
        admitted_challenger_redeems_with(&mut ledger, &challenge, [31u8; 32], creator, "world");

    let value = redeem_read_challenger(&ledger, &challenger.pda().unwrap().0);
    assert!(!value.redeemed);
    assert_eq!(value.tries_remaining, TRIES_PER_ADMIT - 1);
    assert_eq!(ledger.data(&challenge_pda), before);
    assert_eq!(minted(&actions, &mint.pda, &mint.ata(&challenger.authority).unwrap()), 0);
    assert_eq!(actions.len(), 1);
    assert!(matches!(&actions[0], Action::Write { .. }));
}

#[test]
fn redeem_uses_up_the_tries_one_by_one() {
    let mut ledger = redeem_ledger();
    let creator: Address = [21u8; 32];
    let challenger_key: Address = [31u8; 32];
    let challenge = redeem_challenge(creator, &["hello"]);
    redeem_add_challenge(&mut ledger, &challenge);
    let record = redeem_add_challenger(
        &mut ledger,
        &Challenger {
            authority: challenger_key,
            challenge_pda: challenge.pda().unwrap().0,
            tries_remaining: 2,
            redeemed: false,
        },
    );
    let wrong = redeem(redeem_payer(), creator, ID, challenger_key, "nope").unwrap();
    redeem_run(&mut ledger, &wrong).expect("Failed to redeem");
    assert_eq!(redeem_read_challenger(&ledger, &record).tries_remaining, 1);
    redeem_run(&mut ledger, &wrong).expect("Failed to redeem");
    assert_eq!(redeem_read_challenger(&ledger, &record).tries_remaining, 0);
    assert_eq!(
        redeem_run(&mut ledger, &wrong).err(),
        Some(ProcessorError::Custom(ChallengeError::ChallengerHasNoTriesRemaining))
    );
    // not even the correct solution is accepted any more
    let right = redeem(redeem_payer(), creator, ID, challenger_key, "hello").unwrap();
    assert_eq!(
        redeem_run(&mut ledger, &right).err(),
        Some(ProcessorError::Custom(ChallengeError::ChallengerHasNoTriesRemaining))
    );
}

#[test]
fn redeem_after_the_challenge_finished_reports_it() {
    let mut ledger = redeem_ledger();
    let creator: Address = [21u8; 32];
    let challenge = redeem_challenge(creator, &["hello"]);
    let challenge_pda = redeem_add_challenge(&mut ledger, &challenge);
    admitted_challenger_redeems_with(&mut ledger, &challenge, [31u8; 32], creator, "hello");
    let value = redeem_read_challenge(&ledger, &challenge_pda);
    assert!(value.finished);
    assert_eq!(value.solving, 1);

    let late: Address = [32u8; 32];
    redeem_add_challenger(
        &mut ledger,
        &Challenger { authority: late, challenge_pda, tries_remaining: 3, redeemed: false },
    );
    let ix = redeem(redeem_payer(), creator, ID, late, "hello").unwrap();
    assert_eq!(
        redeem_run(&mut ledger, &ix).err(),
        Some(ProcessorError::Custom(ChallengeError::ChallengeAlreadyFinished))
    );
}

#[test]
fn redeem_before_the_challenge_started_reports_it() {
    let mut ledger = redeem_ledger();
    let creator: Address = [21u8; 32];
    let mut challenge = redeem_challenge(creator, &["hello"]);
    challenge.started = false;
    let challenge_pda = redeem_add_challenge(&mut ledger, &challenge);
    let challenger_key: Address = [31u8; 32];
    redeem_add_challenger(
        &mut ledger,
        &Challenger { authority: challenger_key, challenge_pda, tries_remaining: 3, redeemed: false },
    );
    let ix = redeem(redeem_payer(), creator, ID, challenger_key, "hello").unwrap();
    assert_eq!(
        redeem_run(&mut ledger, &ix).err(),
        Some(ProcessorError::Custom(ChallengeError::ChallengeNotYetStarted))
    );
}

#[test]
fn redeem_without_admission_reports_no_data() {
    let mut ledger = redeem_ledger();
    let creator: Address = [21u8; 32];
    redeem_add_challenge(&mut ledger, &redeem_challenge(creator, &["hello"]));
    let ix = redeem(redeem_payer(), creator, ID, [31u8; 32], "hello").unwrap();
    assert_eq!(redeem_run(&mut ledger, &ix).err(), Some(ProcessorError::Custom(ChallengeError::AccountHasNoData)));
}

#[test]
fn redeem_with_a_record_of_another_challenge_reports_the_mismatch() {
    let mut ledger = redeem_ledger();
    let creator: Address = [21u8; 32];
    redeem_add_challenge(&mut ledger, &redeem_challenge(creator, &["hello"]));
    let challenger_key: Address = [31u8; 32];
    let elsewhere = Challenger { authority: challenger_key, challenge_pda: [88u8; 32], tries_remaining: 3, redeemed: false };
    let record = redeem_add_challenger(&mut ledger, &elsewhere);
    let mut ix = redeem(redeem_payer(), creator, ID, challenger_key, "hello").unwrap();
    ix.accounts[3] = AccountMeta::new(record, false);
    assert_eq!(
        redeem_run(&mut ledger, &ix).err(),
        Some(ProcessorError::Custom(ChallengeError::ProvidedAtaIsIncorrect))
    );
}

#[test]
fn redeem_needs_the_signatures_of_payer_and_challenger() {
    let mut ledger = redeem_ledger();
    let creator: Address = [21u8; 32];
    let challenger_key: Address = [31u8; 32];
    let challenge = redeem_challenge(creator, &["hello"]);
    let challenge_pda = redeem_add_challenge(&mut ledger, &challenge);
    redeem_add_challenger(
        &mut ledger,
        &Challenger { authority: challenger_key, challenge_pda, tries_remaining: 3, redeemed: false },
    );
    let ix = redeem(redeem_payer(), creator, ID, challenger_key, "hello").unwrap();

    let mut unsigned_payer = Instruction { program_id: ix.program_id, accounts: ix.accounts.clone(), data: ix.data.clone() };
    unsigned_payer.accounts[0].is_signer = false;
    assert_eq!(
        redeem_run(&mut ledger, &unsigned_payer).err(),
        Some(ProcessorError::Custom(ChallengeError::AccountShouldBeSigner))
    );
    let mut unsigned_challenger = Instruction { program_id: ix.program_id, accounts: ix.accounts.clone(), data: ix.data.clone() };
    unsigned_challenger.accounts[2].is_signer = false;
    assert_eq!(
        redeem_run(&mut ledger, &unsigned_challenger).err(),
        Some(ProcessorError::Custom(ChallengeError::AccountShouldBeSigner))
    );
    redeem_run(&mut ledger, &ix).expect("Failed to redeem");
}

#[test]
fn redeem_with_another_mint_or_another_associated_account_reports_the_mismatch() {
    let mut ledger = redeem_ledger();
    let creator: Address = [21u8; 32];
    let challenger_key: Address = [31u8; 32];
    let challenge = redeem_challenge(creator, &["hello"]);
    let challenge_pda = redeem_add_challenge(&mut ledger, &challenge);
    let record = redeem_add_challenger(
        &mut ledger,
        &Challenger { authority: challenger_key, challenge_pda, tries_remaining: 3, redeemed: false },
    );
    let ix = redeem(redeem_payer(), creator, ID, challenger_key, "hello").unwrap();

    let mut other_mint = Instruction { program_id: ix.program_id, accounts: ix.accounts.clone(), data: ix.data.clone() };
    other_mint.accounts[4] = AccountMeta::new([90u8; 32], false);
    assert_eq!(
        redeem_run(&mut ledger, &other_mint).err(),
        Some(ProcessorError::Custom(ChallengeError::ProvidedAtaIsIncorrect))
    );

    let mut other_ata = Instruction { program_id: ix.program_id, accounts: ix.accounts.clone(), data: ix.data.clone() };
    other_ata.accounts[5] = AccountMeta::new([91u8; 32], false);
    assert_eq!(
        redeem_run(&mut ledger, &other_ata).err(),
        Some(ProcessorError::Custom(ChallengeError::ProvidedAtaIsIncorrect))
    );
    // the failed attempts cost no try and did not move the challenge on
    assert_eq!(redeem_read_challenger(&ledger, &record).tries_remaining, 3);
    assert_eq!(redeem_read_challenge(&ledger, &challenge_pda).solving, 0);
}

#[test]
fn redeem_where_no_solution_is_left_reports_out_of_solutions() {
    let mut ledger = redeem_ledger();
    let creator: Address = [21u8; 32];
    let challenger_key: Address = [31u8; 32];
    // a challenge that was started without this program's checks: it holds no solution
    let challenge = redeem_challenge(creator, &[]);
    let challenge_pda = redeem_add_challenge(&mut ledger, &challenge);
    redeem_add_challenger(
        &mut ledger,
        &Challenger { authority: challenger_key, challenge_pda, tries_remaining: 3, redeemed: false },
    );
    let ix = redeem(redeem_payer(), creator, ID, challenger_key, "hello").unwrap();
    assert_eq!(redeem_run(&mut ledger, &ix).err(), Some(ProcessorError::Custom(ChallengeError::OutOfSolutions)));
}

#[test]
fn redeem_with_too_few_accounts_fails() {
    let ledger = redeem_ledger();
    let ix = redeem(redeem_payer(), [21u8; 32], ID, [31u8; 32], "hello").unwrap();
    let result = process(&ix.program_id, &ledger, &ix.accounts[..6], &ix.data, &redeem_rent());
    assert_eq!(result.err(), Some(ProcessorError::NotEnoughAccountKeys));
}

#[test]
fn redeem_of_the_last_of_256_solutions_finishes_the_challenge() {
    let mut ledger = redeem_ledger();
    let creator: Address = [21u8; 32];
    let challenger_key: Address = [31u8; 32];
    let mut plaintexts: Vec<&str> = vec!["filler"; 255];
    plaintexts.push("the last one");
    let mut challenge = redeem_challenge(creator, &plaintexts);
    challenge.solving = 255;
    let challenge_pda = redeem_add_challenge(&mut ledger, &challenge);
    assert_eq!(ledger.data_len(&challenge_pda), 84 + 12 + 32 * 256);
    redeem_add_challenger(
        &mut ledger,
        &Challenger { authority: challenger_key, challenge_pda, tries_remaining: 2, redeemed: false },
    );
    let ix = redeem(redeem_payer(), creator, ID, challenger_key, "the last one").unwrap();
    let actions = redeem_run(&mut ledger, &ix).expect("Failed to redeem");
    let mint = Redeem::for_challenge_with(&creator, ID).unwrap();
    assert_eq!(minted(&actions, &mint.pda, &mint.ata(&challenger_key).unwrap()), 1);

    let value = redeem_read_challenge(&ledger, &challenge_pda);
    assert!(value.finished);
    assert_eq!(value.solving, 255);
    assert_eq!(
        redeem_run(&mut ledger, &ix).err(),
        Some(ProcessorError::Custom(ChallengeError::ChallengeAlreadyFinished))
    );
}

#[test]
fn redeem_never_moves_a_challenge_back() {
    let mut ledger = redeem_ledger();
    let creator: Address = [21u8; 32];
    let challenger_key: Address = [31u8; 32];
    let challenge = redeem_challenge(creator, &["one", "two", "three"]);
    let challenge_pda = redeem_add_challenge(&mut ledger, &challenge);
    redeem_add_challenger(
        &mut ledger,
        &Challenger { authority: challenger_key, challenge_pda, tries_remaining: 9, redeemed: false },
    );
    let mut last = (0u8, true, false);
    for attempt in ["nope", "one", "one", "three", "two", "two", "three"] {
        let ix = redeem(redeem_payer(), creator, ID, challenger_key, attempt).unwrap();
        let _ = redeem_run(&mut ledger, &ix);
        let value = redeem_read_challenge(&ledger, &challenge_pda);
        assert!(value.solving >= last.0);
        assert!(value.started || !last.1);
        assert!(value.finished || !last.2);
        last = (value.solving, value.started, value.finished);
    }
    assert_eq!(last, (3, true, true));
}
