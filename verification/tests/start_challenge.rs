use challenge::action::Action;
use challenge::address::{Address, CHALLENGE_PROGRAM_ID, SYSTEM_PROGRAM_ID};
use challenge::error::{ChallengeError, ProcessorError};
use challenge::ixs::{start_challenge, AccountMeta, ChallengeInstruction, Instruction};
use challenge::ledger::Ledger;
use challenge::processor::process;
use challenge::rent::Rent;
use challenge::state::challenge::Challenge;
use challenge::utils::solutions::hash_solutions;
use challenge::Solution;

const ID: &str = "challenge-id";

fn start_rent() -> Rent {
    Rent { lamports_per_byte: 6_960, exemption_threshold: [0, 0, 0, 0, 0, 0, 240, 63], burn_percent: 50 }
}

fn start_payer() -> Address {
    [7u8; 32]
}

fn start_ledger() -> Ledger {
    let mut ledger = Ledger::new();
    ledger.set_account(&start_payer(), SYSTEM_PROGRAM_ID, 100_000_000_000, Vec::new());
    ledger
}

fn start_run(ledger: &mut Ledger, ix: &Instruction) -> Result<Vec<Action>, ProcessorError> {
    let done = process(&ix.program_id, ledger, &ix.accounts, &ix.data, &start_rent())?;
    *ledger = done.ledger;
    Ok(done.actions)
}

fn start_hash_solution(solution: &str) -> Solution {
    let sent = solana_program::hash::hash(solution.as_bytes()).to_bytes();
    solana_program::hash::hash(&sent).to_bytes()
}

fn start_add_challenge(ledger: &mut Ledger, solutions: Vec<&str>, authority: Option<Address>, started: bool) {
    let challenge = Challenge {
        authority: authority.unwrap_or(start_payer()),
        id: ID.to_string(),
        started,
        finished: false,
        admit_cost: 200,
        tries_per_admit: 1,
        redeem: [42u8; 32],
        solving: 0,
        solutions: hash_solutions(&solutions),
    };
    let (address, _) = challenge.pda().expect("no challenge address");
    let lamports = start_rent().minimum_balance(challenge.size()).expect("no rent");
    ledger.set_account(&address, CHALLENGE_PROGRAM_ID, lamports, challenge.try_to_vec().unwrap());
}

#[test]
fn start_challenge_that_is_not_started_and_has_solutions() {
    let mut ledger = start_ledger();
    let creator = start_payer();
    start_add_challenge(&mut ledger, vec!["hello", "world"], None, false);
    let (challenge_pda, _) = Challenge::pda_for(&start_payer(), ID).unwrap();

    let ix = start_challenge(creator, ID.to_string()).expect("failed to create instruction");
    start_run(&mut ledger, &ix).expect("Failed to start challenge");

    let value = Challenge::try_from_slice(&ledger.data(&challenge_pda)).expect("Unable to deserialize");
    assert_eq!(value.authority, creator);
    assert_eq!(value.id, ID);
    assert!(value.started);
    assert!(!value.finished);
    assert_eq!(value.admit_cost, 200);
    assert_eq!(value.tries_per_admit, 1);
    assert_eq!(value.solving, 0);
    assert_eq!(value.solutions.len(), 2);
    assert_eq!(value.solutions[0], start_hash_solution("hello"));
    assert_eq!(value.solutions[1], start_hash_solution("world"));
}

// -----------------
// Error Cases
// -----------------
#[test]
#[should_panic]
fn start_challenge_that_is_already_started_and_has_solutions() {
    let mut ledger = start_ledger();
    let creator = start_payer();
    start_add_challenge(&mut ledger, vec!["hello", "world"], None, true);

    let ix = start_challenge(creator, ID.to_string()).expect("failed to create instruction");
    start_run(&mut ledger, &ix).expect("Failed start challenge");
}

#[test]
#[should_panic]
fn start_challenge_that_is_not_started_but_has_no_solutions() {
    let mut ledger = start_ledger();
    let creator = start_payer();
    start_add_challenge(&mut ledger, vec![], None, false);

    let ix = start_challenge(creator, ID.to_string()).expect("failed to create instruction");
    start_run(&mut ledger, &ix).expect("Failed start challenge");
}

fn start_unsigned_ix(creator: Address) -> Instruction {
    let (challenge_pda, _) = Challenge::pda_for(&creator, ID).unwrap();
    Instruction {
        program_id: CHALLENGE_PROGRAM_ID,
        accounts: vec![AccountMeta::new_readonly(creator, false), AccountMeta::new(challenge_pda, false)],
        data: ChallengeInstruction::StartChallenge { id: ID.to_string() }
            .try_to_vec()
            .expect("failed to create custom instruction"),
    }
}

#[test]
#[should_panic]
fn start_challenge_with_creator_not_signer() {
    let mut ledger = start_ledger();
    let creator: Address = [21u8; 32];
    start_add_challenge(&mut ledger, vec!["hello", "world"], Some(creator), false);

    let ix = start_unsigned_ix(creator);
    start_run(&mut ledger, &ix).expect("Failed to start challenge");
}

// -----------------
// The errors, one by one
// -----------------

#[test]
fn start_twice_reports_already_started() {
    let mut ledger = start_ledger();
    start_add_challenge(&mut ledger, vec!["hello"], None, false);
    let ix = start_challenge(start_payer(), ID.to_string()).unwrap();
    start_run(&mut ledger, &ix).expect("Failed to start challenge");
    assert_eq!(
        start_run(&mut ledger, &ix).err(),
        Some(ProcessorError::Custom(ChallengeError::ChallengeAlreadyStarted))
    );
}

#[test]
fn start_without_solutions_reports_it_and_leaves_the_challenge_unchanged() {
    let mut ledger = start_ledger();
    start_add_challenge(&mut ledger, vec![], None, false);
    let (challenge_pda, _) = Challenge::pda_for(&start_payer(), ID).unwrap();
    let before = ledger.data(&challenge_pda);
    let ix = start_challenge(start_payer(), ID.to_string()).unwrap();
    assert_eq!(
        start_run(&mut ledger, &ix).err(),
        Some(ProcessorError::Custom(ChallengeError::ChallengeHasNoSolutions))
    );
    assert_eq!(ledger.data(&challenge_pda), before);
    let value = Challenge::try_from_slice(&before).unwrap();
    assert!(!value.started);
}

#[test]
fn start_with_unsigned_creator_reports_the_missing_signature() {
    let mut ledger = start_ledger();
    let creator: Address = [21u8; 32];
    start_add_challenge(&mut ledger, vec!["hello"], Some(creator), false);
    assert_eq!(
        start_run(&mut ledger, &start_unsigned_ix(creator)).err(),
        Some(ProcessorError::Custom(ChallengeError::AccountShouldBeSigner))
    );
}

#[test]
fn start_plans_one_write_of_the_same_size() {
    let mut ledger = start_ledger();
    start_add_challenge(&mut ledger, vec!["hello"], None, false);
    let (challenge_pda, _) = Challenge::pda_for(&start_payer(), ID).unwrap();
    let before = ledger.data(&challenge_pda);
    let ix = start_challenge(start_payer(), ID.to_string()).unwrap();
    let actions = start_run(&mut ledger, &ix).unwrap();
    assert_eq!(actions.len(), 1);
    match &actions[0] {
        Action::Write { account, data } => {
            assert_eq!(*account, challenge_pda);
            assert_eq!(data.len(), before.len());
            // only the flag that says started differs
            let differing: Vec<usize> = (0..data.len()).filter(|i| data[*i] != before[*i]).collect();
            assert_eq!(differing, vec![32 + 4 + 12]);
        }
        other => panic!("unexpected request {:?}", other),
    }
}

#[test]
fn start_with_too_few_accounts_fails() {
    let ledger = start_ledger();
    let ix = start_challenge(start_payer(), ID.to_string()).unwrap();
    let result = process(&ix.program_id, &ledger, &ix.accounts[..1], &ix.data, &start_rent());
    assert_eq!(result.err(), Some(ProcessorError::NotEnoughAccountKeys));
}
