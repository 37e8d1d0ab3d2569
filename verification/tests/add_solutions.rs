use challenge::action::Action;
use challenge::address::{Address, CHALLENGE_PROGRAM_ID, SYSTEM_PROGRAM_ID};
use challenge::error::{ChallengeError, ProcessorError};
use challenge::ixs::{add_solutions, AccountMeta, ChallengeInstruction, Instruction};
use challenge::ledger::Ledger;
use challenge::processor::process;
use challenge::rent::Rent;
use challenge::state::challenge::Challenge;
use challenge::utils::solutions::hash_solutions;
use challenge::Solution;

const ID: &str = "challenge-id";
const PAYER_LAMPORTS: u64 = 100_000_000_000;

fn add_rent() -> Rent {
    Rent { lamports_per_byte: 6_960, exemption_threshold: [0, 0, 0, 0, 0, 0, 240, 63], burn_percent: 50 }
}

fn add_payer() -> Address {
    [7u8; 32]
}

fn add_ledger() -> Ledger {
    let mut ledger = Ledger::new();
    ledger.set_account(&add_payer(), SYSTEM_PROGRAM_ID, PAYER_LAMPORTS, Vec::new());
    ledger
}

fn add_run(ledger: &mut Ledger, ix: &Instruction) -> Result<Vec<Action>, ProcessorError> {
    let done = process(&ix.program_id, ledger, &ix.accounts, &ix.data, &add_rent())?;
    *ledger = done.ledger;
    Ok(done.actions)
}

fn add_hash_solution(solution: &str) -> Solution {
    let sent = solana_program::hash::hash(solution.as_bytes()).to_bytes();
    solana_program::hash::hash(&sent).to_bytes()
}

/// Puts the account of a challenge on the ledger, funded for its size, and
/// gives back the lamports that it holds.
fn add_challenge_with_solutions(
    ledger: &mut Ledger,
    id: &str,
    solutions: Vec<&str>,
    authority: Option<Address>,
) -> u64 {
    let challenge = Challenge {
        authority: authority.unwrap_or(add_payer()),
        id: id.to_string(),
        started: false,
        finished: false,
        admit_cost: 200,
        tries_per_admit: 1,
        redeem: [42u8; 32],
        solving: 0,
        solutions: hash_solutions(&solutions),
    };
    let (address, _) = challenge.pda().expect("no challenge address");
    let lamports = add_rent().minimum_balance(challenge.size()).expect("no rent");
    ledger.set_account(&address, CHALLENGE_PROGRAM_ID, lamports, challenge.try_to_vec().unwrap());
    lamports
}

fn add_read_challenge(ledger: &Ledger, pda: &Address) -> Challenge {
    Challenge::try_from_slice(&ledger.data(pda)).expect("Unable to deserialize")
}

#[test]
fn add_solutions_creator_pays_to_empty_solutions() {
    let mut ledger = add_ledger();
    let creator = add_payer();
    let added_lamports = add_challenge_with_solutions(&mut ledger, ID, vec![], None);
    let (challenge_pda, _) = Challenge::pda_for(&add_payer(), ID).unwrap();

    let ix = add_solutions(add_payer(), creator, ID.to_string(), vec!["hello", "world"])
        .expect("failed to create instruction");
    add_run(&mut ledger, &ix).expect("Failed add solutions");

    let value = add_read_challenge(&ledger, &challenge_pda);
    assert_eq!(value.authority, creator);
    assert_eq!(value.id, ID);
    assert!(!value.started);
    assert_eq!(value.admit_cost, 200);
    assert_eq!(value.tries_per_admit, 1);
    assert_eq!(value.solving, 0);
    assert_eq!(value.solutions.len(), 2);
    assert_eq!(value.solutions[0], add_hash_solution("hello"));
    assert_eq!(value.solutions[1], add_hash_solution("world"));
    assert_eq!(ledger.data_len(&challenge_pda), Challenge::needed_size(&value.solutions, ID));
    assert!(ledger.lamports(&challenge_pda) > added_lamports, "does transfer extra lamports");
}

#[test]
fn add_solutions_creator_not_payer_to_empty_solutions() {
    let mut ledger = add_ledger();
    let creator: Address = [21u8; 32];
    let added_lamports = add_challenge_with_solutions(&mut ledger, ID, vec![], Some(creator));

    let ix = add_solutions(add_payer(), creator, ID.to_string(), vec!["hello", "world"])
        .expect("failed to create instruction");
    add_run(&mut ledger, &ix).expect("Failed add solutions");

    let (challenge_pda, _) = Challenge::pda_for(&creator, ID).unwrap();
    let value = add_read_challenge(&ledger, &challenge_pda);
    assert_eq!(value.authority, creator);
    assert_eq!(value.id, ID);
    assert!(!value.started);
    assert_eq!(value.admit_cost, 200);
    assert_eq!(value.tries_per_admit, 1);
    assert_eq!(value.solving, 0);
    assert_eq!(value.solutions.len(), 2);
    assert_eq!(value.solutions[0], add_hash_solution("hello"));
    assert_eq!(value.solutions[1], add_hash_solution("world"));
    assert_eq!(ledger.data_len(&challenge_pda), Challenge::needed_size(&value.solutions, ID));
    assert!(ledger.lamports(&challenge_pda) > added_lamports, "does transfer extra lamports");
    // the payer paid, the creator did not
    assert_eq!(ledger.lamports(&add_payer()), PAYER_LAMPORTS - 64 * 6_960);
    assert_eq!(ledger.lamports(&creator), 0);
}

#[test]
fn add_solutions_creator_pays_to_two_solutions() {
    let mut ledger = add_ledger();
    let creator = add_payer();
    let added_lamports = add_challenge_with_solutions(&mut ledger, ID, vec!["hola", "mundo"], None);
    let (challenge_pda, _) = Challenge::pda_for(&add_payer(), ID).unwrap();

    let ix = add_solutions(add_payer(), creator, ID.to_string(), vec!["hello", "world"])
        .expect("failed to create instruction");
    add_run(&mut ledger, &ix).expect("Failed add solutions");

    let value = add_read_challenge(&ledger, &challenge_pda);
    assert_eq!(value.authority, creator);
    assert_eq!(value.id, ID);
    assert!(!value.started);
    assert_eq!(value.admit_cost, 200);
    assert_eq!(value.tries_per_admit, 1);
    assert_eq!(value.solving, 0);
    assert_eq!(value.solutions.len(), 4);
    assert_eq!(value.solutions[0], add_hash_solution("hola"));
    assert_eq!(value.solutions[1], add_hash_solution("mundo"));
    assert_eq!(value.solutions[2], add_hash_solution("hello"));
    assert_eq!(value.solutions[3], add_hash_solution("world"));
    assert_eq!(ledger.data_len(&challenge_pda), Challenge::needed_size(&value.solutions, ID));
    assert_eq!(ledger.data_len(&challenge_pda), 84 + 12 + 4 * 32);
    assert!(ledger.lamports(&challenge_pda) > added_lamports, "does transfer extra lamports");
    assert_eq!(ledger.lamports(&challenge_pda), (128 + 84 + 12 + 4 * 32) * 6_960);
}

// -----------------
// Error Cases
// -----------------
#[test]
#[should_panic]
fn add_solutions_with_empty_solutions() {
    let mut ledger = add_ledger();
    let creator = add_payer();
    add_challenge_with_solutions(&mut ledger, ID, vec!["hola", "mundo"], None);

    let ix = add_solutions(add_payer(), creator, ID.to_string(), vec![])
        .expect("failed to create instruction");
    add_run(&mut ledger, &ix).expect("Failed add solutions");
}

#[test]
#[should_panic]
fn add_solutions_without_creating_account() {
    let mut ledger = add_ledger();
    let creator = add_payer();

    let ix = add_solutions(add_payer(), creator, ID.to_string(), vec!["hola", "mundo"])
        .expect("failed to create instruction");
    add_run(&mut ledger, &ix).expect("Failed add solutions");
}

fn add_custom_ix(creator_meta: AccountMeta, pda_creator: &Address, pda_id: &str, id: &str) -> Instruction {
    let (challenge_pda, _) = Challenge::pda_for(pda_creator, pda_id).unwrap();
    Instruction {
        program_id: CHALLENGE_PROGRAM_ID,
        accounts: vec![
            AccountMeta::new(add_payer(), true),
            creator_meta,
            AccountMeta::new(challenge_pda, false),
            AccountMeta::new_readonly(SYSTEM_PROGRAM_ID, false),
        ],
        data: ChallengeInstruction::AddSolutions {
            id: id.to_string(),
            solutions: hash_solutions(&["hola", "mundo"]),
        }
        .try_to_vec()
        .expect("failed to create custom instruction"),
    }
}

#[test]
#[should_panic]
fn add_solutions_with_invalid_creator() {
    let mut ledger = add_ledger();
    let creator = add_payer();
    add_challenge_with_solutions(&mut ledger, ID, vec![], Some(creator));

    let other_creator: Address = [33u8; 32];
    let ix = add_custom_ix(AccountMeta::new_readonly(other_creator, true), &creator, ID, ID);
    add_run(&mut ledger, &ix).expect("Failed add solutions");
}

#[test]
#[should_panic]
fn add_solutions_with_creator_not_signer() {
    let mut ledger = add_ledger();
    let creator: Address = [21u8; 32];
    add_challenge_with_solutions(&mut ledger, ID, vec![], Some(creator));

    let ix = add_custom_ix(AccountMeta::new_readonly(creator, false), &creator, ID, ID);
    add_run(&mut ledger, &ix).expect("Failed add solutions");
}

#[test]
#[should_panic]
fn add_solutions_creator_matches_but_id_is_different() {
    let mut ledger = add_ledger();
    let creator = add_payer();
    add_challenge_with_solutions(&mut ledger, ID, vec![], None);

    let ix = add_custom_ix(AccountMeta::new_readonly(creator, true), &creator, ID, "other_id");
    add_run(&mut ledger, &ix).expect("Failed add solutions");
}

// -----------------
// The errors, one by one
// -----------------

#[test]
fn add_no_solutions_reports_it() {
    let mut ledger = add_ledger();
    add_challenge_with_solutions(&mut ledger, ID, vec!["hola"], None);
    let ix = add_solutions(add_payer(), add_payer(), ID.to_string(), vec![]).unwrap();
    assert_eq!(
        add_run(&mut ledger, &ix).err(),
        Some(ProcessorError::Custom(ChallengeError::NoSolutionsToAddProvided))
    );
}

#[test]
fn add_to_a_missing_account_reports_no_data() {
    let mut ledger = add_ledger();
    let ix = add_solutions(add_payer(), add_payer(), ID.to_string(), vec!["hola"]).unwrap();
    assert_eq!(add_run(&mut ledger, &ix).err(), Some(ProcessorError::Custom(ChallengeError::AccountHasNoData)));
}

#[test]
fn add_to_an_unfunded_account_reports_it() {
    let mut ledger = add_ledger();
    add_challenge_with_solutions(&mut ledger, ID, vec!["hola"], None);
    let (challenge_pda, _) = Challenge::pda_for(&add_payer(), ID).unwrap();
    ledger.set_lamports(&challenge_pda, 0);
    let ix = add_solutions(add_payer(), add_payer(), ID.to_string(), vec!["hola"]).unwrap();
    assert_eq!(add_run(&mut ledger, &ix).err(), Some(ProcessorError::Custom(ChallengeError::AccountNotFunded)));
}

#[test]
fn add_to_garbled_data_reports_invalid_account_data() {
    let mut ledger = add_ledger();
    let (challenge_pda, _) = Challenge::pda_for(&add_payer(), ID).unwrap();
    ledger.set_account(&challenge_pda, CHALLENGE_PROGRAM_ID, 1_000_000, vec![1, 2, 3]);
    let ix = add_solutions(add_payer(), add_payer(), ID.to_string(), vec!["hola"]).unwrap();
    assert_eq!(add_run(&mut ledger, &ix).err(), Some(ProcessorError::InvalidAccountData));
}

#[test]
fn add_with_wrong_creator_reports_the_address_mismatch() {
    let mut ledger = add_ledger();
    let creator = add_payer();
    add_challenge_with_solutions(&mut ledger, ID, vec![], Some(creator));
    let ix = add_custom_ix(AccountMeta::new_readonly([33u8; 32], true), &creator, ID, ID);
    assert_eq!(
        add_run(&mut ledger, &ix).err(),
        Some(ProcessorError::Custom(ChallengeError::ProvidedAtaIsIncorrect))
    );
}

#[test]
fn add_with_unsigned_creator_reports_the_missing_signature() {
    let mut ledger = add_ledger();
    let creator: Address = [21u8; 32];
    add_challenge_with_solutions(&mut ledger, ID, vec![], Some(creator));
    let ix = add_custom_ix(AccountMeta::new_readonly(creator, false), &creator, ID, ID);
    assert_eq!(
        add_run(&mut ledger, &ix).err(),
        Some(ProcessorError::Custom(ChallengeError::AccountShouldBeSigner))
    );
}

#[test]
fn add_with_other_id_reports_the_address_mismatch() {
    let mut ledger = add_ledger();
    add_challenge_with_solutions(&mut ledger, ID, vec![], None);
    let ix = add_custom_ix(AccountMeta::new_readonly(add_payer(), true), &add_payer(), ID, "other_id");
    assert_eq!(
        add_run(&mut ledger, &ix).err(),
        Some(ProcessorError::Custom(ChallengeError::ProvidedAtaIsIncorrect))
    );
}

#[test]
fn add_beyond_the_most_supported_fails_and_up_to_it_succeeds() {
    let mut ledger = add_ledger();
    add_challenge_with_solutions(&mut ledger, ID, vec!["a"; 200], None);
    let (challenge_pda, _) = Challenge::pda_for(&add_payer(), ID).unwrap();

    let too_many = add_solutions(add_payer(), add_payer(), ID.to_string(), vec!["b"; 57]).unwrap();
    assert_eq!(
        add_run(&mut ledger, &too_many).err(),
        Some(ProcessorError::Custom(ChallengeError::ExceedingMaxSupportedSolutions))
    );
    assert_eq!(add_read_challenge(&ledger, &challenge_pda).solutions.len(), 200);

    let just_enough = add_solutions(add_payer(), add_payer(), ID.to_string(), vec!["b"; 56]).unwrap();
    add_run(&mut ledger, &just_enough).expect("Failed add solutions");
    assert_eq!(add_read_challenge(&ledger, &challenge_pda).solutions.len(), 256);
    assert_eq!(ledger.data_len(&challenge_pda), 84 + 12 + 32 * 256);
}

#[test]
fn add_plans_a_top_up_a_resize_and_a_write() {
    let mut ledger = add_ledger();
    add_challenge_with_solutions(&mut ledger, ID, vec!["hola"], None);
    let (challenge_pda, _) = Challenge::pda_for(&add_payer(), ID).unwrap();
    let ix = add_solutions(add_payer(), add_payer(), ID.to_string(), vec!["hello"]).unwrap();
    let actions = add_run(&mut ledger, &ix).expect("Failed add solutions");
    assert_eq!(actions.len(), 3);
    match &actions[0] {
        Action::Transfer { from, to, lamports } => {
            assert_eq!((*from, *to, *lamports), (add_payer(), challenge_pda, 32 * 6_960));
        }
        other => panic!("unexpected request {:?}", other),
    }
    match &actions[1] {
        Action::Resize { account, new_size } => {
            assert_eq!((*account, *new_size), (challenge_pda, 84 + 12 + 64));
        }
        other => panic!("unexpected request {:?}", other),
    }
    match &actions[2] {
        Action::Write { account, data } => {
            assert_eq!(*account, challenge_pda);
            assert_eq!(data.len(), 84 + 12 + 64);
        }
        other => panic!("unexpected request {:?}", other),
    }
}
