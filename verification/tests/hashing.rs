use challenge::state::{Challenge, Challenger, Redeem};
use challenge::utils::{hash_solution_challenger_sends, hash_solutions};

const HELLO_ONCE: [u8; 32] = [
    44, 242, 77, 186, 95, 176, 163, 14, 38, 232, 59, 42, 197, 185, 226, 158, 27, 22, 30, 92, 31,
    167, 66, 94, 115, 4, 51, 98, 147, 139, 152, 36,
];

const HELLO_TWICE: [u8; 32] = [
    149, 149, 201, 223, 144, 7, 81, 72, 235, 6, 134, 3, 101, 223, 51, 88, 75, 117, 191, 247, 130,
    165, 16, 198, 205, 72, 131, 164, 25, 131, 61, 80,
];

#[test]
fn challenger_sends_the_sha256_of_the_plaintext() {
    assert_eq!(hash_solution_challenger_sends("hello"), HELLO_ONCE);
}

#[test]
fn stored_solution_is_the_double_hash() {
    let stored = hash_solutions(&["hello", "world"]);
    assert_eq!(stored.len(), 2);
    assert_eq!(stored[0], HELLO_TWICE);
    assert_ne!(stored[1], HELLO_TWICE);
}

#[test]
fn hashing_differs_from_its_input_and_between_inputs() {
    let hello = hash_solution_challenger_sends("hello");
    let world = hash_solution_challenger_sends("world");
    assert_ne!(hello, world);
    assert_eq!(hash_solution_challenger_sends(""), [
        0xe3, 0xb0, 0xc4, 0x42, 0x98, 0xfc, 0x1c, 0x14, 0x9a, 0xfb, 0xf4, 0xc8, 0x99, 0x6f, 0xb9, 0x24, 0x27,
        0xae, 0x41, 0xe4, 0x64, 0x9b, 0x93, 0x4c, 0xa4, 0x95, 0x99, 0x1b, 0x78, 0x52, 0xb8, 0x55,
    ]);
    assert!(hash_solutions(&[]).is_empty());
}

#[test]
fn records_are_reached_through_the_state_module() {
    let creator = [1u8; 32];
    let (challenge_pda, _) = Challenge::pda_for(&creator, "challenge-id").unwrap();
    let reward = Redeem::new(challenge_pda).unwrap();
    assert_eq!(Redeem::for_challenge_with(&creator, "challenge-id"), Some(reward));
    assert_eq!(Challenger::size(), 66);
}
