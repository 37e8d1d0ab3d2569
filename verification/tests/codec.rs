use challenge::ixs::ChallengeInstruction;
use challenge::state::challenge::Challenge;
use challenge::state::challenger::Challenger;
use challenge::Solution;

fn codec_solution(n: u8) -> Solution {
    let mut s = [n; 32];
    s[31] = 255 - n;
    s
}

fn codec_instructions() -> Vec<ChallengeInstruction> {
    vec![
        ChallengeInstruction::CreateChallenge {
            id: "challenge-id".to_string(),
            admit_cost: 200,
            tries_per_admit: 1,
            redeem: [9u8; 32],
            solutions: vec![codec_solution(1), codec_solution(2)],
        },
        ChallengeInstruction::CreateChallenge {
            id: String::new(),
            admit_cost: u64::MAX,
            tries_per_admit: 255,
            redeem: [0u8; 32],
            solutions: vec![],
        },
        ChallengeInstruction::AddSolutions { id: "grüße".to_string(), solutions: vec![codec_solution(3)] },
        ChallengeInstruction::StartChallenge { id: "challenge-id".to_string() },
        ChallengeInstruction::AdmitChallenger { challenge_pda: [8u8; 32] },
        ChallengeInstruction::Redeem { solution: codec_solution(4) },
    ]
}

/// The layout that borsh gives the same fields, with the tag in front.
fn codec_by_borsh(ix: &ChallengeInstruction) -> Vec<u8> {
    let (tag, fields) = match ix {
        ChallengeInstruction::CreateChallenge { id, admit_cost, tries_per_admit, redeem, solutions } => {
            (0u8, borsh::to_vec(&(id, admit_cost, tries_per_admit, redeem, solutions)).unwrap())
        }
        ChallengeInstruction::AddSolutions { id, solutions } => (1, borsh::to_vec(&(id, solutions)).unwrap()),
        ChallengeInstruction::StartChallenge { id } => (2, borsh::to_vec(id).unwrap()),
        ChallengeInstruction::AdmitChallenger { challenge_pda } => (3, borsh::to_vec(challenge_pda).unwrap()),
        ChallengeInstruction::Redeem { solution } => (4, borsh::to_vec(solution).unwrap()),
    };
    let mut bytes = vec![tag];
    bytes.extend(fields);
    bytes
}

#[test]
fn instructions_decode_to_what_was_encoded() {
    for ix in codec_instructions() {
        let bytes = ix.try_to_vec().expect("failed to encode");
        assert_eq!(ChallengeInstruction::try_from_slice(&bytes), Some(ix));
    }
}

#[test]
fn instructions_encode_to_what_was_decoded() {
    for ix in codec_instructions() {
        let bytes = codec_by_borsh(&ix);
        let decoded = ChallengeInstruction::try_from_slice(&bytes).expect("failed to decode");
        assert_eq!(decoded.try_to_vec(), Some(bytes));
    }
}

#[test]
fn instructions_have_the_layout_that_borsh_gives_them() {
    for ix in codec_instructions() {
        assert_eq!(ix.try_to_vec(), Some(codec_by_borsh(&ix)));
    }
}

#[test]
fn start_challenge_has_this_exact_layout() {
    let ix = ChallengeInstruction::StartChallenge { id: "ab".to_string() };
    assert_eq!(ix.try_to_vec(), Some(vec![2, 2, 0, 0, 0, b'a', b'b']));
    let admission = ChallengeInstruction::AdmitChallenger { challenge_pda: [8u8; 32] };
    let mut expected = vec![3u8];
    expected.extend([8u8; 32]);
    assert_eq!(admission.try_to_vec(), Some(expected));
}

#[test]
fn create_challenge_has_this_exact_layout() {
    let ix = ChallengeInstruction::CreateChallenge {
        id: "id".to_string(),
        admit_cost: 0x0102030405060708,
        tries_per_admit: 9,
        redeem: [7u8; 32],
        solutions: vec![[5u8; 32]],
    };
    let mut expected = vec![0u8, 2, 0, 0, 0, b'i', b'd', 8, 7, 6, 5, 4, 3, 2, 1, 9];
    expected.extend([7u8; 32]);
    expected.extend([1u8, 0, 0, 0]);
    expected.extend([5u8; 32]);
    assert_eq!(ix.try_to_vec(), Some(expected));
}

#[test]
fn truncated_instructions_are_rejected() {
    for ix in codec_instructions() {
        let bytes = ix.try_to_vec().unwrap();
        for cut in 0..bytes.len() {
            assert_eq!(ChallengeInstruction::try_from_slice(&bytes[..cut]), None, "cut at {}", cut);
        }
    }
}

#[test]
fn over_long_instructions_are_rejected() {
    for ix in codec_instructions() {
        let mut bytes = ix.try_to_vec().unwrap();
        bytes.push(0);
        assert_eq!(ChallengeInstruction::try_from_slice(&bytes), None);
    }
}

#[test]
fn unknown_tags_and_bad_text_are_rejected() {
    assert_eq!(ChallengeInstruction::try_from_slice(&[]), None);
    assert_eq!(ChallengeInstruction::try_from_slice(&[5, 0, 0, 0, 0]), None);
    assert_eq!(ChallengeInstruction::try_from_slice(&[255]), None);
    // a text of one byte that is no UTF-8
    assert_eq!(ChallengeInstruction::try_from_slice(&[2, 1, 0, 0, 0, 0xff]), None);
    assert_eq!(
        ChallengeInstruction::try_from_slice(&[2, 1, 0, 0, 0, b'a']),
        Some(ChallengeInstruction::StartChallenge { id: "a".to_string() })
    );
    // a count that promises more solutions than there are bytes
    assert_eq!(ChallengeInstruction::try_from_slice(&[1, 0, 0, 0, 0, 255, 255, 255, 255]), None);
}

fn codec_challenge() -> Challenge {
    Challenge {
        authority: [1u8; 32],
        id: "challenge-id".to_string(),
        started: true,
        finished: false,
        admit_cost: 200,
        tries_per_admit: 11,
        redeem: [2u8; 32],
        solving: 1,
        solutions: vec![codec_solution(1), codec_solution(2)],
    }
}

#[test]
fn challenge_record_round_trips_and_has_the_layout_that_borsh_gives_it() {
    let challenge = codec_challenge();
    let bytes = challenge.try_to_vec().expect("failed to encode");
    let by_borsh = borsh::to_vec(&(
        challenge.authority,
        &challenge.id,
        challenge.started,
        challenge.finished,
        challenge.admit_cost,
        challenge.tries_per_admit,
        challenge.redeem,
        challenge.solving,
        &challenge.solutions,
    ))
    .unwrap();
    assert_eq!(bytes, by_borsh);
    assert_eq!(bytes.len(), challenge.size());
    assert_eq!(bytes.len(), 84 + 12 + 64);
    assert_eq!(Challenge::try_from_slice(&bytes), Some(codec_challenge()));

    // the fields lie where the layout says
    assert_eq!(&bytes[0..32], &[1u8; 32]);
    assert_eq!(&bytes[32..36], &[12, 0, 0, 0]);
    assert_eq!(&bytes[36..48], b"challenge-id");
    assert_eq!(bytes[48], 1);
    assert_eq!(bytes[49], 0);
    assert_eq!(&bytes[50..58], &200u64.to_le_bytes());
    assert_eq!(bytes[58], 11);
    assert_eq!(&bytes[59..91], &[2u8; 32]);
    assert_eq!(bytes[91], 1);
    assert_eq!(&bytes[92..96], &[2, 0, 0, 0]);
    assert_eq!(&bytes[96..128], &codec_solution(1));
    assert_eq!(&bytes[128..160], &codec_solution(2));
}

#[test]
fn challenge_record_is_rejected_where_it_is_not_the_layout() {
    let bytes = codec_challenge().try_to_vec().unwrap();
    for cut in 0..bytes.len() {
        assert_eq!(Challenge::try_from_slice(&bytes[..cut]), None, "cut at {}", cut);
    }
    let mut longer = bytes.clone();
    longer.push(0);
    assert_eq!(Challenge::try_from_slice(&longer), None);
    // a flag that is neither 0 nor 1
    let mut bad_flag = bytes.clone();
    bad_flag[48] = 2;
    assert_eq!(Challenge::try_from_slice(&bad_flag), None);
    // an id that is no UTF-8
    let mut bad_id = bytes.clone();
    bad_id[36] = 0xff;
    assert_eq!(Challenge::try_from_slice(&bad_id), None);
}

#[test]
fn challenger_record_round_trips_and_takes_66_bytes() {
    let record = Challenger { authority: [3u8; 32], challenge_pda: [4u8; 32], tries_remaining: 11, redeemed: true };
    let bytes = record.to_vec();
    assert_eq!(bytes.len(), 66);
    assert_eq!(Challenger::size(), 66);
    let by_borsh =
        borsh::to_vec(&(record.authority, record.challenge_pda, record.tries_remaining, record.redeemed)).unwrap();
    assert_eq!(bytes, by_borsh);
    assert_eq!(Challenger::try_from_slice(&bytes), Some(record));
    assert_eq!(bytes[64], 11);
    assert_eq!(bytes[65], 1);

    for cut in 0..bytes.len() {
        assert_eq!(Challenger::try_from_slice(&bytes[..cut]), None);
    }
    let mut longer = bytes.clone();
    longer.push(0);
    assert_eq!(Challenger::try_from_slice(&longer), None);
    let mut bad_flag = bytes.clone();
    bad_flag[65] = 7;
    assert_eq!(Challenger::try_from_slice(&bad_flag), None);
}
