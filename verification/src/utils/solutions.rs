//! The two-layer commitment to a solution: the client hashes the plaintext
//! once before it sends it, and the program stores and compares the hash of
//! what the client sends.

use vstd::prelude::*;
use vstd::utf8::*;
use crate::wire::{array32, lemma_array32_of_view};
use crate::Solution;

verus! {

/// The SHA-256 digest of a byte sequence, as `solana_program::hash::hash`
/// computes it.
pub uninterp spec fn spec_sha256(data: Seq<u8>) -> Seq<u8>;

/// Calls `solana_program::hash::hash` and takes the digest's 32 bytes.
#[verifier::external_body]
pub(crate) fn sha256(data: &[u8]) -> (digest: [u8; 32])
    ensures
        digest@ == spec_sha256(data@),
{
    solana_program::hash::hash(data).to_bytes()
}

/// What a challenger sends for a plaintext: the hash of its UTF-8 bytes.
pub open spec fn spec_challenger_sends(plaintext: Seq<char>) -> Seq<u8> {
    spec_sha256(encode_utf8(plaintext))
}

/// What a challenge stores for a plaintext: the hash of what a challenger
/// sends for it.
pub open spec fn spec_stored_solution(plaintext: Seq<char>) -> Seq<u8> {
    spec_sha256(spec_challenger_sends(plaintext))
}

/// The commitments that a challenge stores for a list of plaintexts.
pub open spec fn spec_hash_solutions(plaintexts: Seq<&str>) -> Seq<Solution> {
    Seq::new(plaintexts.len(), |i: int| array32(spec_stored_solution(plaintexts[i]@)))
}

/// The value that a challenger sends to redeem with the given plaintext.
pub fn hash_solution_challenger_sends(s: &str) -> (sent: Solution)
    ensures
        sent@ == spec_challenger_sends(s@),
{
    sha256(s.as_bytes())
}

/// The commitments that a challenge stores for the given plaintexts, in order.
pub fn hash_solutions(solutions: &[&str]) -> (stored: Vec<Solution>)
    ensures
        stored@ == spec_hash_solutions(solutions@),
        forall|i: int| 0 <= i < solutions@.len() ==> stored@[i]@ == spec_stored_solution(solutions@[i]@),
{
    let mut stored: Vec<Solution> = Vec::new();
    let mut i: usize = 0;
    while i < solutions.len()
        invariant
            i <= solutions.len(),
            stored@.len() == i,
            forall|j: int| 0 <= j < i ==> stored@[j]@ == spec_stored_solution(solutions@[j]@),
        decreases solutions.len() - i,
    {
        let sent = hash_solution_challenger_sends(solutions[i]);
        stored.push(sha256(sent.as_slice()));
        i += 1;
    }
    proof {
        assert forall|j: int| 0 <= j < solutions@.len() implies stored@[j] == spec_hash_solutions(solutions@)[j] by {
            lemma_array32_of_view(stored@[j]);
        }
        assert(stored@ =~= spec_hash_solutions(solutions@));
    }
    stored
}

} // verus!
