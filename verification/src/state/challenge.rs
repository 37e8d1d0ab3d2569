//! The challenge record: one per authority and id, held in the account at
//! the address derived from both.

use vstd::prelude::*;
use vstd::utf8::*;
use crate::address::{
    address_of, derive_address, push_bump, seed_bytes, spec_derive_address, spec_is_on_curve,
    with_bump, Address, CHALLENGE_PROGRAM_ID,
};
use crate::rent::Rent;
use crate::utils::solutions::{sha256, spec_sha256};
use vstd::slice::slice_to_vec;
use crate::wire::{
    Decoded, dec_bool, dec_key, dec_list, dec_text, dec_u64, dec_u8, enc_bool, enc_key, enc_list, enc_text,
    enc_u64, enc_u8, lemma_bool_dec_enc, lemma_bool_enc_dec, lemma_key_dec_enc, lemma_key_enc_dec,
    lemma_join, lemma_list_dec_enc, lemma_list_enc_dec, lemma_text_dec_enc, lemma_text_enc_dec, lemma_u32_len,
    lemma_u64_dec_enc, lemma_u64_enc_dec, lemma_u64_len, lemma_u8_dec_enc, lemma_u8_enc_dec,
    list_fits, put_bool, put_key, put_list, put_text, put_u64, put_u8, read_bool, read_key,
    read_list, read_text, read_u64, read_u8, rest_of, text_fits, value_of,
};
use crate::Solution;

verus! {

/// The bytes of a challenge record with an empty id and no solutions: the two
/// keys, the two flags, the fee, the tries, the index of the next solution,
/// and the two 4-byte counts.
pub const EMPTY_CHALLENGE_SIZE_WITH_EMPTY_ID: usize = 32 + 4 + 1 + 1 + 8 + 1 + 32 + 1 + 4;

/// The bytes of one stored solution.
pub const SOLUTION_BYTES: usize = 32;

/// The most solutions that a challenge holds.
pub const MAX_SUPPORTED_SOLUTIONS: usize = 256;

/// The highest index of a solution: the index of the solution to solve next
/// is one byte.
pub const MAX_SOLVING: u8 = 255;

/// The text that starts the seeds of every address this program derives.
pub const SEED_PREFIX: [u8; 9] = [99, 104, 97, 108, 108, 101, 110, 103, 101];

/// The state of a challenge.
#[derive(Debug, PartialEq, Eq)]
pub struct Challenge {
    /// The key that may add solutions and start the challenge.
    pub authority: Address,
    /// The id of the challenge, unique for its authority.
    pub id: String,
    /// Whether the challenge admits challengers and lets them redeem.
    pub started: bool,
    /// Whether every solution was redeemed.
    pub finished: bool,
    /// The fee that each admission pays to the authority.
    pub admit_cost: u64,
    /// The tries that each admission grants.
    pub tries_per_admit: u8,
    /// The address of the reward token's mint.
    pub redeem: Address,
    /// The index of the solution that has to be presented next.
    pub solving: u8,
    /// The commitments to the solutions, in the order of solving.
    pub solutions: Vec<Solution>,
}

/// A challenge record as a mathematical value.
pub struct ChallengeView {
    pub authority: Address,
    pub id: Seq<char>,
    pub started: bool,
    pub finished: bool,
    pub admit_cost: u64,
    pub tries_per_admit: u8,
    pub redeem: Address,
    pub solving: u8,
    pub solutions: Seq<Solution>,
}

impl View for Challenge {
    type V = ChallengeView;

    open spec fn view(&self) -> ChallengeView {
        ChallengeView {
            authority: self.authority,
            id: self.id@,
            started: self.started,
            finished: self.finished,
            admit_cost: self.admit_cost,
            tries_per_admit: self.tries_per_admit,
            redeem: self.redeem,
            solving: self.solving,
            solutions: self.solutions@,
        }
    }
}

/// The bytes that the account of a challenge takes: the fixed part, the id,
/// and 32 bytes for each solution.
pub open spec fn spec_needed_size(solutions: nat, id: Seq<char>) -> nat {
    EMPTY_CHALLENGE_SIZE_WITH_EMPTY_ID as nat + encode_utf8(id).len() + SOLUTION_BYTES as nat * solutions
}

/// The seeds from which the address of a challenge is derived.
pub open spec fn challenge_seeds(creator: Address, id: Seq<char>) -> Seq<Seq<u8>> {
    seq![SEED_PREFIX@, creator@, encode_utf8(id)]
}

/// The most bytes that an id takes: it is a seed of the address of its
/// challenge, and no seed is longer.
pub const MAX_ID_BYTES: usize = 32;

/// The address of the challenge of a creator and id, with its bump seed. An
/// id of more than 32 bytes has no address.
pub open spec fn spec_challenge_pda(creator: Address, id: Seq<char>) -> Option<(Address, u8)> {
    if encode_utf8(id).len() > MAX_ID_BYTES {
        None
    } else {
        spec_derive_address(CHALLENGE_PROGRAM_ID, challenge_seeds(creator, id))
    }
}

impl ChallengeView {
    /// Whether the record can be encoded: the two counts fit 4 bytes.
    pub open spec fn encodable(self) -> bool {
        text_fits(self.id) && list_fits(self.solutions)
    }

    /// The byte layout of the record: its fields in declaration order.
    pub open spec fn encode(self) -> Seq<u8> {
        enc_key(self.authority) + (enc_text(self.id) + (enc_bool(self.started) + (enc_bool(self.finished) + (
        enc_u64(self.admit_cost) + (enc_u8(self.tries_per_admit) + (enc_key(self.redeem) + (enc_u8(
            self.solving,
        ) + enc_list(self.solutions))))))))
    }

    /// The record at the front of a byte sequence, with the bytes that
    /// follow it: the fields are read in order.
    #[verifier::opaque]
    pub open spec fn decode_front(b: Seq<u8>) -> Decoded<ChallengeView> {
        let authority = dec_key(b);
        let id = dec_text(rest_of(authority));
        let started = dec_bool(rest_of(id));
        let finished = dec_bool(rest_of(started));
        let admit_cost = dec_u64(rest_of(finished));
        let tries_per_admit = dec_u8(rest_of(admit_cost));
        let redeem = dec_key(rest_of(tries_per_admit));
        let solving = dec_u8(rest_of(redeem));
        let solutions = dec_list(rest_of(solving));
        if authority is Some && id is Some && started is Some && finished is Some && admit_cost is Some
            && tries_per_admit is Some && redeem is Some && solving is Some && solutions is Some {
            Some(
                (
                    ChallengeView {
                        authority: value_of(authority),
                        id: value_of(id),
                        started: value_of(started),
                        finished: value_of(finished),
                        admit_cost: value_of(admit_cost),
                        tries_per_admit: value_of(tries_per_admit),
                        redeem: value_of(redeem),
                        solving: value_of(solving),
                        solutions: value_of(solutions),
                    },
                    rest_of(solutions),
                ),
            )
        } else {
            None
        }
    }

    /// The record that a byte sequence holds, if it is the layout of one:
    /// the record at its front, with no byte left over.
    pub open spec fn decode(b: Seq<u8>) -> Option<ChallengeView> {
        match ChallengeView::decode_front(b) {
            Some((record, rest)) => if rest.len() == 0 {
                Some(record)
            } else {
                None
            },
            None => None,
        }
    }

    /// The record at the front of a byte sequence, whatever follows it.
    pub open spec fn decode_unchecked(b: Seq<u8>) -> Option<ChallengeView> {
        match ChallengeView::decode_front(b) {
            Some((record, _)) => Some(record),
            None => None,
        }
    }

    /// Whether the record is as the program keeps its challenges: it holds
    /// no more solutions than are supported, the index of the solution to
    /// solve next does not pass them, only a started challenge is finished,
    /// and the id is no longer than a seed.
    pub open spec fn well_formed(self) -> bool {
        &&& self.solutions.len() <= MAX_SUPPORTED_SOLUTIONS
        &&& self.solving <= self.solutions.len()
        &&& self.finished ==> self.started
        &&& encode_utf8(self.id).len() <= MAX_ID_BYTES
    }

    /// The solution that has to be presented next, if one is left.
    pub open spec fn current_solution(self) -> Option<Solution> {
        if (self.solving as int) < self.solutions.len() {
            Some(self.solutions[self.solving as int])
        } else {
            None
        }
    }

    /// Whether the value that a challenger sent is the preimage of the
    /// commitment to solve next.
    pub open spec fn is_solution_correct(self, sent: Solution) -> bool {
        match self.current_solution() {
            Some(expected) => expected@ == spec_sha256(sent@),
            None => false,
        }
    }
}

/// The record whose layout starts a byte sequence is read from its front.
pub proof fn lemma_challenge_front(c: ChallengeView, rest: Seq<u8>)
    requires
        c.encodable(),
    ensures
        ChallengeView::decode_front(c.encode() + rest) == Some((c, rest)),
{
    reveal(ChallengeView::decode_front);
    let t8 = enc_list(c.solutions) + rest;
    let t7 = enc_u8(c.solving) + t8;
    let t6 = enc_key(c.redeem) + t7;
    let t5 = enc_u8(c.tries_per_admit) + t6;
    let t4 = enc_u64(c.admit_cost) + t5;
    let t3 = enc_bool(c.finished) + t4;
    let t2 = enc_bool(c.started) + t3;
    let t1 = enc_text(c.id) + t2;
    let e8 = enc_list(c.solutions);
    let e7 = enc_u8(c.solving) + e8;
    let e6 = enc_key(c.redeem) + e7;
    let e5 = enc_u8(c.tries_per_admit) + e6;
    let e4 = enc_u64(c.admit_cost) + e5;
    let e3 = enc_bool(c.finished) + e4;
    let e2 = enc_bool(c.started) + e3;
    let e1 = enc_text(c.id) + e2;
    lemma_join(enc_u8(c.solving), e8, rest);
    lemma_join(enc_key(c.redeem), e7, rest);
    lemma_join(enc_u8(c.tries_per_admit), e6, rest);
    lemma_join(enc_u64(c.admit_cost), e5, rest);
    lemma_join(enc_bool(c.finished), e4, rest);
    lemma_join(enc_bool(c.started), e3, rest);
    lemma_join(enc_text(c.id), e2, rest);
    lemma_join(enc_key(c.authority), e1, rest);
    lemma_key_enc_dec(c.authority, t1);
    lemma_text_enc_dec(c.id, t2);
    lemma_bool_enc_dec(c.started, t3);
    lemma_bool_enc_dec(c.finished, t4);
    lemma_u64_enc_dec(c.admit_cost, t5);
    lemma_u8_enc_dec(c.tries_per_admit, t6);
    lemma_key_enc_dec(c.redeem, t7);
    lemma_u8_enc_dec(c.solving, t8);
    lemma_list_enc_dec(c.solutions, rest);
}

/// What a record was read from starts with the layout of the record.
pub proof fn lemma_challenge_front_layout(b: Seq<u8>)
    requires
        ChallengeView::decode_front(b) is Some,
    ensures
        value_of(ChallengeView::decode_front(b)).encodable(),
        b == value_of(ChallengeView::decode_front(b)).encode() + rest_of(ChallengeView::decode_front(b)),
{
    reveal(ChallengeView::decode_front);
    let authority = dec_key(b);
    let id = dec_text(rest_of(authority));
    let started = dec_bool(rest_of(id));
    let finished = dec_bool(rest_of(started));
    let admit_cost = dec_u64(rest_of(finished));
    let tries_per_admit = dec_u8(rest_of(admit_cost));
    let redeem = dec_key(rest_of(tries_per_admit));
    let solving = dec_u8(rest_of(redeem));
    let solutions = dec_list(rest_of(solving));
    lemma_key_dec_enc(b);
    lemma_text_dec_enc(rest_of(authority));
    lemma_bool_dec_enc(rest_of(id));
    lemma_bool_dec_enc(rest_of(started));
    lemma_u64_dec_enc(rest_of(finished));
    lemma_u8_dec_enc(rest_of(admit_cost));
    lemma_key_dec_enc(rest_of(tries_per_admit));
    lemma_u8_dec_enc(rest_of(redeem));
    lemma_list_dec_enc(rest_of(solving));
    let rest = rest_of(solutions);
    let e8 = enc_list(value_of(solutions));
    let e7 = enc_u8(value_of(solving)) + e8;
    let e6 = enc_key(value_of(redeem)) + e7;
    let e5 = enc_u8(value_of(tries_per_admit)) + e6;
    let e4 = enc_u64(value_of(admit_cost)) + e5;
    let e3 = enc_bool(value_of(finished)) + e4;
    let e2 = enc_bool(value_of(started)) + e3;
    let e1 = enc_text(value_of(id)) + e2;
    let e0 = enc_key(value_of(authority)) + e1;
    lemma_join(enc_u8(value_of(solving)), e8, rest);
    lemma_join(enc_key(value_of(redeem)), e7, rest);
    lemma_join(enc_u8(value_of(tries_per_admit)), e6, rest);
    lemma_join(enc_u64(value_of(admit_cost)), e5, rest);
    lemma_join(enc_bool(value_of(finished)), e4, rest);
    lemma_join(enc_bool(value_of(started)), e3, rest);
    lemma_join(enc_text(value_of(id)), e2, rest);
    lemma_join(enc_key(value_of(authority)), e1, rest);
}

/// Decoding undoes encoding.
pub proof fn lemma_challenge_decode_encode(c: ChallengeView)
    requires
        c.encodable(),
    ensures
        ChallengeView::decode(c.encode()) == Some(c),
{
    assert(c.encode() =~= c.encode() + Seq::<u8>::empty());
    lemma_challenge_front(c, Seq::<u8>::empty());
}

/// Encoding undoes decoding: only the layout of a record decodes to it.
pub proof fn lemma_challenge_encode_decode(b: Seq<u8>)
    requires
        ChallengeView::decode(b) is Some,
    ensures
        ChallengeView::decode(b)->0.encodable(),
        ChallengeView::decode(b)->0.encode() == b,
{
    lemma_challenge_front_layout(b);
    let record = ChallengeView::decode(b)->0;
    assert(rest_of(ChallengeView::decode_front(b)) =~= Seq::<u8>::empty());
    assert(record.encode() + Seq::<u8>::empty() =~= record.encode());
}

/// Bytes that follow the layout of a record are ignored where the record
/// is read without the check that none is left over.
pub proof fn lemma_challenge_decode_unchecked(c: ChallengeView, rest: Seq<u8>)
    requires
        c.encodable(),
    ensures
        ChallengeView::decode_unchecked(c.encode() + rest) == Some(c),
{
    lemma_challenge_front(c, rest);
}

/// The layout of a record takes exactly the bytes that `spec_needed_size`
/// counts.
pub proof fn lemma_challenge_encoded_size(c: ChallengeView)
    requires
        c.encodable(),
    ensures
        c.encode().len() == spec_needed_size(c.solutions.len(), c.id),
{
    lemma_u32_len(encode_utf8(c.id).len() as u32);
    lemma_u32_len(c.solutions.len() as u32);
    lemma_u64_len(c.admit_cost);
}

impl Challenge {
    /// The bytes that the account of a challenge with these solutions and
    /// this id takes.
    pub fn needed_size(solutions: &[Solution], id: &str) -> (size: usize)
        requires
            spec_needed_size(solutions@.len(), id@) <= usize::MAX,
        ensures
            size == spec_needed_size(solutions@.len(), id@),
    {
        EMPTY_CHALLENGE_SIZE_WITH_EMPTY_ID + id.len() + SOLUTION_BYTES * solutions.len()
    }

    /// The bytes that a number of solutions take.
    pub fn space_to_store_n_solutions(solutions_len: u8) -> (space: usize)
        ensures
            space == SOLUTION_BYTES * solutions_len,
    {
        solutions_len as usize * SOLUTION_BYTES
    }

    /// The bytes that the account of this challenge takes; `None` where
    /// their number does not fit the machine's word.
    pub fn checked_size(&self) -> (size: Option<usize>)
        ensures
            match size {
                Some(size) => size == spec_needed_size(self@.solutions.len(), self@.id),
                None => spec_needed_size(self@.solutions.len(), self@.id) > usize::MAX,
            },
    {
        if self.solutions.len() > usize::MAX / 32 {
            return None;
        }
        let solutions: usize = 32 * self.solutions.len();
        let with_id = match solutions.checked_add(self.id.as_str().as_bytes().len()) {
            Some(bytes) => bytes,
            None => { return None; },
        };
        with_id.checked_add(EMPTY_CHALLENGE_SIZE_WITH_EMPTY_ID)
    }

    /// The balance that keeps the account of this challenge persisted under
    /// the given rent, if the host defines one for its size.
    pub fn rent_exempt_lamports(&self, rent: &Rent) -> (lamports: Option<u64>)
        ensures
            lamports == if spec_needed_size(self@.solutions.len(), self@.id) <= usize::MAX {
                rent.spec_minimum_balance(spec_needed_size(self@.solutions.len(), self@.id) as usize)
            } else {
                None
            },
    {
        match self.checked_size() {
            Some(size) => rent.minimum_balance(size),
            None => None,
        }
    }

    /// The bytes that the account of this challenge takes.
    pub fn size(&self) -> (size: usize)
        requires
            spec_needed_size(self@.solutions.len(), self@.id) <= usize::MAX,
        ensures
            size == spec_needed_size(self@.solutions.len(), self@.id),
    {
        Challenge::needed_size(self.solutions.as_slice(), self.id.as_str())
    }

    /// The seeds from which the address of a challenge is derived.
    pub fn seeds_for(creator: &Address, id: &str) -> (seeds: Vec<Vec<u8>>)
        ensures
            seed_bytes(seeds@) == challenge_seeds(*creator, id@),
    {
        let mut seeds: Vec<Vec<u8>> = Vec::new();
        seeds.push(slice_to_vec(SEED_PREFIX.as_slice()));
        seeds.push(slice_to_vec(creator.as_slice()));
        seeds.push(slice_to_vec(id.as_bytes()));
        assert(seed_bytes(seeds@) =~= challenge_seeds(*creator, id@));
        seeds
    }

    /// The seeds with which the program signs for a challenge: those of its
    /// address, then the bump seed.
    pub fn seeds_with_bump(creator: &Address, id: &str, bump: u8) -> (seeds: Vec<Vec<u8>>)
        ensures
            seed_bytes(seeds@) == with_bump(challenge_seeds(*creator, id@), bump),
    {
        let mut seeds = Challenge::seeds_for(creator, id);
        push_bump(&mut seeds, bump);
        seeds
    }

    /// The address of the challenge of a creator and id, with its bump seed;
    /// `None` where none can be derived, as for an id of more than 32 bytes.
    pub fn pda_for(creator: &Address, id: &str) -> (pda: Option<(Address, u8)>)
        ensures
            pda == spec_challenge_pda(*creator, id@),
            pda is Some ==> encode_utf8(id@).len() <= MAX_ID_BYTES,
            pda is Some ==> !spec_is_on_curve(address_of(pda)@),
    {
        if id.as_bytes().len() > MAX_ID_BYTES {
            return None;
        }
        let seeds = Challenge::seeds_for(creator, id);
        derive_address(&seeds, &CHALLENGE_PROGRAM_ID)
    }

    /// The address of this challenge, with its bump seed.
    pub fn pda(&self) -> (pda: Option<(Address, u8)>)
        ensures
            pda == spec_challenge_pda(self@.authority, self@.id),
    {
        Challenge::pda_for(&self.authority, self.id.as_str())
    }

    /// The solution that has to be presented next, if one is left.
    pub fn current_solution(&self) -> (current: Option<&Solution>)
        ensures
            match current {
                Some(s) => self@.current_solution() == Some(*s),
                None => self@.current_solution() is None,
            },
    {
        let index = self.solving as usize;
        if index < self.solutions.len() {
            Some(&self.solutions[index])
        } else {
            None
        }
    }

    /// Whether a commitment is the one to solve next.
    pub fn matches_current(&self, stored_as: &Solution) -> (r: bool)
        ensures
            r == (self@.current_solution() == Some(*stored_as)),
    {
        match self.current_solution() {
            Some(expected) => crate::address::keys_equal(expected, stored_as),
            None => false,
        }
    }

    /// Whether the value that a challenger sent solves the solution that is
    /// next: its hash is the stored commitment.
    pub fn is_solution_correct(&self, sent_solution: &Solution) -> (correct: bool)
        ensures
            correct == self@.is_solution_correct(*sent_solution),
    {
        let solution_stored_as = sha256(sent_solution.as_slice());
        let correct = self.matches_current(&solution_stored_as);
        proof {
            match self@.current_solution() {
                Some(expected) => {
                    if expected@ == solution_stored_as@ {
                        assert(expected =~= solution_stored_as);
                    }
                },
                None => {},
            }
        }
        correct
    }

    /// The byte layout of a record whose counts fit their 4 bytes.
    pub fn to_vec(&self) -> (bytes: Vec<u8>)
        requires
            self@.encodable(),
        ensures
            bytes@ == self@.encode(),
            bytes@.len() == spec_needed_size(self@.solutions.len(), self@.id),
    {
        let mut out: Vec<u8> = Vec::new();
        put_key(&mut out, &self.authority);
        let _ = put_text(&mut out, self.id.as_str());
        put_bool(&mut out, self.started);
        put_bool(&mut out, self.finished);
        put_u64(&mut out, self.admit_cost);
        put_u8(&mut out, self.tries_per_admit);
        put_key(&mut out, &self.redeem);
        put_u8(&mut out, self.solving);
        let _ = put_list(&mut out, &self.solutions);
        assert(out@ =~= self@.encode());
        proof {
            lemma_challenge_encoded_size(self@);
        }
        out
    }

    /// The byte layout of the record; `None` where a count does not fit its
    /// 4 bytes.
    pub fn try_to_vec(&self) -> (bytes: Option<Vec<u8>>)
        ensures
            bytes is Some <==> self@.encodable(),
            bytes is Some ==> bytes->0@ == self@.encode(),
    {
        let mut out: Vec<u8> = Vec::new();
        put_key(&mut out, &self.authority);
        if !put_text(&mut out, self.id.as_str()) {
            return None;
        }
        put_bool(&mut out, self.started);
        put_bool(&mut out, self.finished);
        put_u64(&mut out, self.admit_cost);
        put_u8(&mut out, self.tries_per_admit);
        put_key(&mut out, &self.redeem);
        put_u8(&mut out, self.solving);
        if !put_list(&mut out, &self.solutions) {
            return None;
        }
        assert(out@ =~= self@.encode());
        Some(out)
    }

    /// Reads the record at the front of a byte sequence, and gives the
    /// position after it.
    fn read_front(bytes: &[u8]) -> (r: Option<(Challenge, usize)>)
        ensures
            match r {
                Some((c, next)) => next <= bytes.len() && ChallengeView::decode_front(bytes@) == Some(
                    (c@, bytes@.skip(next as int)),
                ),
                None => ChallengeView::decode_front(bytes@) is None,
            },
    {
        proof {
            reveal(ChallengeView::decode_front);
        }
        assert(bytes@.skip(0) =~= bytes@);
        let (authority, pos) = match read_key(bytes, 0) {
            Some(found) => found,
            None => { return None; },
        };
        let (id, pos) = match read_text(bytes, pos) {
            Some(found) => found,
            None => { return None; },
        };
        let (started, pos) = match read_bool(bytes, pos) {
            Some(found) => found,
            None => { return None; },
        };
        let (finished, pos) = match read_bool(bytes, pos) {
            Some(found) => found,
            None => { return None; },
        };
        let (admit_cost, pos) = match read_u64(bytes, pos) {
            Some(found) => found,
            None => { return None; },
        };
        let (tries_per_admit, pos) = match read_u8(bytes, pos) {
            Some(found) => found,
            None => { return None; },
        };
        let (redeem, pos) = match read_key(bytes, pos) {
            Some(found) => found,
            None => { return None; },
        };
        let (solving, pos) = match read_u8(bytes, pos) {
            Some(found) => found,
            None => { return None; },
        };
        let (solutions, pos) = match read_list(bytes, pos) {
            Some(found) => found,
            None => { return None; },
        };
        Some(
            (
                Challenge {
                    authority,
                    id,
                    started,
                    finished,
                    admit_cost,
                    tries_per_admit,
                    redeem,
                    solving,
                    solutions,
                },
                pos,
            ),
        )
    }

    /// The record that a byte sequence holds; `None` where the bytes are not
    /// the layout of a record, be it that they run short, that a flag is
    /// neither 0 nor 1, that the id is not UTF-8, or that bytes are left over.
    pub fn try_from_slice(bytes: &[u8]) -> (record: Option<Challenge>)
        ensures
            match record {
                Some(c) => ChallengeView::decode(bytes@) == Some(c@),
                None => ChallengeView::decode(bytes@) is None,
            },
    {
        match Challenge::read_front(bytes) {
            Some((record, next)) => if next == bytes.len() {
                Some(record)
            } else {
                None
            },
            None => None,
        }
    }

    /// The record at the front of a byte sequence, whatever follows it;
    /// `None` where the bytes do not start with the layout of a record.
    pub fn try_from_slice_unchecked(bytes: &[u8]) -> (record: Option<Challenge>)
        ensures
            match record {
                Some(c) => ChallengeView::decode_unchecked(bytes@) == Some(c@),
                None => ChallengeView::decode_unchecked(bytes@) is None,
            },
    {
        match Challenge::read_front(bytes) {
            Some((record, _)) => Some(record),
            None => None,
        }
    }
}

} // verus!
