//! The five instructions of the program: their byte layout, and the
//! requests that carry them with the accounts each one reads, in order.

use vstd::prelude::*;
use crate::address::{
    associated_token_program_id, token_program_id, Address, ASSOCIATED_TOKEN_PROGRAM_ID,
    CHALLENGE_PROGRAM_ID, SYSTEM_PROGRAM_ID, TOKEN_PROGRAM_ID,
};
use crate::challenge_id;
use crate::error::ProcessorError;
use crate::state::challenge::{spec_challenge_pda, Challenge};
use crate::state::challenger::{spec_challenger_pda, Challenger};
use crate::state::redeem::{spec_associated_token_address, spec_redeem_pda, Redeem};
use crate::utils::solutions::{
    hash_solution_challenger_sends, hash_solutions, spec_challenger_sends, spec_hash_solutions,
};
use crate::wire::array32;
use crate::wire::{
    dec_key, dec_list, dec_text, dec_u64, dec_u8, enc_key, enc_list, enc_text, enc_u64, enc_u8,
    lemma_key_dec_enc, lemma_key_enc_dec, lemma_list_dec_enc, lemma_list_enc_dec, lemma_text_dec_enc,
    lemma_text_enc_dec, lemma_u64_dec_enc, lemma_u64_enc_dec, lemma_u8_dec_enc, lemma_u8_enc_dec,
    list_fits, put_key, put_list, put_text, put_u64, put_u8, read_key, read_list, read_text,
    read_u64, read_u8, rest_of, text_fits, value_of,
};
use crate::Solution;

verus! {

/// An account that an instruction names, with the rights it is passed with.
#[derive(Clone, Copy, Debug, PartialEq, Eq)]
pub struct AccountMeta {
    /// The address of the account.
    pub pubkey: Address,
    /// Whether the account signed the transaction.
    pub is_signer: bool,
    /// Whether the instruction may change the account.
    pub is_writable: bool,
}

impl AccountMeta {
    /// An account that the instruction may change.
    pub fn new(pubkey: Address, is_signer: bool) -> (meta: AccountMeta)
        ensures
            meta == (AccountMeta { pubkey, is_signer, is_writable: true }),
    {
        AccountMeta { pubkey, is_signer, is_writable: true }
    }

    /// An account that the instruction only reads.
    pub fn new_readonly(pubkey: Address, is_signer: bool) -> (meta: AccountMeta)
        ensures
            meta == (AccountMeta { pubkey, is_signer, is_writable: false }),
    {
        AccountMeta { pubkey, is_signer, is_writable: false }
    }
}

/// An instruction of the program.
#[derive(Debug, PartialEq, Eq)]
pub enum ChallengeInstruction {
    /// Creates a challenge and its reward ledger.
    CreateChallenge {
        id: String,
        admit_cost: u64,
        tries_per_admit: u8,
        /// The address of the mint of the reward token, derived from the
        /// address of the challenge.
        redeem: Address,
        /// The commitments to the solutions, 32 bytes each.
        solutions: Vec<Solution>,
    },
    /// Appends solutions to those that the challenge holds.
    AddSolutions { id: String, solutions: Vec<Solution> },
    /// Opens the challenge to challengers.
    StartChallenge { id: String },
    /// Admits a challenger to the challenge at the given address.
    AdmitChallenger { challenge_pda: Address },
    /// Presents what a challenger sends for the solution that is next.
    Redeem { solution: Solution },
}

/// An instruction as a mathematical value.
pub enum InstructionView {
    CreateChallenge {
        id: Seq<char>,
        admit_cost: u64,
        tries_per_admit: u8,
        redeem: Address,
        solutions: Seq<Solution>,
    },
    AddSolutions { id: Seq<char>, solutions: Seq<Solution> },
    StartChallenge { id: Seq<char> },
    AdmitChallenger { challenge_pda: Address },
    Redeem { solution: Solution },
}

impl View for ChallengeInstruction {
    type V = InstructionView;

    open spec fn view(&self) -> InstructionView {
        match *self {
            ChallengeInstruction::CreateChallenge { id, admit_cost, tries_per_admit, redeem, solutions } =>
                InstructionView::CreateChallenge {
                    id: id@,
                    admit_cost,
                    tries_per_admit,
                    redeem,
                    solutions: solutions@,
                },
            ChallengeInstruction::AddSolutions { id, solutions } => InstructionView::AddSolutions {
                id: id@,
                solutions: solutions@,
            },
            ChallengeInstruction::StartChallenge { id } => InstructionView::StartChallenge { id: id@ },
            ChallengeInstruction::AdmitChallenger { challenge_pda } => InstructionView::AdmitChallenger {
                challenge_pda,
            },
            ChallengeInstruction::Redeem { solution } => InstructionView::Redeem { solution },
        }
    }
}

/// The layout of the fields of `CreateChallenge`, after the tag.
pub open spec fn encode_create(
    id: Seq<char>,
    admit_cost: u64,
    tries_per_admit: u8,
    redeem: Address,
    solutions: Seq<Solution>,
) -> Seq<u8> {
    enc_text(id) + (enc_u64(admit_cost) + (enc_u8(tries_per_admit) + (enc_key(redeem) + enc_list(solutions))))
}

/// The `CreateChallenge` whose fields a byte sequence holds.
pub open spec fn decode_create(b: Seq<u8>) -> Option<InstructionView> {
    let id = dec_text(b);
    let admit_cost = dec_u64(rest_of(id));
    let tries_per_admit = dec_u8(rest_of(admit_cost));
    let redeem = dec_key(rest_of(tries_per_admit));
    let solutions = dec_list(rest_of(redeem));
    if id is Some && admit_cost is Some && tries_per_admit is Some && redeem is Some && solutions is Some
        && rest_of(solutions).len() == 0 {
        Some(
            InstructionView::CreateChallenge {
                id: value_of(id),
                admit_cost: value_of(admit_cost),
                tries_per_admit: value_of(tries_per_admit),
                redeem: value_of(redeem),
                solutions: value_of(solutions),
            },
        )
    } else {
        None
    }
}

/// The `AddSolutions` whose fields a byte sequence holds.
pub open spec fn decode_add(b: Seq<u8>) -> Option<InstructionView> {
    let id = dec_text(b);
    let solutions = dec_list(rest_of(id));
    if id is Some && solutions is Some && rest_of(solutions).len() == 0 {
        Some(InstructionView::AddSolutions { id: value_of(id), solutions: value_of(solutions) })
    } else {
        None
    }
}

/// The `StartChallenge` whose field a byte sequence holds.
pub open spec fn decode_start(b: Seq<u8>) -> Option<InstructionView> {
    let id = dec_text(b);
    if id is Some && rest_of(id).len() == 0 {
        Some(InstructionView::StartChallenge { id: value_of(id) })
    } else {
        None
    }
}

/// The `AdmitChallenger` whose field a byte sequence holds.
pub open spec fn decode_admit(b: Seq<u8>) -> Option<InstructionView> {
    let challenge_pda = dec_key(b);
    if challenge_pda is Some && rest_of(challenge_pda).len() == 0 {
        Some(InstructionView::AdmitChallenger { challenge_pda: value_of(challenge_pda) })
    } else {
        None
    }
}

/// The `Redeem` whose field a byte sequence holds.
pub open spec fn decode_redeem(b: Seq<u8>) -> Option<InstructionView> {
    let solution = dec_key(b);
    if solution is Some && rest_of(solution).len() == 0 {
        Some(InstructionView::Redeem { solution: value_of(solution) })
    } else {
        None
    }
}

impl InstructionView {
    /// The byte that tells the variants apart: their position in the
    /// declaration.
    pub open spec fn tag(self) -> u8 {
        match self {
            InstructionView::CreateChallenge { .. } => 0,
            InstructionView::AddSolutions { .. } => 1,
            InstructionView::StartChallenge { .. } => 2,
            InstructionView::AdmitChallenger { .. } => 3,
            InstructionView::Redeem { .. } => 4,
        }
    }

    /// Whether the instruction can be encoded: every count fits 4 bytes.
    pub open spec fn encodable(self) -> bool {
        match self {
            InstructionView::CreateChallenge { id, solutions, .. } => text_fits(id) && list_fits(solutions),
            InstructionView::AddSolutions { id, solutions } => text_fits(id) && list_fits(solutions),
            InstructionView::StartChallenge { id } => text_fits(id),
            InstructionView::AdmitChallenger { .. } => true,
            InstructionView::Redeem { .. } => true,
        }
    }

    /// The layout of the fields, in declaration order.
    pub open spec fn encode_fields(self) -> Seq<u8> {
        match self {
            InstructionView::CreateChallenge { id, admit_cost, tries_per_admit, redeem, solutions } =>
                encode_create(id, admit_cost, tries_per_admit, redeem, solutions),
            InstructionView::AddSolutions { id, solutions } => enc_text(id) + enc_list(solutions),
            InstructionView::StartChallenge { id } => enc_text(id),
            InstructionView::AdmitChallenger { challenge_pda } => enc_key(challenge_pda),
            InstructionView::Redeem { solution } => enc_key(solution),
        }
    }

    /// The byte layout of the instruction: the tag, then the fields.
    pub open spec fn encode(self) -> Seq<u8> {
        enc_u8(self.tag()) + self.encode_fields()
    }

    /// The instruction that a byte sequence holds, if it is the layout of
    /// one: a known tag, the fields of that variant, and no byte left over.
    pub open spec fn decode(b: Seq<u8>) -> Option<InstructionView> {
        match dec_u8(b) {
            Some((tag, fields)) => if tag == 0 {
                decode_create(fields)
            } else if tag == 1 {
                decode_add(fields)
            } else if tag == 2 {
                decode_start(fields)
            } else if tag == 3 {
                decode_admit(fields)
            } else if tag == 4 {
                decode_redeem(fields)
            } else {
                None
            },
            None => None,
        }
    }
}

/// Decoding undoes encoding: `decode(encode(x)) == x`.
pub proof fn law_instruction_decode_encode(ix: InstructionView)
    requires
        ix.encodable(),
    ensures
        InstructionView::decode(ix.encode()) == Some(ix),
{
    let empty = Seq::<u8>::empty();
    lemma_u8_enc_dec(ix.tag(), ix.encode_fields());
    match ix {
        InstructionView::CreateChallenge { id, admit_cost, tries_per_admit, redeem, solutions } => {
            let t4 = enc_list(solutions);
            let t3 = enc_key(redeem) + t4;
            let t2 = enc_u8(tries_per_admit) + t3;
            let t1 = enc_u64(admit_cost) + t2;
            lemma_text_enc_dec(id, t1);
            lemma_u64_enc_dec(admit_cost, t2);
            lemma_u8_enc_dec(tries_per_admit, t3);
            lemma_key_enc_dec(redeem, t4);
            assert(t4 =~= t4 + empty);
            lemma_list_enc_dec(solutions, empty);
        },
        InstructionView::AddSolutions { id, solutions } => {
            let t1 = enc_list(solutions);
            lemma_text_enc_dec(id, t1);
            assert(t1 =~= t1 + empty);
            lemma_list_enc_dec(solutions, empty);
        },
        InstructionView::StartChallenge { id } => {
            assert(enc_text(id) =~= enc_text(id) + empty);
            lemma_text_enc_dec(id, empty);
        },
        InstructionView::AdmitChallenger { challenge_pda } => {
            assert(enc_key(challenge_pda) =~= enc_key(challenge_pda) + empty);
            lemma_key_enc_dec(challenge_pda, empty);
        },
        InstructionView::Redeem { solution } => {
            assert(enc_key(solution) =~= enc_key(solution) + empty);
            lemma_key_enc_dec(solution, empty);
        },
    }
}

/// Encoding undoes decoding: `encode(decode(bytes)) == bytes`.
pub proof fn law_instruction_encode_decode(b: Seq<u8>)
    requires
        InstructionView::decode(b) is Some,
    ensures
        InstructionView::decode(b)->0.encodable(),
        InstructionView::decode(b)->0.encode() == b,
{
    let empty = Seq::<u8>::empty();
    lemma_u8_dec_enc(b);
    let tag = value_of(dec_u8(b));
    let f = rest_of(dec_u8(b));
    if tag == 0 {
        let id = dec_text(f);
        let admit_cost = dec_u64(rest_of(id));
        let tries_per_admit = dec_u8(rest_of(admit_cost));
        let redeem = dec_key(rest_of(tries_per_admit));
        let solutions = dec_list(rest_of(redeem));
        lemma_text_dec_enc(f);
        lemma_u64_dec_enc(rest_of(id));
        lemma_u8_dec_enc(rest_of(admit_cost));
        lemma_key_dec_enc(rest_of(tries_per_admit));
        lemma_list_dec_enc(rest_of(redeem));
        assert(rest_of(solutions) =~= empty);
        assert(enc_list(value_of(solutions)) + empty =~= enc_list(value_of(solutions)));
    } else if tag == 1 {
        let id = dec_text(f);
        let solutions = dec_list(rest_of(id));
        lemma_text_dec_enc(f);
        lemma_list_dec_enc(rest_of(id));
        assert(rest_of(solutions) =~= empty);
        assert(enc_list(value_of(solutions)) + empty =~= enc_list(value_of(solutions)));
    } else if tag == 2 {
        let id = dec_text(f);
        lemma_text_dec_enc(f);
        assert(rest_of(id) =~= empty);
        assert(enc_text(value_of(id)) + empty =~= enc_text(value_of(id)));
    } else if tag == 3 {
        let key = dec_key(f);
        lemma_key_dec_enc(f);
        assert(rest_of(key) =~= empty);
        assert(enc_key(value_of(key)) + empty =~= enc_key(value_of(key)));
    } else {
        let key = dec_key(f);
        lemma_key_dec_enc(f);
        assert(rest_of(key) =~= empty);
        assert(enc_key(value_of(key)) + empty =~= enc_key(value_of(key)));
    }
}

impl ChallengeInstruction {
    /// The byte layout of the instruction; `None` where a count does not
    /// fit its 4 bytes.
    pub fn try_to_vec(&self) -> (bytes: Option<Vec<u8>>)
        ensures
            bytes is Some <==> self@.encodable(),
            bytes is Some ==> bytes->0@ == self@.encode(),
    {
        let mut out: Vec<u8> = Vec::new();
        match self {
            ChallengeInstruction::CreateChallenge { id, admit_cost, tries_per_admit, redeem, solutions } => {
                put_u8(&mut out, 0);
                if !put_text(&mut out, id.as_str()) {
                    return None;
                }
                put_u64(&mut out, *admit_cost);
                put_u8(&mut out, *tries_per_admit);
                put_key(&mut out, redeem);
                if !put_list(&mut out, solutions) {
                    return None;
                }
                assert(out@ =~= self@.encode());
            },
            ChallengeInstruction::AddSolutions { id, solutions } => {
                put_u8(&mut out, 1);
                if !put_text(&mut out, id.as_str()) {
                    return None;
                }
                if !put_list(&mut out, solutions) {
                    return None;
                }
                assert(out@ =~= self@.encode());
            },
            ChallengeInstruction::StartChallenge { id } => {
                put_u8(&mut out, 2);
                if !put_text(&mut out, id.as_str()) {
                    return None;
                }
                assert(out@ =~= self@.encode());
            },
            ChallengeInstruction::AdmitChallenger { challenge_pda } => {
                put_u8(&mut out, 3);
                put_key(&mut out, challenge_pda);
                assert(out@ =~= self@.encode());
            },
            ChallengeInstruction::Redeem { solution } => {
                put_u8(&mut out, 4);
                put_key(&mut out, solution);
                assert(out@ =~= self@.encode());
            },
        }
        Some(out)
    }

    /// The instruction that a byte sequence holds; `None` where the bytes
    /// are not the layout of an instruction: the tag is unknown, the bytes
    /// run short, a text is not UTF-8, or bytes are left over.
    pub fn try_from_slice(bytes: &[u8]) -> (instruction: Option<ChallengeInstruction>)
        ensures
            match instruction {
                Some(ix) => InstructionView::decode(bytes@) == Some(ix@),
                None => InstructionView::decode(bytes@) is None,
            },
    {
        assert(bytes@.skip(0) =~= bytes@);
        let (tag, pos) = match read_u8(bytes, 0) {
            Some(found) => found,
            None => { return None; },
        };
        if tag == 0 {
            let (id, pos) = match read_text(bytes, pos) {
                Some(found) => found,
                None => { return None; },
            };
            let (admit_cost, pos) = match read_u64(bytes, pos) {
                Some(found) => found,
                None => { return None; },
            };
            let (tries_per_admit, pos) = match read_u8(bytes, pos) {
                Some(found) => found,
                None => { return None; },
            };
            let (redeem, pos) = match read_key(bytes, pos) {
                Some(found) => found,
                None => { return None; },
            };
            let (solutions, pos) = match read_list(bytes, pos) {
                Some(found) => found,
                None => { return None; },
            };
            if pos != bytes.len() {
                return None;
            }
            Some(ChallengeInstruction::CreateChallenge { id, admit_cost, tries_per_admit, redeem, solutions })
        } else if tag == 1 {
            let (id, pos) = match read_text(bytes, pos) {
                Some(found) => found,
                None => { return None; },
            };
            let (solutions, pos) = match read_list(bytes, pos) {
                Some(found) => found,
                None => { return None; },
            };
            if pos != bytes.len() {
                return None;
            }
            Some(ChallengeInstruction::AddSolutions { id, solutions })
        } else if tag == 2 {
            let (id, pos) = match read_text(bytes, pos) {
                Some(found) => found,
                None => { return None; },
            };
            if pos != bytes.len() {
                return None;
            }
            Some(ChallengeInstruction::StartChallenge { id })
        } else if tag == 3 {
            let (challenge_pda, pos) = match read_key(bytes, pos) {
                Some(found) => found,
                None => { return None; },
            };
            if pos != bytes.len() {
                return None;
            }
            Some(ChallengeInstruction::AdmitChallenger { challenge_pda })
        } else if tag == 4 {
            let (solution, pos) = match read_key(bytes, pos) {
                Some(found) => found,
                None => { return None; },
            };
            if pos != bytes.len() {
                return None;
            }
            Some(ChallengeInstruction::Redeem { solution })
        } else {
            None
        }
    }
}

// ---------------------------------------------------------------------------
// Requests
// ---------------------------------------------------------------------------

/// An instruction on its way to the program: the program it is for, the
/// accounts it names, and its data.
#[derive(Debug, PartialEq, Eq)]
pub struct Instruction {
    /// The address of the program that executes the instruction.
    pub program_id: Address,
    /// The accounts that the instruction names, in the order in which its
    /// handler reads them.
    pub accounts: Vec<AccountMeta>,
    /// The byte layout of the instruction.
    pub data: Vec<u8>,
}

/// A request as a mathematical value.
pub struct RequestView {
    pub program_id: Address,
    pub accounts: Seq<AccountMeta>,
    pub data: Seq<u8>,
}

impl View for Instruction {
    type V = RequestView;

    open spec fn view(&self) -> RequestView {
        RequestView { program_id: self.program_id, accounts: self.accounts@, data: self.data@ }
    }
}

/// An account that the instruction may change.
pub open spec fn writable(pubkey: Address, is_signer: bool) -> AccountMeta {
    AccountMeta { pubkey, is_signer, is_writable: true }
}

/// An account that the instruction only reads.
pub open spec fn readonly(pubkey: Address, is_signer: bool) -> AccountMeta {
    AccountMeta { pubkey, is_signer, is_writable: false }
}

/// The request for an instruction of this program, or the error that no
/// data can be made of it.
pub open spec fn request(accounts: Seq<AccountMeta>, instruction: InstructionView) -> Result<
    RequestView,
    ProcessorError,
> {
    if instruction.encodable() {
        Ok(RequestView { program_id: CHALLENGE_PROGRAM_ID, accounts, data: instruction.encode() })
    } else {
        Err(ProcessorError::InvalidInstructionData)
    }
}

/// Makes the request for an instruction of this program.
fn make_request(accounts: Vec<AccountMeta>, instruction: ChallengeInstruction) -> (r: Result<
    Instruction,
    ProcessorError,
>)
    ensures
        match r {
            Ok(ix) => request(accounts@, instruction@) == Ok::<RequestView, ProcessorError>(ix@),
            Err(e) => request(accounts@, instruction@) == Err::<RequestView, ProcessorError>(e),
        },
{
    match instruction.try_to_vec() {
        Some(data) => Ok(Instruction { program_id: challenge_id(), accounts, data }),
        None => Err(ProcessorError::InvalidInstructionData),
    }
}

/// The accounts of `CreateChallenge`: the payer signs and pays, the
/// challenge and the mint are created.
pub open spec fn create_challenge_accounts(
    payer: Address,
    creator: Address,
    challenge_pda: Address,
    redeem_pda: Address,
) -> Seq<AccountMeta> {
    seq![
        writable(payer, true),
        readonly(creator, false),
        writable(challenge_pda, false),
        writable(redeem_pda, false),
        readonly(TOKEN_PROGRAM_ID, false),
        readonly(SYSTEM_PROGRAM_ID, false),
    ]
}

/// The request that `create_challenge` makes.
pub open spec fn spec_create_challenge(
    payer: Address,
    creator: Address,
    id: Seq<char>,
    admit_cost: u64,
    tries_per_admit: u8,
    solutions: Seq<&str>,
) -> Result<RequestView, ProcessorError> {
    match spec_challenge_pda(creator, id) {
        None => Err(ProcessorError::InvalidSeeds),
        Some((challenge_pda, _)) => match spec_redeem_pda(challenge_pda) {
            None => Err(ProcessorError::InvalidSeeds),
            Some((redeem_pda, _)) => request(
                create_challenge_accounts(payer, creator, challenge_pda, redeem_pda),
                InstructionView::CreateChallenge {
                    id,
                    admit_cost,
                    tries_per_admit,
                    redeem: redeem_pda,
                    solutions: spec_hash_solutions(solutions),
                },
            ),
        },
    }
}

/// The request to create a challenge, which its creator makes once.
///
/// * `payer`: pays for the accounts that are created
/// * `creator`: the authority of the challenge
/// * `id`: the id of the challenge, unique for the creator
/// * `admit_cost`: the fee that each admission pays to the creator
/// * `tries_per_admit`: the tries that each admission grants
/// * `solutions`: the solutions in clear text; the request carries the hash
///   of the hash of each
pub fn create_challenge(
    payer: Address,
    creator: Address,
    id: String,
    admit_cost: u64,
    tries_per_admit: u8,
    solutions: Vec<&str>,
) -> (r: Result<Instruction, ProcessorError>)
    ensures
        match r {
            Ok(ix) => spec_create_challenge(payer, creator, id@, admit_cost, tries_per_admit, solutions@) == Ok::<
                RequestView,
                ProcessorError,
            >(ix@),
            Err(e) => spec_create_challenge(payer, creator, id@, admit_cost, tries_per_admit, solutions@) == Err::<
                RequestView,
                ProcessorError,
            >(e),
        },
{
    let (challenge_pda, _) = match Challenge::pda_for(&creator, id.as_str()) {
        Some(derived) => derived,
        None => { return Err(ProcessorError::InvalidSeeds); },
    };
    let (redeem_pda, _) = match Redeem::pda_for(&challenge_pda) {
        Some(derived) => derived,
        None => { return Err(ProcessorError::InvalidSeeds); },
    };
    let solutions = hash_solutions(solutions.as_slice());

    let mut accounts: Vec<AccountMeta> = Vec::new();
    accounts.push(AccountMeta::new(payer, true));
    accounts.push(AccountMeta::new_readonly(creator, false));
    accounts.push(AccountMeta::new(challenge_pda, false));
    accounts.push(AccountMeta::new(redeem_pda, false));
    accounts.push(AccountMeta::new_readonly(token_program_id(), false));
    accounts.push(AccountMeta::new_readonly(SYSTEM_PROGRAM_ID, false));
    assert(accounts@ =~= create_challenge_accounts(payer, creator, challenge_pda, redeem_pda));
    make_request(
        accounts,
        ChallengeInstruction::CreateChallenge { id, admit_cost, tries_per_admit, redeem: redeem_pda, solutions },
    )
}

/// The accounts of `AddSolutions`: the payer signs and pays, the creator
/// signs, the challenge grows.
pub open spec fn add_solutions_accounts(payer: Address, creator: Address, challenge_pda: Address) -> Seq<
    AccountMeta,
> {
    seq![
        writable(payer, true),
        readonly(creator, true),
        writable(challenge_pda, false),
        readonly(SYSTEM_PROGRAM_ID, false),
    ]
}

/// The request that `add_solutions` makes.
pub open spec fn spec_add_solutions(payer: Address, creator: Address, id: Seq<char>, solutions: Seq<&str>) -> Result<
    RequestView,
    ProcessorError,
> {
    match spec_challenge_pda(creator, id) {
        None => Err(ProcessorError::InvalidSeeds),
        Some((challenge_pda, _)) => request(
            add_solutions_accounts(payer, creator, challenge_pda),
            InstructionView::AddSolutions { id, solutions: spec_hash_solutions(solutions) },
        ),
    }
}

/// The request to add solutions to a challenge, which its creator may make
/// any number of times.
///
/// * `payer`: pays for the growth of the account
/// * `creator`: the authority of the challenge
/// * `id`: the id that the challenge was created with
/// * `solutions`: the solutions to append in clear text; the request carries
///   the hash of the hash of each
pub fn add_solutions(payer: Address, creator: Address, id: String, solutions: Vec<&str>) -> (r: Result<
    Instruction,
    ProcessorError,
>)
    ensures
        match r {
            Ok(ix) => spec_add_solutions(payer, creator, id@, solutions@) == Ok::<RequestView, ProcessorError>(ix@),
            Err(e) => spec_add_solutions(payer, creator, id@, solutions@) == Err::<RequestView, ProcessorError>(e),
        },
{
    let (challenge_pda, _) = match Challenge::pda_for(&creator, id.as_str()) {
        Some(derived) => derived,
        None => { return Err(ProcessorError::InvalidSeeds); },
    };
    let solutions = hash_solutions(solutions.as_slice());

    let mut accounts: Vec<AccountMeta> = Vec::new();
    accounts.push(AccountMeta::new(payer, true));
    accounts.push(AccountMeta::new_readonly(creator, true));
    accounts.push(AccountMeta::new(challenge_pda, false));
    accounts.push(AccountMeta::new_readonly(SYSTEM_PROGRAM_ID, false));
    assert(accounts@ =~= add_solutions_accounts(payer, creator, challenge_pda));
    make_request(accounts, ChallengeInstruction::AddSolutions { id, solutions })
}

/// The accounts of `StartChallenge`: the creator signs, the challenge
/// changes.
pub open spec fn start_challenge_accounts(creator: Address, challenge_pda: Address) -> Seq<AccountMeta> {
    seq![readonly(creator, true), writable(challenge_pda, false)]
}

/// The request that `start_challenge` makes.
pub open spec fn spec_start_challenge(creator: Address, id: Seq<char>) -> Result<RequestView, ProcessorError> {
    match spec_challenge_pda(creator, id) {
        None => Err(ProcessorError::InvalidSeeds),
        Some((challenge_pda, _)) => request(
            start_challenge_accounts(creator, challenge_pda),
            InstructionView::StartChallenge { id },
        ),
    }
}

/// The request to start a challenge.
pub fn start_challenge(creator: Address, id: String) -> (r: Result<Instruction, ProcessorError>)
    ensures
        match r {
            Ok(ix) => spec_start_challenge(creator, id@) == Ok::<RequestView, ProcessorError>(ix@),
            Err(e) => spec_start_challenge(creator, id@) == Err::<RequestView, ProcessorError>(e),
        },
{
    let (challenge_pda, _) = match Challenge::pda_for(&creator, id.as_str()) {
        Some(derived) => derived,
        None => { return Err(ProcessorError::InvalidSeeds); },
    };
    let mut accounts: Vec<AccountMeta> = Vec::new();
    accounts.push(AccountMeta::new_readonly(creator, true));
    accounts.push(AccountMeta::new(challenge_pda, false));
    assert(accounts@ =~= start_challenge_accounts(creator, challenge_pda));
    make_request(accounts, ChallengeInstruction::StartChallenge { id })
}

/// The request to admit a challenger, with the two addresses derived for it.
#[derive(Debug, PartialEq, Eq)]
pub struct AdmitChallengerIx {
    /// The address of the challenge.
    pub challenge_pda: Address,
    /// The address of the record of the challenger.
    pub challenger_pda: Address,
    /// The request.
    pub ix: Instruction,
}

/// An admission request as a mathematical value.
pub struct AdmitChallengerView {
    pub challenge_pda: Address,
    pub challenger_pda: Address,
    pub ix: RequestView,
}

impl View for AdmitChallengerIx {
    type V = AdmitChallengerView;

    open spec fn view(&self) -> AdmitChallengerView {
        AdmitChallengerView {
            challenge_pda: self.challenge_pda,
            challenger_pda: self.challenger_pda,
            ix: self.ix@,
        }
    }
}

/// The accounts of `AdmitChallenger`: the payer signs and pays, the creator
/// receives the fee, the record of the challenger is created.
pub open spec fn admit_challenger_accounts(
    payer: Address,
    creator: Address,
    challenge_pda: Address,
    challenger: Address,
    challenger_pda: Address,
) -> Seq<AccountMeta> {
    seq![
        writable(payer, true),
        writable(creator, false),
        readonly(challenge_pda, false),
        readonly(challenger, false),
        writable(challenger_pda, false),
        readonly(SYSTEM_PROGRAM_ID, false),
    ]
}

/// The request that `admit_challenger` makes.
pub open spec fn spec_admit_challenger(payer: Address, creator: Address, id: Seq<char>, challenger: Address) -> Result<
    AdmitChallengerView,
    ProcessorError,
> {
    match spec_challenge_pda(creator, id) {
        None => Err(ProcessorError::InvalidSeeds),
        Some((challenge_pda, _)) => match spec_challenger_pda(challenge_pda, challenger) {
            None => Err(ProcessorError::InvalidSeeds),
            Some((challenger_pda, _)) => match request(
                admit_challenger_accounts(payer, creator, challenge_pda, challenger, challenger_pda),
                InstructionView::AdmitChallenger { challenge_pda },
            ) {
                Ok(ix) => Ok(AdmitChallengerView { challenge_pda, challenger_pda, ix }),
                Err(e) => Err(e),
            },
        },
    }
}

/// The request to admit a challenger to the challenge of a creator and id.
pub fn admit_challenger(payer: Address, creator: Address, id: &str, challenger: Address) -> (r: Result<
    AdmitChallengerIx,
    ProcessorError,
>)
    ensures
        match r {
            Ok(admission) => spec_admit_challenger(payer, creator, id@, challenger) == Ok::<
                AdmitChallengerView,
                ProcessorError,
            >(admission@),
            Err(e) => spec_admit_challenger(payer, creator, id@, challenger) == Err::<
                AdmitChallengerView,
                ProcessorError,
            >(e),
        },
{
    let (challenge_pda, _) = match Challenge::pda_for(&creator, id) {
        Some(derived) => derived,
        None => { return Err(ProcessorError::InvalidSeeds); },
    };
    let (challenger_pda, _) = match Challenger::pda_for(&challenge_pda, &challenger) {
        Some(derived) => derived,
        None => { return Err(ProcessorError::InvalidSeeds); },
    };
    let mut accounts: Vec<AccountMeta> = Vec::new();
    accounts.push(AccountMeta::new(payer, true));
    accounts.push(AccountMeta::new(creator, false));
    accounts.push(AccountMeta::new_readonly(challenge_pda, false));
    accounts.push(AccountMeta::new_readonly(challenger, false));
    accounts.push(AccountMeta::new(challenger_pda, false));
    accounts.push(AccountMeta::new_readonly(SYSTEM_PROGRAM_ID, false));
    assert(accounts@ =~= admit_challenger_accounts(payer, creator, challenge_pda, challenger, challenger_pda));
    let ix = make_request(accounts, ChallengeInstruction::AdmitChallenger { challenge_pda })?;
    Ok(AdmitChallengerIx { challenge_pda, challenger_pda, ix })
}

/// The accounts of `Redeem`: payer and challenger sign; the challenge, the
/// record of the challenger, the mint and the challenger's associated
/// account may change.
pub open spec fn redeem_accounts(
    payer: Address,
    challenge_pda: Address,
    challenger: Address,
    challenger_pda: Address,
    redeem_pda: Address,
    redeem_ata: Address,
) -> Seq<AccountMeta> {
    seq![
        readonly(payer, true),
        writable(challenge_pda, false),
        readonly(challenger, true),
        writable(challenger_pda, false),
        writable(redeem_pda, false),
        writable(redeem_ata, false),
        readonly(TOKEN_PROGRAM_ID, false),
        readonly(ASSOCIATED_TOKEN_PROGRAM_ID, false),
        readonly(SYSTEM_PROGRAM_ID, false),
    ]
}

/// The request that `redeem` makes.
pub open spec fn spec_redeem(payer: Address, creator: Address, id: Seq<char>, challenger: Address, solution: Seq<
    char,
>) -> Result<RequestView, ProcessorError> {
    match spec_challenge_pda(creator, id) {
        None => Err(ProcessorError::InvalidSeeds),
        Some((challenge_pda, _)) => match spec_challenger_pda(challenge_pda, challenger) {
            None => Err(ProcessorError::InvalidSeeds),
            Some((challenger_pda, _)) => match spec_redeem_pda(challenge_pda) {
                None => Err(ProcessorError::InvalidSeeds),
                Some((redeem_pda, _)) => match spec_associated_token_address(challenger, redeem_pda, TOKEN_PROGRAM_ID) {
                    None => Err(ProcessorError::InvalidSeeds),
                    Some(redeem_ata) => request(
                        redeem_accounts(payer, challenge_pda, challenger, challenger_pda, redeem_pda, redeem_ata),
                        InstructionView::Redeem { solution: array32(spec_challenger_sends(solution)) },
                    ),
                },
            },
        },
    }
}

/// The request to redeem with a solution.
///
/// * `payer`: pays for the challenger's associated account
/// * `creator`: the authority of the challenge
/// * `id`: the id that the challenge was created with
/// * `challenger`: the account that attempts the solution and receives the
///   reward
/// * `solution`: the solution in clear text; the request carries its hash
pub fn redeem(payer: Address, creator: Address, id: &str, challenger: Address, solution: &str) -> (r: Result<
    Instruction,
    ProcessorError,
>)
    ensures
        match r {
            Ok(ix) => spec_redeem(payer, creator, id@, challenger, solution@) == Ok::<RequestView, ProcessorError>(
                ix@,
            ),
            Err(e) => spec_redeem(payer, creator, id@, challenger, solution@) == Err::<
                RequestView,
                ProcessorError,
            >(e),
        },
{
    let challenger_sends = hash_solution_challenger_sends(solution);
    proof {
        crate::wire::lemma_array32_of_view(challenger_sends);
    }
    let (challenge_pda, _) = match Challenge::pda_for(&creator, id) {
        Some(derived) => derived,
        None => { return Err(ProcessorError::InvalidSeeds); },
    };
    let (challenger_pda, _) = match Challenger::pda_for(&challenge_pda, &challenger) {
        Some(derived) => derived,
        None => { return Err(ProcessorError::InvalidSeeds); },
    };
    let redeem = match Redeem::new(challenge_pda) {
        Some(redeem) => redeem,
        None => { return Err(ProcessorError::InvalidSeeds); },
    };
    let redeem_ata = match redeem.ata(&challenger) {
        Some(ata) => ata,
        None => { return Err(ProcessorError::InvalidSeeds); },
    };
    let mut accounts: Vec<AccountMeta> = Vec::new();
    accounts.push(AccountMeta::new_readonly(payer, true));
    accounts.push(AccountMeta::new(challenge_pda, false));
    accounts.push(AccountMeta::new_readonly(challenger, true));
    accounts.push(AccountMeta::new(challenger_pda, false));
    accounts.push(AccountMeta::new(redeem.pda, false));
    accounts.push(AccountMeta::new(redeem_ata, false));
    accounts.push(AccountMeta::new_readonly(token_program_id(), false));
    accounts.push(AccountMeta::new_readonly(associated_token_program_id(), false));
    accounts.push(AccountMeta::new_readonly(SYSTEM_PROGRAM_ID, false));
    assert(accounts@ =~= redeem_accounts(
        payer,
        challenge_pda,
        challenger,
        challenger_pda,
        redeem.pda,
        redeem_ata,
    ));
    make_request(accounts, ChallengeInstruction::Redeem { solution: challenger_sends })
}

} // verus!
