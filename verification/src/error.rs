//! The errors of the challenge program, each with its numeric code.

use vstd::prelude::*;

verus! {

/// The code of the first error; the others follow in declaration order.
pub const FIRST_ERROR_CODE: u32 = 0x11c7ac;

/// The number of error kinds.
pub const ERROR_KINDS: u32 = 16;

/// What a precondition check of the program reports when it fails.
#[derive(Clone, Copy, Debug, PartialEq, Eq, Structural)]
pub enum ChallengeError {
    /// An account that has to sign the transaction did not.
    AccountShouldBeSigner,
    /// A supplied address differs from the one the program expects.
    ProvidedAtaIsIncorrect,
    /// An account that should hold a balance holds none.
    AccountNotFunded,
    /// More solutions than a challenge can hold.
    ExceedingMaxSupportedSolutions,
    /// An instruction to add solutions carried none.
    NoSolutionsToAddProvided,
    /// An account that must not exist yet does.
    AccountAlreadyExists,
    /// An account that must be empty holds data.
    AccountAlreadyHasData,
    /// An account that must hold a record is empty.
    AccountHasNoData,
    /// The challenge was started before.
    ChallengeAlreadyStarted,
    /// A challenge without solutions cannot be started.
    ChallengeHasNoSolutions,
    /// The challenge does not admit or redeem before it is started.
    ChallengeNotYetStarted,
    /// The challenge does not admit or redeem after it is finished.
    ChallengeAlreadyFinished,
    /// The solution presented is not the one expected next.
    SolutionIsIncorrect,
    /// Every solution was redeemed already.
    OutOfSolutions,
    /// The challenger used up all tries.
    ChallengerHasNoTriesRemaining,
    /// The payer's balance does not cover the amount to transfer.
    InsufficientFunds,
}

impl ChallengeError {
    /// The position of the error in declaration order.
    pub open spec fn ordinal(self) -> u32 {
        match self {
            ChallengeError::AccountShouldBeSigner => 0,
            ChallengeError::ProvidedAtaIsIncorrect => 1,
            ChallengeError::AccountNotFunded => 2,
            ChallengeError::ExceedingMaxSupportedSolutions => 3,
            ChallengeError::NoSolutionsToAddProvided => 4,
            ChallengeError::AccountAlreadyExists => 5,
            ChallengeError::AccountAlreadyHasData => 6,
            ChallengeError::AccountHasNoData => 7,
            ChallengeError::ChallengeAlreadyStarted => 8,
            ChallengeError::ChallengeHasNoSolutions => 9,
            ChallengeError::ChallengeNotYetStarted => 10,
            ChallengeError::ChallengeAlreadyFinished => 11,
            ChallengeError::SolutionIsIncorrect => 12,
            ChallengeError::OutOfSolutions => 13,
            ChallengeError::ChallengerHasNoTriesRemaining => 14,
            ChallengeError::InsufficientFunds => 15,
        }
    }

    /// The numeric code under which the host reports the error.
    pub open spec fn spec_code(self) -> u32 {
        (FIRST_ERROR_CODE + self.ordinal()) as u32
    }

    /// The error at a position in declaration order.
    pub open spec fn at_ordinal(ordinal: u32) -> Option<ChallengeError> {
        if ordinal == 0 {
            Some(ChallengeError::AccountShouldBeSigner)
        } else if ordinal == 1 {
            Some(ChallengeError::ProvidedAtaIsIncorrect)
        } else if ordinal == 2 {
            Some(ChallengeError::AccountNotFunded)
        } else if ordinal == 3 {
            Some(ChallengeError::ExceedingMaxSupportedSolutions)
        } else if ordinal == 4 {
            Some(ChallengeError::NoSolutionsToAddProvided)
        } else if ordinal == 5 {
            Some(ChallengeError::AccountAlreadyExists)
        } else if ordinal == 6 {
            Some(ChallengeError::AccountAlreadyHasData)
        } else if ordinal == 7 {
            Some(ChallengeError::AccountHasNoData)
        } else if ordinal == 8 {
            Some(ChallengeError::ChallengeAlreadyStarted)
        } else if ordinal == 9 {
            Some(ChallengeError::ChallengeHasNoSolutions)
        } else if ordinal == 10 {
            Some(ChallengeError::ChallengeNotYetStarted)
        } else if ordinal == 11 {
            Some(ChallengeError::ChallengeAlreadyFinished)
        } else if ordinal == 12 {
            Some(ChallengeError::SolutionIsIncorrect)
        } else if ordinal == 13 {
            Some(ChallengeError::OutOfSolutions)
        } else if ordinal == 14 {
            Some(ChallengeError::ChallengerHasNoTriesRemaining)
        } else if ordinal == 15 {
            Some(ChallengeError::InsufficientFunds)
        } else {
            None
        }
    }

    /// The error that a numeric code stands for, if it stands for one.
    pub open spec fn spec_from_code(code: u32) -> Option<ChallengeError> {
        if code < FIRST_ERROR_CODE {
            None
        } else {
            ChallengeError::at_ordinal((code - FIRST_ERROR_CODE) as u32)
        }
    }

    /// The text that describes the error.
    pub open spec fn spec_message(self) -> Seq<char> {
        match self {
            ChallengeError::AccountShouldBeSigner => "Account should be signer"@,
            ChallengeError::ProvidedAtaIsIncorrect => "Provided ATA does not match the expected ATA"@,
            ChallengeError::AccountNotFunded => "Account not funded"@,
            ChallengeError::ExceedingMaxSupportedSolutions => "Amount of solutions exceeds maximum supported solutions "@,
            ChallengeError::NoSolutionsToAddProvided => "When adding solutions you need to provide at least one solution"@,
            ChallengeError::AccountAlreadyExists => "Account was expected to not exists yet, but it does"@,
            ChallengeError::AccountAlreadyHasData => "Account has data but was expected to be empty"@,
            ChallengeError::AccountHasNoData => "Account has no data"@,
            ChallengeError::ChallengeAlreadyStarted => "Challenge was started already and cannot be started again"@,
            ChallengeError::ChallengeHasNoSolutions => "Challenge has no solutions and thus cannot be started"@,
            ChallengeError::ChallengeNotYetStarted => "Challenge has not started yet and is not ready to admit challengers"@,
            ChallengeError::ChallengeAlreadyFinished => "Challenge was finished already and is not admitting challengers nor allowing to redeem prices"@,
            ChallengeError::SolutionIsIncorrect => "The provided solution did not match the currently expected solution"@,
            ChallengeError::OutOfSolutions => "All solutions were already redeemed"@,
            ChallengeError::ChallengerHasNoTriesRemaining => "This challenger used up all tries to solve the challenge"@,
            ChallengeError::InsufficientFunds => "Payer does not have sufficient lamports to fund the operation"@,
        }
    }

    /// The numeric code under which the host reports the error.
    pub fn code(&self) -> (code: u32)
        ensures
            code == self.spec_code(),
            FIRST_ERROR_CODE <= code < FIRST_ERROR_CODE + ERROR_KINDS,
    {
        match self {
            ChallengeError::AccountShouldBeSigner => FIRST_ERROR_CODE,
            ChallengeError::ProvidedAtaIsIncorrect => FIRST_ERROR_CODE + 1,
            ChallengeError::AccountNotFunded => FIRST_ERROR_CODE + 2,
            ChallengeError::ExceedingMaxSupportedSolutions => FIRST_ERROR_CODE + 3,
            ChallengeError::NoSolutionsToAddProvided => FIRST_ERROR_CODE + 4,
            ChallengeError::AccountAlreadyExists => FIRST_ERROR_CODE + 5,
            ChallengeError::AccountAlreadyHasData => FIRST_ERROR_CODE + 6,
            ChallengeError::AccountHasNoData => FIRST_ERROR_CODE + 7,
            ChallengeError::ChallengeAlreadyStarted => FIRST_ERROR_CODE + 8,
            ChallengeError::ChallengeHasNoSolutions => FIRST_ERROR_CODE + 9,
            ChallengeError::ChallengeNotYetStarted => FIRST_ERROR_CODE + 10,
            ChallengeError::ChallengeAlreadyFinished => FIRST_ERROR_CODE + 11,
            ChallengeError::SolutionIsIncorrect => FIRST_ERROR_CODE + 12,
            ChallengeError::OutOfSolutions => FIRST_ERROR_CODE + 13,
            ChallengeError::ChallengerHasNoTriesRemaining => FIRST_ERROR_CODE + 14,
            ChallengeError::InsufficientFunds => FIRST_ERROR_CODE + 15,
        }
    }

    /// The error that a numeric code stands for, if it stands for one.
    pub fn from_code(code: u32) -> (error: Option<ChallengeError>)
        ensures
            error == ChallengeError::spec_from_code(code),
            match error {
                Some(e) => e.spec_code() == code,
                None => forall|e: ChallengeError| e.spec_code() != code,
            },
    {
        if code < FIRST_ERROR_CODE || code >= FIRST_ERROR_CODE + ERROR_KINDS {
            return None;
        }
        let ordinal: u32 = code - FIRST_ERROR_CODE;
        let error = if ordinal == 0 {
            ChallengeError::AccountShouldBeSigner
        } else if ordinal == 1 {
            ChallengeError::ProvidedAtaIsIncorrect
        } else if ordinal == 2 {
            ChallengeError::AccountNotFunded
        } else if ordinal == 3 {
            ChallengeError::ExceedingMaxSupportedSolutions
        } else if ordinal == 4 {
            ChallengeError::NoSolutionsToAddProvided
        } else if ordinal == 5 {
            ChallengeError::AccountAlreadyExists
        } else if ordinal == 6 {
            ChallengeError::AccountAlreadyHasData
        } else if ordinal == 7 {
            ChallengeError::AccountHasNoData
        } else if ordinal == 8 {
            ChallengeError::ChallengeAlreadyStarted
        } else if ordinal == 9 {
            ChallengeError::ChallengeHasNoSolutions
        } else if ordinal == 10 {
            ChallengeError::ChallengeNotYetStarted
        } else if ordinal == 11 {
            ChallengeError::ChallengeAlreadyFinished
        } else if ordinal == 12 {
            ChallengeError::SolutionIsIncorrect
        } else if ordinal == 13 {
            ChallengeError::OutOfSolutions
        } else if ordinal == 14 {
            ChallengeError::ChallengerHasNoTriesRemaining
        } else {
            ChallengeError::InsufficientFunds
        };
        Some(error)
    }

    /// The text that describes the error.
    pub fn message(&self) -> (text: &'static str)
        ensures
            text@ == self.spec_message(),
    {
        match self {
            ChallengeError::AccountShouldBeSigner => "Account should be signer",
            ChallengeError::ProvidedAtaIsIncorrect => "Provided ATA does not match the expected ATA",
            ChallengeError::AccountNotFunded => "Account not funded",
            ChallengeError::ExceedingMaxSupportedSolutions => "Amount of solutions exceeds maximum supported solutions ",
            ChallengeError::NoSolutionsToAddProvided => "When adding solutions you need to provide at least one solution",
            ChallengeError::AccountAlreadyExists => "Account was expected to not exists yet, but it does",
            ChallengeError::AccountAlreadyHasData => "Account has data but was expected to be empty",
            ChallengeError::AccountHasNoData => "Account has no data",
            ChallengeError::ChallengeAlreadyStarted => "Challenge was started already and cannot be started again",
            ChallengeError::ChallengeHasNoSolutions => "Challenge has no solutions and thus cannot be started",
            ChallengeError::ChallengeNotYetStarted => "Challenge has not started yet and is not ready to admit challengers",
            ChallengeError::ChallengeAlreadyFinished => "Challenge was finished already and is not admitting challengers nor allowing to redeem prices",
            ChallengeError::SolutionIsIncorrect => "The provided solution did not match the currently expected solution",
            ChallengeError::OutOfSolutions => "All solutions were already redeemed",
            ChallengeError::ChallengerHasNoTriesRemaining => "This challenger used up all tries to solve the challenge",
            ChallengeError::InsufficientFunds => "Payer does not have sufficient lamports to fund the operation",
        }
    }
}

/// Why an instruction was rejected. The host aborts the whole instruction on
/// any of these, so none of its effects persist.
#[derive(Clone, Copy, Debug, PartialEq, Eq, Structural)]
pub enum ProcessorError {
    /// A precondition check of this program failed.
    Custom(ChallengeError),
    /// The instruction names fewer accounts than its handler reads.
    NotEnoughAccountKeys,
    /// The instruction data is not the encoding of an instruction.
    InvalidInstructionData,
    /// The account data is not the encoding of the record expected there.
    InvalidAccountData,
    /// No address can be derived from the seeds.
    InvalidSeeds,
    /// A balance or a size would exceed what its machine type holds.
    ArithmeticOverflow,
    /// The rent parameters yield no minimum balance for the size asked.
    RentUnavailable,
}

/// The error of the code of an error is that error, and a code is the code
/// of the error that it stands for.
pub proof fn law_code_round_trip(e: ChallengeError, code: u32)
    ensures
        ChallengeError::spec_from_code(e.spec_code()) == Some(e),
        ChallengeError::spec_from_code(code) is Some ==> ChallengeError::spec_from_code(code)->0.spec_code() == code,
{
}

/// Distinct errors have distinct codes.
pub proof fn law_codes_are_distinct(a: ChallengeError, b: ChallengeError)
    requires
        a.spec_code() == b.spec_code(),
    ensures
        a == b,
{
}

} // verus!
