//! Reading a record from the account that holds it.

use vstd::prelude::*;
use crate::address::Address;
use crate::error::{ChallengeError, ProcessorError};
use crate::ixs::AccountMeta;
use crate::ledger::{Ledger, LedgerView};
use crate::state::challenge::{spec_challenge_pda, Challenge, ChallengeView};
use crate::state::challenger::Challenger;
use crate::utils::asserts::{
    assert_account_is_funded_and_has_data, assert_is_signer, assert_keys_equal,
    spec_funded_and_has_data,
};

verus! {

/// A record read from the account at a derived address, with that address
/// and its bump seed.
#[derive(Debug)]
pub struct StateFromPdaAccountValue<T> {
    pub state: T,
    pub pda: Address,
    pub bump: u8,
}

impl<T: View> View for StateFromPdaAccountValue<T> {
    type V = StateFromPdaAccountValue<T::V>;

    open spec fn view(&self) -> StateFromPdaAccountValue<T::V> {
        StateFromPdaAccountValue { state: self.state@, pda: self.pda, bump: self.bump }
    }
}

/// The outcome of reading a record, as a mathematical value.
pub open spec fn state_view<T: View>(r: Result<T, ProcessorError>) -> Result<T::V, ProcessorError> {
    match r {
        Ok(state) => Ok(state@),
        Err(e) => Err(e),
    }
}

/// The challenge that an account holds: it must hold data and a balance,
/// and the data must be the layout of a challenge.
pub open spec fn spec_challenge_state(ledger: LedgerView, key: Address) -> Result<ChallengeView, ProcessorError> {
    match spec_funded_and_has_data(ledger, key) {
        Err(e) => Err(e),
        Ok(()) => match ChallengeView::decode(ledger[key].data) {
            Some(state) => Ok(state),
            None => Err(ProcessorError::InvalidAccountData),
        },
    }
}

/// The challenge at the front of what an account holds: it must hold data
/// and a balance, and the data must start with the layout of a challenge.
pub open spec fn spec_challenge_state_unchecked(ledger: LedgerView, key: Address) -> Result<
    ChallengeView,
    ProcessorError,
> {
    match spec_funded_and_has_data(ledger, key) {
        Err(e) => Err(e),
        Ok(()) => match ChallengeView::decode_unchecked(ledger[key].data) {
            Some(state) => Ok(state),
            None => Err(ProcessorError::InvalidAccountData),
        },
    }
}

/// The challenger record that an account holds: it must hold data and a
/// balance, and the data must be the layout of a challenger record.
pub open spec fn spec_challenger_state(ledger: LedgerView, key: Address) -> Result<Challenger, ProcessorError> {
    match spec_funded_and_has_data(ledger, key) {
        Err(e) => Err(e),
        Ok(()) => match Challenger::decode(ledger[key].data) {
            Some(state) => Ok(state),
            None => Err(ProcessorError::InvalidAccountData),
        },
    }
}

/// The challenger record at the front of what an account holds: it must
/// hold data and a balance, and the data must start with the layout of a
/// challenger record.
pub open spec fn spec_challenger_state_unchecked(ledger: LedgerView, key: Address) -> Result<
    Challenger,
    ProcessorError,
> {
    match spec_funded_and_has_data(ledger, key) {
        Err(e) => Err(e),
        Ok(()) => match Challenger::decode_unchecked(ledger[key].data) {
            Some(state) => Ok(state),
            None => Err(ProcessorError::InvalidAccountData),
        },
    }
}

/// A record that was read from an account which is expected at a derived
/// address: the account must lie at that address.
pub open spec fn spec_state_from_pda<V>(
    state: Result<V, ProcessorError>,
    account: Address,
    pda: Address,
    bump: u8,
) -> Result<StateFromPdaAccountValue<V>, ProcessorError> {
    match state {
        Err(e) => Err(e),
        Ok(state) => if account != pda {
            Err(ProcessorError::Custom(ChallengeError::ProvidedAtaIsIncorrect))
        } else {
            Ok(StateFromPdaAccountValue { state, pda, bump })
        },
    }
}

/// The challenge that an account holds for a creator and id, with the
/// address and bump seed derived from both: the account must hold a
/// challenge and lie at the derived address, the creator must have signed
/// and must be the authority of the challenge.
pub open spec fn spec_account_state_verifying_creator(
    ledger: LedgerView,
    challenge_pda: Address,
    creator: AccountMeta,
    id: Seq<char>,
) -> Result<StateFromPdaAccountValue<ChallengeView>, ProcessorError> {
    match spec_challenge_pda(creator.pubkey, id) {
        None => Err(ProcessorError::InvalidSeeds),
        Some((pda, bump)) => match spec_state_from_pda(
            spec_challenge_state(ledger, challenge_pda),
            challenge_pda,
            pda,
            bump,
        ) {
            Err(e) => Err(e),
            Ok(found) => if !creator.is_signer {
                Err(ProcessorError::Custom(ChallengeError::AccountShouldBeSigner))
            } else if found.state.authority != creator.pubkey {
                Err(ProcessorError::Custom(ChallengeError::ProvidedAtaIsIncorrect))
            } else {
                Ok(found)
            },
        },
    }
}

/// Reading the record at the front of what an account holds, without the
/// check that the record takes all of it.
pub trait TryStateFromAccountUnchecked<T: View> {
    /// The record at the front of what the account holds.
    spec fn spec_state_unchecked(&self, account: Address) -> Result<T::V, ProcessorError>;

    /// Reads the record at the front of what the account holds. Fails where
    /// the account holds no data or no balance, or data that does not start
    /// with the layout of a record.
    fn try_state_from_account_unchecked(&self, account: &Address) -> (r: Result<T, ProcessorError>)
        ensures
            state_view(r) == self.spec_state_unchecked(*account),
    ;
}

/// Reading the record that an account holds.
pub trait TryStateFromAccount<T: View> {
    /// The record that the account holds.
    spec fn spec_state(&self, account: Address) -> Result<T::V, ProcessorError>;

    /// Reads the record that the account holds. Fails where the account
    /// holds no data or no balance, or data that is not the layout of a
    /// record.
    fn try_state_from_account(&self, account: &Address) -> (r: Result<T, ProcessorError>)
        ensures
            state_view(r) == self.spec_state(*account),
    ;
}

/// Reading the record at the front of what an account holds, where the
/// account is expected at a derived address.
pub trait TryStateFromPdaAccountUnchecked<T: View>: TryStateFromAccountUnchecked<T> {
    /// Reads the record at the front of what the account holds, and
    /// verifies that the account lies at the derived address given.
    fn try_state_from_pda_account_unchecked(&self, account: &Address, pda_and_bump: (Address, u8)) -> (r: Result<
        StateFromPdaAccountValue<T>,
        ProcessorError,
    >)
        ensures
            state_view(r) == spec_state_from_pda(
                self.spec_state_unchecked(*account),
                *account,
                pda_and_bump.0,
                pda_and_bump.1,
            ),
    {
        let (pda, bump) = pda_and_bump;
        let state: T = self.try_state_from_account_unchecked(account)?;
        assert_keys_equal(account, &pda)?;
        Ok(StateFromPdaAccountValue { state, pda, bump })
    }
}

/// Reading the record that an account holds, where the account is expected
/// at a derived address.
pub trait TryStateFromPdaAccount<T: View>: TryStateFromAccount<T> {
    /// Reads the record that the account holds, and verifies that the
    /// account lies at the derived address given. Fails where the account
    /// holds no record, and else where it lies at another address.
    fn try_state_from_pda_account(&self, account: &Address, pda_and_bump: (Address, u8)) -> (r: Result<
        StateFromPdaAccountValue<T>,
        ProcessorError,
    >)
        ensures
            state_view(r) == spec_state_from_pda(self.spec_state(*account), *account, pda_and_bump.0, pda_and_bump.1),
    {
        let (pda, bump) = pda_and_bump;
        let state: T = self.try_state_from_account(account)?;
        assert_keys_equal(account, &pda)?;
        Ok(StateFromPdaAccountValue { state, pda, bump })
    }
}

impl TryStateFromAccountUnchecked<Challenge> for Ledger {
    open spec fn spec_state_unchecked(&self, account: Address) -> Result<ChallengeView, ProcessorError> {
        spec_challenge_state_unchecked(self@, account)
    }

    fn try_state_from_account_unchecked(&self, account: &Address) -> (r: Result<Challenge, ProcessorError>) {
        assert_account_is_funded_and_has_data(self, account)?;
        let data = self.data(account);
        match Challenge::try_from_slice_unchecked(data.as_slice()) {
            Some(state) => Ok(state),
            None => Err(ProcessorError::InvalidAccountData),
        }
    }
}

impl TryStateFromAccount<Challenge> for Ledger {
    open spec fn spec_state(&self, account: Address) -> Result<ChallengeView, ProcessorError> {
        spec_challenge_state(self@, account)
    }

    fn try_state_from_account(&self, account: &Address) -> (r: Result<Challenge, ProcessorError>) {
        assert_account_is_funded_and_has_data(self, account)?;
        let data = self.data(account);
        match Challenge::try_from_slice(data.as_slice()) {
            Some(state) => Ok(state),
            None => Err(ProcessorError::InvalidAccountData),
        }
    }
}

impl TryStateFromAccountUnchecked<Challenger> for Ledger {
    open spec fn spec_state_unchecked(&self, account: Address) -> Result<Challenger, ProcessorError> {
        spec_challenger_state_unchecked(self@, account)
    }

    fn try_state_from_account_unchecked(&self, account: &Address) -> (r: Result<Challenger, ProcessorError>) {
        assert_account_is_funded_and_has_data(self, account)?;
        let data = self.data(account);
        match Challenger::try_from_slice_unchecked(data.as_slice()) {
            Some(state) => Ok(state),
            None => Err(ProcessorError::InvalidAccountData),
        }
    }
}

impl TryStateFromAccount<Challenger> for Ledger {
    open spec fn spec_state(&self, account: Address) -> Result<Challenger, ProcessorError> {
        spec_challenger_state(self@, account)
    }

    fn try_state_from_account(&self, account: &Address) -> (r: Result<Challenger, ProcessorError>) {
        assert_account_is_funded_and_has_data(self, account)?;
        let data = self.data(account);
        match Challenger::try_from_slice(data.as_slice()) {
            Some(state) => Ok(state),
            None => Err(ProcessorError::InvalidAccountData),
        }
    }
}

impl TryStateFromPdaAccountUnchecked<Challenge> for Ledger {}

impl TryStateFromPdaAccount<Challenge> for Ledger {}

impl TryStateFromPdaAccountUnchecked<Challenger> for Ledger {}

impl TryStateFromPdaAccount<Challenger> for Ledger {}

impl Challenge {
    /// Reads the challenge of a creator and id from the account supplied
    /// for it, and verifies that the account holds a challenge, that it lies
    /// at the address derived from creator and id, that the creator signed,
    /// and that the creator is the authority of the challenge.
    pub fn account_state_verifying_creator(
        ledger: &Ledger,
        challenge_pda: &Address,
        creator: &AccountMeta,
        id: &str,
    ) -> (r: Result<StateFromPdaAccountValue<Challenge>, ProcessorError>)
        ensures
            state_view(r) == spec_account_state_verifying_creator(ledger@, *challenge_pda, *creator, id@),
    {
        let pda_and_bump = match Challenge::pda_for(&creator.pubkey, id) {
            Some(derived) => derived,
            None => { return Err(ProcessorError::InvalidSeeds); },
        };
        let found: StateFromPdaAccountValue<Challenge> = ledger.try_state_from_pda_account(
            challenge_pda,
            pda_and_bump,
        )?;
        assert_is_signer(creator)?;
        assert_keys_equal(&found.state.authority, &creator.pubkey)?;
        Ok(found)
    }
}

} // verus!
