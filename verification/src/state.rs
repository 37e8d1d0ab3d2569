//! The records that the program keeps in ledger accounts, with their byte
//! layout and their derived addresses.

pub mod challenge;
pub mod challenger;
pub mod common;
pub mod redeem;

pub use self::challenge::{Challenge, ChallengeView, EMPTY_CHALLENGE_SIZE_WITH_EMPTY_ID};
pub use self::challenger::{Challenger, CHALLENGER_SIZE};
pub use self::common::{
    StateFromPdaAccountValue, TryStateFromAccount, TryStateFromAccountUnchecked,
    TryStateFromPdaAccount, TryStateFromPdaAccountUnchecked,
};
pub use self::redeem::Redeem;
