//! A challenge program for a ledger: a creator deposits hashed solutions and
//! an admission fee, challengers pay to be admitted and then redeem a reward
//! token by presenting the solutions in order.

pub mod action;
pub mod address;
pub mod error;
pub mod ixs;
pub mod laws;
pub mod ledger;
pub mod processor;
pub mod rent;
pub mod state;
pub mod utils;
pub mod wire;

use vstd::prelude::*;

verus! {

/// A 32-byte commitment to a solution.
pub type Solution = [u8; 32];

/// The address under which this program is deployed.
pub fn challenge_id() -> (id: address::Address)
    ensures
        id == address::CHALLENGE_PROGRAM_ID,
{
    address::CHALLENGE_PROGRAM_ID
}

} // verus!
