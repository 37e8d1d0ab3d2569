//! The rent parameters of the host and the balance that keeps an account of
//! a given size persisted.

use vstd::prelude::*;

verus! {

/// The highest rate for which the minimum balance of every permitted size
/// fits 64 bits.
pub const MAX_LAMPORTS_PER_BYTE: u64 = 1_759_197_129_867;

/// The rent parameters, as the host publishes them.
#[derive(Clone, Copy, Debug, PartialEq, Eq)]
pub struct Rent {
    /// The rate, in lamports for each byte.
    pub lamports_per_byte: u64,
    /// The factor on the rate: the little-endian bytes of a 64-bit float.
    pub exemption_threshold: [u8; 8],
    /// The share of collected rent that is burned, in percent.
    pub burn_percent: u8,
}

/// What `Rent::try_minimum_balance` of `solana_program::rent` returns for a
/// rate, a factor and a number of bytes.
pub uninterp spec fn spec_try_minimum_balance(
    lamports_per_byte: u64,
    exemption_threshold: Seq<u8>,
    data_len: usize,
) -> Option<u64>;

/// Calls `solana_program::rent::Rent::try_minimum_balance` on the rent with
/// these parameters. The result depends on the rate, the factor and the
/// number of bytes alone. Rates above `MAX_LAMPORTS_PER_BYTE` are left out:
/// with them the product of rate and size can exceed 64 bits.
#[verifier::external_body]
fn try_minimum_balance(rent: &Rent, data_len: usize) -> (balance: Option<u64>)
    requires
        rent.lamports_per_byte <= MAX_LAMPORTS_PER_BYTE,
    ensures
        balance == spec_try_minimum_balance(rent.lamports_per_byte, rent.exemption_threshold@, data_len),
{
    #[allow(deprecated)]
    let outside = solana_program::rent::Rent {
        lamports_per_byte: rent.lamports_per_byte,
        exemption_threshold: rent.exemption_threshold,
        burn_percent: rent.burn_percent,
    };
    outside.try_minimum_balance(data_len)
}

impl Rent {
    /// The balance that keeps an account of `data_len` bytes persisted, if
    /// the host defines one for this rate and size.
    pub open spec fn spec_minimum_balance(&self, data_len: usize) -> Option<u64> {
        if self.lamports_per_byte <= MAX_LAMPORTS_PER_BYTE {
            spec_try_minimum_balance(self.lamports_per_byte, self.exemption_threshold@, data_len)
        } else {
            None
        }
    }

    /// The balance that keeps an account of `data_len` bytes persisted;
    /// `None` where the rate is above `MAX_LAMPORTS_PER_BYTE` or the host
    /// defines no balance for this rate and size.
    pub fn minimum_balance(&self, data_len: usize) -> (balance: Option<u64>)
        ensures
            balance == self.spec_minimum_balance(data_len),
    {
        if self.lamports_per_byte > MAX_LAMPORTS_PER_BYTE {
            None
        } else {
            try_minimum_balance(self, data_len)
        }
    }
}

} // verus!
