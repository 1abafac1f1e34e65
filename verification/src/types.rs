//! Plain values shared by the three services.
//!
//! Identities are account numbers, token amounts are unsigned integers, and
//! times are seconds; the host shell converts between these and its own
//! address, big-integer and clock representations at the boundary.

use vstd::prelude::*;

verus! {

/// The identity of a caller, a depositor or a peer service.
pub type AccountId = u64;

/// A token amount.
pub type Amount = u128;

/// A point in time, in seconds.
pub type Time = u64;

/// Seconds in one day: deposit and cover periods are counted in days.
pub const SECONDS_PER_DAY: u64 = 86400;

/// Whether a configured address is set and names `c`.
pub fn account_is(a: &Option<AccountId>, c: AccountId) -> (b: bool)
    ensures
        b == (*a == Some(c)),
{
    match a {
        Some(o) => *o == c,
        None => false,
    }
}

/// The risk category a pool underwrites and a cover insures against.
#[derive(Clone, Copy, PartialEq, Eq, Structural, Debug)]
pub enum RiskType {
    SmartContract,
    Stablecoin,
    Slashing,
    Protocol,
}

/// Whether a deposit is still live or has been paid out.
#[derive(Clone, Copy, PartialEq, Eq, Structural, Debug)]
pub enum Status {
    Active,
    Withdrawn,
}

/// Lifecycle of a claim proposal.
#[derive(Clone, Copy, PartialEq, Eq, Structural, Debug)]
pub enum ProposalStatus {
    Submitted,
    Pending,
    Approved,
    Rejected,
    Claimed,
}

/// Failure of a transfer into the platform: the payer's balance was too
/// low, or the ledger rejected or never answered the transfer.
#[derive(Clone, Copy, PartialEq, Eq, Structural, Debug)]
pub enum DepositErr {
    BalanceLow,
    TransferFailure,
}

/// Failure of a payout: the platform's own balance was too low, the
/// ledger rejected or never answered the transfer, or the balance could
/// not even be read.
#[derive(Clone, Copy, PartialEq, Eq, Structural, Debug)]
pub enum WithdrawErr {
    BalanceLow,
    TransferFailure,
    BalanceCheckFailed,
}

} // verus!
