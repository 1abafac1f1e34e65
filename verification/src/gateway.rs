//! The asset transfer gateway's decisions.
//!
//! The gateway wraps the external ledger behind a uniform contract: read
//! a balance, compare it against the requested amount, fail fast with no
//! partial transfer, and map the ledger's reply onto a definitive
//! success or failure.  The two remote reads happen at the boundary; the
//! decisions between them are here, and the gateway itself never mutates
//! ledger or service state — callers commit their books only after a
//! definitive signal.

use crate::types::{Amount, DepositErr, WithdrawErr};
use vstd::prelude::*;

verus! {

/// The ledger's reply to a transfer: carried out, rejected, or never
/// answered.
#[derive(Clone, Copy, PartialEq, Eq, Structural, Debug)]
pub enum TransferResult {
    Accepted,
    Rejected,
    Unreachable,
}

/// Decides a transfer in from a payer's balance, as far as it could be
/// read: an unreadable balance is a transfer failure, a balance below
/// the requested amount fails fast with no partial transfer, and only a
/// sufficient balance lets the transfer go ahead.
pub fn deposit_check(balance: Option<Amount>, amount: Amount) -> (r: Result<(), DepositErr>)
    ensures
        match r {
            Ok(()) => balance matches Some(b) && b >= amount,
            Err(e) => match e {
                DepositErr::TransferFailure => balance is None,
                DepositErr::BalanceLow => balance matches Some(b) && b < amount,
            },
        },
{
    match balance {
        None => Err(DepositErr::TransferFailure),
        Some(b) => if b < amount {
            Err(DepositErr::BalanceLow)
        } else {
            Ok(())
        },
    }
}

/// Maps the ledger's reply to a transfer in onto the amount credited:
/// only a carried-out transfer credits, and exactly the requested
/// amount; any rejection or silence is a transfer failure.
pub fn deposit_settle(outcome: TransferResult, amount: Amount) -> (r: Result<Amount,
    DepositErr>)
    ensures
        match r {
            Ok(a) => outcome == TransferResult::Accepted && a == amount,
            Err(e) => outcome != TransferResult::Accepted && e == DepositErr::TransferFailure,
        },
{
    match outcome {
        TransferResult::Accepted => Ok(amount),
        TransferResult::Rejected => Err(DepositErr::TransferFailure),
        TransferResult::Unreachable => Err(DepositErr::TransferFailure),
    }
}

/// Decides a payout from the platform's own balance, as far as it could
/// be read: an unreadable balance fails the balance check, a balance
/// below the requested amount fails fast, and only a sufficient balance
/// lets the payout go ahead.
pub fn withdraw_check(balance: Option<Amount>, amount: Amount) -> (r: Result<(), WithdrawErr>)
    ensures
        match r {
            Ok(()) => balance matches Some(b) && b >= amount,
            Err(e) => match e {
                WithdrawErr::BalanceCheckFailed => balance is None,
                WithdrawErr::BalanceLow => balance matches Some(b) && b < amount,
                WithdrawErr::TransferFailure => false,
            },
        },
{
    match balance {
        None => Err(WithdrawErr::BalanceCheckFailed),
        Some(b) => if b < amount {
            Err(WithdrawErr::BalanceLow)
        } else {
            Ok(())
        },
    }
}

/// Maps the ledger's reply to a payout onto the amount paid: only a
/// carried-out transfer pays, and exactly the requested amount.
pub fn withdraw_settle(outcome: TransferResult, amount: Amount) -> (r: Result<Amount,
    WithdrawErr>)
    ensures
        match r {
            Ok(a) => outcome == TransferResult::Accepted && a == amount,
            Err(e) => outcome != TransferResult::Accepted && e
                == WithdrawErr::TransferFailure,
        },
{
    match outcome {
        TransferResult::Accepted => Ok(amount),
        TransferResult::Rejected => Err(WithdrawErr::TransferFailure),
        TransferResult::Unreachable => Err(WithdrawErr::TransferFailure),
    }
}

} // verus!
