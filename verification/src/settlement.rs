//! Claim settlement: the multi-step path that pays an approved claim out
//! of a pool.
//!
//! The pool debit commits first and is never rolled back; the dependent
//! remote steps — recomputing each cover's headroom, marking the proposal
//! claimed, minting the payout — can each fail on their own.  A durable
//! settlement record therefore tracks the last completed step, so a retry
//! resumes where the previous attempt stopped instead of debiting again.

use crate::governance::Proposal;
use crate::pool::{PoolError, PoolState, Settlement, SettlementStep};
use crate::types::{AccountId, Amount, ProposalStatus};
use vstd::prelude::*;

verus! {

impl PoolState {
    /// Opens a settlement: checks that the proposal is approved, not yet
    /// executed, and claimed by its own claimant, then debits the pool —
    /// claims paid up, locked value down — and records the settlement at
    /// its first step.  A proposal already being settled is refused, so
    /// the debit cannot happen twice.
    pub fn settle_start(&mut self, caller: AccountId, proposal: &Proposal) -> (r: Result<(),
        PoolError>)
        requires
            old(self).wf(),
            old(self).pools@.contains_key(proposal.proposal_param.pool_id) ==> old(
                self).pools@[proposal.proposal_param.pool_id].tcp
                + proposal.proposal_param.claim_amount <= u128::MAX,
        ensures
            final(self).wf(),
            match r {
                Ok(()) => {
                    &&& proposal.status == ProposalStatus::Approved
                    &&& !proposal.executed
                    &&& proposal.proposal_param.user == caller
                    &&& !old(self).settlements@.contains_key(proposal.id)
                    &&& {
                        let pid = proposal.proposal_param.pool_id;
                        let amt = proposal.proposal_param.claim_amount;
                        let p0 = old(self).pools@[pid];
                        &&& old(self).pools@.contains_key(pid)
                        &&& p0.is_active
                        &&& amt <= p0.tvl
                        &&& final(self).pools@ == old(self).pools@.insert(pid,
                            final(self).pools@[pid])
                        &&& {
                            let p = final(self).pools@[pid];
                            &&& p.tvl == p0.tvl - amt
                            &&& p.tcp == p0.tcp + amt
                            &&& p.deposits@ == p0.deposits@
                            &&& p.pool_name@ == p0.pool_name@
                            &&& p.risk_type == p0.risk_type
                            &&& p.apy == p0.apy
                            &&& p.min_period == p0.min_period
                            &&& p.is_active == p0.is_active
                            &&& p.percentage_split_balance == p0.percentage_split_balance
                        }
                        &&& final(self).settlements@ == old(self).settlements@.insert(
                            proposal.id,
                            Settlement {
                                claimant: caller,
                                pool_id: pid,
                                claim_amount: amt,
                                step: SettlementStep::Debited,
                            },
                        )
                    }
                    &&& final(self).pool_count == old(self).pool_count
                    &&& final(self).owner == old(self).owner
                    &&& final(self).asset_address == old(self).asset_address
                    &&& final(self).cover_address == old(self).cover_address
                    &&& final(self).gov_address == old(self).gov_address
                    &&& final(self).roster.participants@ == old(self).roster.participants@
                    &&& final(self).roster.participation@ == old(self).roster.participation@
                    &&& final(self).pool_covers@ == old(self).pool_covers@
                },
                Err(e) => {
                    &&& *final(self) == *old(self)
                    &&& {
                        let pid = proposal.proposal_param.pool_id;
                        let approved = proposal.status == ProposalStatus::Approved
                            && !proposal.executed;
                        let claimant = proposal.proposal_param.user == caller;
                        let fresh = !old(self).settlements@.contains_key(proposal.id);
                        match e {
                            PoolError::ProposalNotApproved => !approved,
                            PoolError::NotClaimant => approved && !claimant,
                            PoolError::SettlementInProgress => approved && claimant && !fresh,
                            PoolError::PoolNotFound => approved && claimant && fresh && !old(
                                self).pools@.contains_key(pid),
                            PoolError::PoolInactive => approved && claimant && fresh && old(
                                self).pools@.contains_key(pid) && !old(
                                self).pools@[pid].is_active,
                            PoolError::InsufficientTvl => approved && claimant && fresh && old(
                                self).pools@.contains_key(pid) && old(
                                self).pools@[pid].is_active
                                && proposal.proposal_param.claim_amount > old(
                                self).pools@[pid].tvl,
                            _ => false,
                        }
                    }
                },
            },
    {
        if proposal.status != ProposalStatus::Approved || proposal.executed {
            return Err(PoolError::ProposalNotApproved);
        }
        if proposal.proposal_param.user != caller {
            return Err(PoolError::NotClaimant);
        }
        if self.settlements.contains(proposal.id) {
            return Err(PoolError::SettlementInProgress);
        }
        let pool_id = proposal.proposal_param.pool_id;
        let amt = proposal.proposal_param.claim_amount;
        match self.pools.get(pool_id) {
            Some(p) => {
                if !p.is_active {
                    return Err(PoolError::PoolInactive);
                }
                if amt > p.tvl {
                    return Err(PoolError::InsufficientTvl);
                }
            },
            None => {
                return Err(PoolError::PoolNotFound);
            },
        }
        let mut pool = match self.pools.remove(pool_id) {
            Some(p) => p,
            None => {
                return Err(PoolError::PoolNotFound);
            },
        };
        pool.tcp = pool.tcp + amt;
        pool.tvl = pool.tvl - amt;
        self.pools.insert(pool_id, pool);
        self.settlements.insert(proposal.id,
            Settlement {
                claimant: caller,
                pool_id,
                claim_amount: amt,
                step: SettlementStep::Debited,
            });
        Ok(())
    }

    /// The settlement of `proposal_id`, if one is under way.
    pub fn settlement_status(&self, proposal_id: u64) -> (r: Option<Settlement>)
        requires
            self.wf(),
        ensures
            match r {
                Some(s) => self.settlements@.contains_key(proposal_id) && s
                    == self.settlements@[proposal_id],
                None => !self.settlements@.contains_key(proposal_id),
            },
    {
        match self.settlements.get(proposal_id) {
            Some(s) => Some(*s),
            None => None,
        }
    }

    /// Records that every cover of the debited pool has had its headroom
    /// recomputed: the settlement advances from its first step.
    pub fn settle_covers_updated(&mut self, proposal_id: u64) -> (r: Result<(), PoolError>)
        requires
            old(self).wf(),
        ensures
            final(self).wf(),
            settle_step_post(*old(self), *final(self), proposal_id, r,
                SettlementStep::Debited, SettlementStep::CoversUpdated),
    {
        self.settle_advance(proposal_id, SettlementStep::Debited,
            SettlementStep::CoversUpdated)
    }

    /// Records that the governance service has marked the proposal
    /// claimed: the settlement advances to its last step before the mint.
    pub fn settle_marked(&mut self, proposal_id: u64) -> (r: Result<(), PoolError>)
        requires
            old(self).wf(),
        ensures
            final(self).wf(),
            settle_step_post(*old(self), *final(self), proposal_id, r,
                SettlementStep::CoversUpdated, SettlementStep::Marked),
    {
        self.settle_advance(proposal_id, SettlementStep::CoversUpdated,
            SettlementStep::Marked)
    }

    fn settle_advance(&mut self, proposal_id: u64, from: SettlementStep, to: SettlementStep) -> (
        r: Result<(), PoolError>)
        requires
            old(self).wf(),
        ensures
            final(self).wf(),
            settle_step_post(*old(self), *final(self), proposal_id, r, from, to),
    {
        let s = match self.settlements.get(proposal_id) {
            Some(s) => *s,
            None => {
                return Err(PoolError::SettlementMissing);
            },
        };
        if s.step != from {
            return Err(PoolError::SettlementOutOfOrder);
        }
        self.settlements.insert(proposal_id, Settlement { step: to, ..s });
        Ok(())
    }

    /// Closes a settlement once the payout mint is confirmed: the record
    /// is dropped, and the amount that was settled is reported back.
    pub fn settle_finish(&mut self, proposal_id: u64) -> (r: Result<Amount, PoolError>)
        requires
            old(self).wf(),
        ensures
            final(self).wf(),
            match r {
                Ok(amt) => {
                    &&& old(self).settlements@.contains_key(proposal_id)
                    &&& old(self).settlements@[proposal_id].step == SettlementStep::Marked
                    &&& amt == old(self).settlements@[proposal_id].claim_amount
                    &&& final(self).settlements@ == old(self).settlements@.remove(proposal_id)
                    &&& final(self).pools@ == old(self).pools@
                    &&& final(self).pools.entries@ == old(self).pools.entries@
                    &&& final(self).pool_count == old(self).pool_count
                    &&& final(self).owner == old(self).owner
                    &&& final(self).asset_address == old(self).asset_address
                    &&& final(self).cover_address == old(self).cover_address
                    &&& final(self).gov_address == old(self).gov_address
                    &&& final(self).roster.participants@ == old(self).roster.participants@
                    &&& final(self).roster.participation@ == old(self).roster.participation@
                    &&& final(self).pool_covers@ == old(self).pool_covers@
                },
                Err(e) => {
                    &&& *final(self) == *old(self)
                    &&& match e {
                        PoolError::SettlementMissing => !old(self).settlements@.contains_key(
                            proposal_id),
                        PoolError::SettlementOutOfOrder => old(self).settlements@.contains_key(
                            proposal_id) && old(self).settlements@[proposal_id].step
                            != SettlementStep::Marked,
                        _ => false,
                    }
                },
            },
    {
        let s = match self.settlements.get(proposal_id) {
            Some(s) => *s,
            None => {
                return Err(PoolError::SettlementMissing);
            },
        };
        if s.step != SettlementStep::Marked {
            return Err(PoolError::SettlementOutOfOrder);
        }
        self.settlements.remove(proposal_id);
        Ok(s.claim_amount)
    }
}

/// What one settlement step transition promises: the record moves from
/// `from` to `to` and everything else stands still, or the call is
/// refused with the record as it was.
pub open spec fn settle_step_post(
    pre: PoolState,
    post: PoolState,
    proposal_id: u64,
    r: Result<(), PoolError>,
    from: SettlementStep,
    to: SettlementStep,
) -> bool {
    match r {
        Ok(()) => {
            &&& pre.settlements@.contains_key(proposal_id)
            &&& pre.settlements@[proposal_id].step == from
            &&& post.settlements@ == pre.settlements@.insert(proposal_id,
                Settlement { step: to, ..pre.settlements@[proposal_id] })
            &&& post.pools@ == pre.pools@
            &&& post.pools.entries@ == pre.pools.entries@
            &&& post.pool_count == pre.pool_count
            &&& post.owner == pre.owner
            &&& post.asset_address == pre.asset_address
            &&& post.cover_address == pre.cover_address
            &&& post.gov_address == pre.gov_address
            &&& post.roster.participants@ == pre.roster.participants@
            &&& post.roster.participation@ == pre.roster.participation@
            &&& post.pool_covers@ == pre.pool_covers@
        },
        Err(e) => {
            &&& post == pre
            &&& match e {
                PoolError::SettlementMissing => !pre.settlements@.contains_key(proposal_id),
                PoolError::SettlementOutOfOrder => pre.settlements@.contains_key(proposal_id)
                    && pre.settlements@[proposal_id].step != from,
                _ => false,
            }
        },
    }
}

} // verus!
