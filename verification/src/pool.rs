//! The pool service: liquidity deposits, the value they lock, the
//! capacity budget that covers draw against, and the debit side of claim
//! settlement.

use crate::cover::{same_cover, Cover};
use crate::roster::{counted_once_more, Roster};
use crate::table::{has_key, key_index, Table};
use crate::types::{account_is, AccountId, Amount, RiskType, Status, Time, SECONDS_PER_DAY};
use vstd::prelude::*;

verus! {

/// One liquidity provider's locked position in a pool.
#[derive(Clone, Copy, PartialEq, Eq, Structural, Debug)]
pub struct Deposit {
    pub lp: AccountId,
    pub amount: Amount,
    pub pool_id: u64,
    /// The payout one day of this deposit earns, snapshotted at deposit
    /// time from the pool's rate.
    pub daily_payout: Amount,
    pub status: Status,
    pub days_left: u64,
    pub start_date: Time,
    pub expiry_date: Time,
    pub accrued_payout: Amount,
    /// Amount reserved by a payout in flight; zero when none is.  Guards
    /// the window between the local decision and the confirmed external
    /// transfer against a second conflicting operation.
    pub pending_withdraw: Amount,
}

/// What a deposit still asks of the pool's books: its amount while it is
/// active, nothing once withdrawn.
pub open spec fn deposit_backing(d: Deposit) -> int {
    if d.status == Status::Active {
        d.amount as int
    } else {
        0
    }
}

/// The backing all deposits of `s` together ask for.
pub open spec fn sum_backing(s: Seq<(u64, Deposit)>) -> int
    decreases s.len(),
{
    if s.len() == 0 {
        0
    } else {
        sum_backing(s.drop_last()) + deposit_backing(s.last().1)
    }
}

pub proof fn lemma_sum_backing_nonneg(s: Seq<(u64, Deposit)>)
    ensures
        sum_backing(s) >= 0,
    decreases s.len(),
{
    if s.len() > 0 {
        lemma_sum_backing_nonneg(s.drop_last());
    }
}

pub proof fn lemma_sum_backing_push(s: Seq<(u64, Deposit)>, e: (u64, Deposit))
    ensures
        sum_backing(s.push(e)) == sum_backing(s) + deposit_backing(e.1),
{
    assert(s.push(e).drop_last() =~= s);
    assert(s.push(e).last() == e);
}

pub proof fn lemma_sum_backing_update(s: Seq<(u64, Deposit)>, i: int, e: (u64, Deposit))
    requires
        0 <= i < s.len(),
    ensures
        sum_backing(s.update(i, e)) == sum_backing(s) - deposit_backing(s[i].1)
            + deposit_backing(e.1),
    decreases s.len(),
{
    let t = s.update(i, e);
    if i == s.len() - 1 {
        assert(t.drop_last() =~= s.drop_last());
        assert(t.last() == e);
    } else {
        assert(t.drop_last() =~= s.drop_last().update(i, e));
        assert(t.last() == s.last());
        lemma_sum_backing_update(s.drop_last(), i, e);
    }
}

/// A pool of deposits backing one risk category.
pub struct Pool {
    pub pool_name: String,
    pub risk_type: RiskType,
    /// Yearly yield, in percent.
    pub apy: Amount,
    /// Minimum lock period, in days.
    pub min_period: u64,
    /// Total value locked: backs the active deposits and the covers.
    pub tvl: Amount,
    /// Total claims paid out of this pool.
    pub tcp: Amount,
    pub is_active: bool,
    /// The fraction of the pool's value not yet committed to sold cover
    /// capacity, in percent.
    pub percentage_split_balance: u64,
    pub deposits: Table<Deposit>,
}

impl Pool {
    /// The pool's books are sound: the capacity budget is a percentage,
    /// value locked plus claims paid covers the active deposits, and no
    /// payout in flight reserves more than its deposit holds.
    pub open spec fn wf(self) -> bool {
        &&& self.deposits.wf()
        &&& self.percentage_split_balance <= 100
        &&& self.tvl + self.tcp >= sum_backing(self.deposits.entries@)
        &&& forall|k: u64|
            self.deposits@.contains_key(k) ==> (#[trigger] self.deposits@[k]).pending_withdraw
                <= self.deposits@[k].amount
    }
}

/// Value locked plus claims paid always covers the active deposits; while
/// no claim has been paid, the locked value alone does.
pub proof fn lemma_tvl_covers_deposits(p: Pool)
    requires
        p.wf(),
    ensures
        p.tvl + p.tcp >= sum_backing(p.deposits.entries@),
        p.tcp == 0 ==> p.tvl >= sum_backing(p.deposits.entries@),
{
}

/// The capacity budget is a percentage: never negative, never above 100.
pub proof fn lemma_split_in_range(p: Pool)
    requires
        p.wf(),
    ensures
        0 <= p.percentage_split_balance <= 100,
{
}

/// Field-for-field agreement, with the name compared by content.
pub open spec fn same_pool(a: Pool, b: Pool) -> bool {
    &&& a.pool_name@ == b.pool_name@
    &&& a.risk_type == b.risk_type
    &&& a.apy == b.apy
    &&& a.min_period == b.min_period
    &&& a.tvl == b.tvl
    &&& a.tcp == b.tcp
    &&& a.is_active == b.is_active
    &&& a.percentage_split_balance == b.percentage_split_balance
    &&& a.deposits.entries@ == b.deposits.entries@
}

impl Clone for Pool {
    fn clone(&self) -> (r: Self)
        ensures
            same_pool(r, *self),
    {
        Pool {
            pool_name: self.pool_name.clone(),
            risk_type: self.risk_type,
            apy: self.apy,
            min_period: self.min_period,
            tvl: self.tvl,
            tcp: self.tcp,
            is_active: self.is_active,
            percentage_split_balance: self.percentage_split_balance,
            deposits: self.deposits.duplicate(),
        }
    }
}

/// True when some cover in `cs` carries the id `id`.
pub open spec fn has_cover_id(cs: Seq<Cover>, id: u64) -> bool {
    exists|i: int| 0 <= i < cs.len() && (#[trigger] cs[i]).id == id
}

/// The first position in `cs` carrying `id`.
pub open spec fn first_cover_index(cs: Seq<Cover>, id: u64) -> int {
    choose|i: int|
        0 <= i < cs.len() && (#[trigger] cs[i]).id == id && (forall|j: int|
            0 <= j < i ==> (#[trigger] cs[j]).id != id)
}

/// A position whose predecessors all carry other ids is the first.
pub proof fn lemma_first_cover_index(cs: Seq<Cover>, id: u64, i: int)
    requires
        0 <= i < cs.len(),
        cs[i].id == id,
        forall|j: int| 0 <= j < i ==> (#[trigger] cs[j]).id != id,
    ensures
        has_cover_id(cs, id),
        first_cover_index(cs, id) == i,
{
    assert(has_cover_id(cs, id));
    let i2 = first_cover_index(cs, id);
    if i < i2 {
        assert(cs[i].id != id);
    } else if i2 < i {
        assert(cs[i2].id != id);
    }
}

/// One user's stake in one pool, as reported to that user.
pub struct PoolInfo {
    pub pool_name: String,
    pub pool_id: u64,
    pub daily_payout: Amount,
    pub deposit_amount: Amount,
    pub apy: Amount,
    pub min_period: u64,
    pub tvl: Amount,
    pub tcp: Amount,
    pub is_active: bool,
    pub accrued_payout: Amount,
}

/// The report `get_pools_by_address` owes `user` for the pool `p` under
/// number `pid`: the user's stake there, under the pool's terms.
pub open spec fn matches_pool_info(info: PoolInfo, pid: u64, p: Pool, user: AccountId) -> bool {
    &&& p.deposits@.contains_key(user)
    &&& info.pool_name@ == p.pool_name@
    &&& info.pool_id == pid
    &&& info.daily_payout == p.deposits@[user].daily_payout
    &&& info.deposit_amount == p.deposits@[user].amount
    &&& info.apy == p.apy
    &&& info.min_period == p.min_period
    &&& info.tvl == p.tvl
    &&& info.tcp == p.tcp
    &&& info.is_active == p.is_active
    &&& info.accrued_payout == p.deposits@[user].accrued_payout
}

/// `info` reports some pool of `s` that `user` holds a deposit in.
pub open spec fn reported_for(info: PoolInfo, s: PoolState, user: AccountId) -> bool {
    exists|i: int|
        0 <= i < s.pools.entries@.len() && matches_pool_info(info,
            (#[trigger] s.pools.entries@[i]).0, s.pools.entries@[i].1, user)
}

/// Some entry of `r` reports the pool `p` under number `pid` for `user`.
pub open spec fn reported_in(r: Seq<PoolInfo>, pid: u64, p: Pool, user: AccountId) -> bool {
    exists|j: int| 0 <= j < r.len() && matches_pool_info(#[trigger] r[j], pid, p, user)
}

/// A report stays in the sequence when more are appended.
pub proof fn lemma_reported_in_push(
    r: Seq<PoolInfo>,
    e: PoolInfo,
    pid: u64,
    p: Pool,
    user: AccountId,
)
    requires
        reported_in(r, pid, p, user),
    ensures
        reported_in(r.push(e), pid, p, user),
{
    let j = choose|j: int| 0 <= j < r.len() && matches_pool_info(#[trigger] r[j], pid, p, user);
    assert(r.push(e)[j] == r[j]);
    assert(matches_pool_info(r.push(e)[j], pid, p, user));
}

/// What can go wrong in the pool service.
#[derive(Clone, Copy, PartialEq, Eq, Structural, Debug)]
pub enum PoolError {
    /// The caller is not the owner.
    NotOwner,
    /// The caller is not the cover service.
    NotCoverContract,
    PoolNotFound,
    PoolInactive,
    /// No such cover in the pool's cover list.
    CoverNotFound,
    /// The caller holds no deposit in this pool.
    NoDeposit,
    /// The deposit's lock period has not ended.
    DepositNotExpired,
    /// The deposit was already withdrawn.
    AlreadyWithdrawn,
    /// Nothing is left in the deposit.
    DepositEmpty,
    /// More than the deposit holds.
    AmountExceedsDeposit,
    /// A withdraw of nothing.
    ZeroAmount,
    /// A payout for this deposit is already in flight.
    WithdrawInProgress,
    /// No payout is in flight for this deposit.
    NoWithdrawPending,
    /// The pool's locked value cannot cover the amount.
    InsufficientTvl,
    /// Reducing the capacity budget below zero: an accounting fault.
    SplitExceedsBalance,
    /// Raising the capacity budget above 100: an accounting fault.
    SplitExceedsLimit,
    /// The proposal is not approved, or was already executed.
    ProposalNotApproved,
    /// The caller is not the proposal's claimant.
    NotClaimant,
    /// A settlement of this proposal is already under way.
    SettlementInProgress,
    /// No settlement of this proposal is under way.
    SettlementMissing,
    /// The settlement is not at the step this call advances.
    SettlementOutOfOrder,
    /// This user never took part.
    NoParticipation,
}

/// How far a claim settlement has come: the pool debit is committed
/// first, then the covers' headroom is recomputed, then the proposal is
/// marked claimed; the payout mint comes last, after which the record is
/// dropped.
#[derive(Clone, Copy, PartialEq, Eq, Structural, Debug)]
pub enum SettlementStep {
    Debited,
    CoversUpdated,
    Marked,
}

/// The durable record of a claim settlement in progress, so that a retry
/// resumes after the last completed step instead of re-running from the
/// start.
#[derive(Clone, Copy, PartialEq, Eq, Structural, Debug)]
pub struct Settlement {
    pub claimant: AccountId,
    pub pool_id: u64,
    pub claim_amount: Amount,
    pub step: SettlementStep,
}

/// The pool service's state.
pub struct PoolState {
    pub pools: Table<Pool>,
    pub pool_count: u64,
    pub owner: Option<AccountId>,
    /// The asset ledger the deposits move through.
    pub asset_address: Option<AccountId>,
    pub cover_address: Option<AccountId>,
    pub gov_address: Option<AccountId>,
    pub roster: Roster,
    /// The covers drawing on each pool, as the cover service reports them.
    pub pool_covers: Table<Vec<Cover>>,
    /// Claim settlements in progress, keyed by proposal.
    pub settlements: Table<Settlement>,
}

impl PoolState {
    pub open spec fn wf(self) -> bool {
        &&& self.pools.wf()
        &&& forall|k: u64| self.pools@.contains_key(k) ==> (#[trigger] self.pools@[k]).wf()
        &&& self.roster.wf()
        &&& self.pool_covers.wf()
        &&& self.settlements.wf()
    }

    /// Everything but the pool table and its counter agrees.
    pub open spec fn same_but_pools(self, o: PoolState) -> bool {
        &&& self.owner == o.owner
        &&& self.asset_address == o.asset_address
        &&& self.cover_address == o.cover_address
        &&& self.gov_address == o.gov_address
        &&& self.roster.participants@ == o.roster.participants@
        &&& self.roster.participation@ == o.roster.participation@
        &&& self.pool_covers@ == o.pool_covers@
        &&& self.settlements@ == o.settlements@
    }

    /// A fresh service: no pools, the owner and the asset ledger wired in.
    pub fn new(owner: AccountId, asset: AccountId) -> (s: Self)
        ensures
            s.wf(),
            s.pools@ == Map::<u64, Pool>::empty(),
            s.pool_count == 0,
            s.owner == Some(owner),
            s.asset_address == Some(asset),
            s.cover_address == None::<AccountId>,
            s.gov_address == None::<AccountId>,
            s.roster.participants@ == Seq::<AccountId>::empty(),
            s.roster.participation@ == Map::<u64, Amount>::empty(),
            s.pool_covers@ == Map::<u64, Vec<Cover>>::empty(),
            s.settlements@ == Map::<u64, Settlement>::empty(),
    {
        PoolState {
            pools: Table::new(),
            pool_count: 0,
            owner: Some(owner),
            asset_address: Some(asset),
            cover_address: None,
            gov_address: None,
            roster: Roster::new(),
            pool_covers: Table::new(),
            settlements: Table::new(),
        }
    }

    /// Owner-gated: registers a fresh, active, empty pool under the next
    /// pool number, with its full capacity budget.
    pub fn create_pool(
        &mut self,
        caller: AccountId,
        risk_type: RiskType,
        pool_name: String,
        apy: Amount,
        min_period: u64,
    ) -> (r: Result<(), PoolError>)
        requires
            old(self).wf(),
            old(self).pool_count < u64::MAX,
        ensures
            final(self).wf(),
            match r {
                Ok(()) => {
                    &&& old(self).owner == Some(caller)
                    &&& final(self).pool_count == old(self).pool_count + 1
                    &&& final(self).pools@ == old(self).pools@.insert(
                        (old(self).pool_count + 1) as u64,
                        final(self).pools@[(old(self).pool_count + 1) as u64],
                    )
                    &&& {
                        let p = final(self).pools@[(old(self).pool_count + 1) as u64];
                        &&& p.pool_name@ == pool_name@
                        &&& p.risk_type == risk_type
                        &&& p.apy == apy
                        &&& p.min_period == min_period
                        &&& p.tvl == 0
                        &&& p.tcp == 0
                        &&& p.is_active
                        &&& p.percentage_split_balance == 100
                        &&& p.deposits@ == Map::<u64, Deposit>::empty()
                    }
                    &&& final(self).same_but_pools(*old(self))
                },
                Err(e) => {
                    &&& *final(self) == *old(self)
                    &&& e == PoolError::NotOwner
                    &&& old(self).owner != Some(caller)
                },
            },
    {
        if !account_is(&self.owner, caller) {
            return Err(PoolError::NotOwner);
        }
        let pool_id = self.pool_count + 1;
        let new_pool = Pool {
            pool_name,
            risk_type,
            apy,
            min_period,
            tvl: 0,
            tcp: 0,
            is_active: true,
            percentage_split_balance: 100,
            deposits: Table::new(),
        };
        self.pools.insert(pool_id, new_pool);
        self.pool_count = pool_id;
        Ok(())
    }

    /// Owner-gated: changes a pool's rate and lock period.
    pub fn update_pool(
        &mut self,
        caller: AccountId,
        pool_id: u64,
        apy: Amount,
        min_period: u64,
    ) -> (r: Result<(), PoolError>)
        requires
            old(self).wf(),
        ensures
            final(self).wf(),
            match r {
                Ok(()) => {
                    &&& old(self).owner == Some(caller)
                    &&& old(self).pools@.contains_key(pool_id)
                    &&& final(self).pools@ == old(self).pools@.insert(pool_id,
                        Pool { apy, min_period, ..old(self).pools@[pool_id] })
                    &&& final(self).pool_count == old(self).pool_count
                    &&& final(self).same_but_pools(*old(self))
                },
                Err(e) => {
                    &&& *final(self) == *old(self)
                    &&& match e {
                        PoolError::NotOwner => old(self).owner != Some(caller),
                        PoolError::PoolNotFound => old(self).owner == Some(caller) && !old(
                            self).pools@.contains_key(pool_id),
                        _ => false,
                    }
                },
            },
    {
        if !account_is(&self.owner, caller) {
            return Err(PoolError::NotOwner);
        }
        let mut pool = match self.pools.remove(pool_id) {
            Some(p) => p,
            None => {
                return Err(PoolError::PoolNotFound);
            },
        };
        pool.apy = apy;
        pool.min_period = min_period;
        self.pools.insert(pool_id, pool);
        proof {
            assert(final(self).pools@ =~= old(self).pools@.insert(pool_id,
                Pool { apy, min_period, ..old(self).pools@[pool_id] }));
        }
        Ok(())
    }

    /// Cover-service-gated: commits part of the capacity budget.  Asking
    /// for more than the budget holds is an accounting fault upstream and
    /// is fatal at the boundary, not a recoverable error.
    pub fn reduce_percentage_split(&mut self, caller: AccountId, pool_id: u64, pct: u64) -> (r:
        Result<(), PoolError>)
        requires
            old(self).wf(),
        ensures
            final(self).wf(),
            match r {
                Ok(()) => {
                    &&& old(self).cover_address == Some(caller)
                    &&& old(self).pools@.contains_key(pool_id)
                    &&& pct <= old(self).pools@[pool_id].percentage_split_balance
                    &&& final(self).pools@ == old(self).pools@.insert(pool_id,
                        Pool {
                            percentage_split_balance: (old(
                                self).pools@[pool_id].percentage_split_balance - pct) as u64,
                            ..old(self).pools@[pool_id]
                        })
                    &&& final(self).pool_count == old(self).pool_count
                    &&& final(self).same_but_pools(*old(self))
                },
                Err(e) => {
                    &&& *final(self) == *old(self)
                    &&& match e {
                        PoolError::NotCoverContract => old(self).cover_address != Some(caller),
                        PoolError::PoolNotFound => old(self).cover_address == Some(caller)
                            && !old(self).pools@.contains_key(pool_id),
                        PoolError::SplitExceedsBalance => old(self).cover_address == Some(
                            caller) && old(self).pools@.contains_key(pool_id) && pct > old(
                            self).pools@[pool_id].percentage_split_balance,
                        _ => false,
                    }
                },
            },
    {
        if !account_is(&self.cover_address, caller) {
            return Err(PoolError::NotCoverContract);
        }
        let balance = match self.pools.get(pool_id) {
            Some(p) => p.percentage_split_balance,
            None => {
                return Err(PoolError::PoolNotFound);
            },
        };
        if pct > balance {
            return Err(PoolError::SplitExceedsBalance);
        }
        let mut pool = match self.pools.remove(pool_id) {
            Some(p) => p,
            None => {
                return Err(PoolError::PoolNotFound);
            },
        };
        pool.percentage_split_balance = pool.percentage_split_balance - pct;
        self.pools.insert(pool_id, pool);
        proof {
            assert(final(self).pools@ =~= old(self).pools@.insert(pool_id,
                Pool {
                    percentage_split_balance: (old(
                        self).pools@[pool_id].percentage_split_balance - pct) as u64,
                    ..old(self).pools@[pool_id]
                }));
        }
        Ok(())
    }

    /// Cover-service-gated: releases part of the capacity budget.
    /// Raising the budget past 100 percent would break the percentage
    /// bound and is equally an accounting fault, fatal at the boundary.
    pub fn increase_percentage_split(&mut self, caller: AccountId, pool_id: u64, pct: u64) -> (
        r: Result<(), PoolError>)
        requires
            old(self).wf(),
        ensures
            final(self).wf(),
            match r {
                Ok(()) => {
                    &&& old(self).cover_address == Some(caller)
                    &&& old(self).pools@.contains_key(pool_id)
                    &&& old(self).pools@[pool_id].percentage_split_balance + pct <= 100
                    &&& final(self).pools@ == old(self).pools@.insert(pool_id,
                        Pool {
                            percentage_split_balance: (old(
                                self).pools@[pool_id].percentage_split_balance + pct) as u64,
                            ..old(self).pools@[pool_id]
                        })
                    &&& final(self).pool_count == old(self).pool_count
                    &&& final(self).same_but_pools(*old(self))
                },
                Err(e) => {
                    &&& *final(self) == *old(self)
                    &&& match e {
                        PoolError::NotCoverContract => old(self).cover_address != Some(caller),
                        PoolError::PoolNotFound => old(self).cover_address == Some(caller)
                            && !old(self).pools@.contains_key(pool_id),
                        PoolError::SplitExceedsLimit => old(self).cover_address == Some(caller)
                            && old(self).pools@.contains_key(pool_id) && old(
                            self).pools@[pool_id].percentage_split_balance + pct > 100,
                        _ => false,
                    }
                },
            },
    {
        if !account_is(&self.cover_address, caller) {
            return Err(PoolError::NotCoverContract);
        }
        let balance = match self.pools.get(pool_id) {
            Some(p) => p.percentage_split_balance,
            None => {
                return Err(PoolError::PoolNotFound);
            },
        };
        if pct > 100 - balance {
            return Err(PoolError::SplitExceedsLimit);
        }
        let mut pool = match self.pools.remove(pool_id) {
            Some(p) => p,
            None => {
                return Err(PoolError::PoolNotFound);
            },
        };
        pool.percentage_split_balance = pool.percentage_split_balance + pct;
        self.pools.insert(pool_id, pool);
        proof {
            assert(final(self).pools@ =~= old(self).pools@.insert(pool_id,
                Pool {
                    percentage_split_balance: (old(
                        self).pools@[pool_id].percentage_split_balance + pct) as u64,
                    ..old(self).pools@[pool_id]
                }));
        }
        Ok(())
    }

    /// Owner-gated: takes a pool out of service.
    pub fn deactivate_pool(&mut self, caller: AccountId, pool_id: u64) -> (r: Result<(),
        PoolError>)
        requires
            old(self).wf(),
        ensures
            final(self).wf(),
            match r {
                Ok(()) => {
                    &&& old(self).owner == Some(caller)
                    &&& old(self).pools@.contains_key(pool_id)
                    &&& final(self).pools@ == old(self).pools@.insert(pool_id,
                        Pool { is_active: false, ..old(self).pools@[pool_id] })
                    &&& final(self).pool_count == old(self).pool_count
                    &&& final(self).same_but_pools(*old(self))
                },
                Err(e) => {
                    &&& *final(self) == *old(self)
                    &&& match e {
                        PoolError::NotOwner => old(self).owner != Some(caller),
                        PoolError::PoolNotFound => old(self).owner == Some(caller) && !old(
                            self).pools@.contains_key(pool_id),
                        _ => false,
                    }
                },
            },
    {
        if !account_is(&self.owner, caller) {
            return Err(PoolError::NotOwner);
        }
        let mut pool = match self.pools.remove(pool_id) {
            Some(p) => p,
            None => {
                return Err(PoolError::PoolNotFound);
            },
        };
        pool.is_active = false;
        self.pools.insert(pool_id, pool);
        proof {
            assert(final(self).pools@ =~= old(self).pools@.insert(pool_id,
                Pool { is_active: false, ..old(self).pools@[pool_id] }));
        }
        Ok(())
    }

    pub fn get_pool(&self, pool_id: u64) -> (r: Option<&Pool>)
        requires
            self.wf(),
        ensures
            match r {
                Some(p) => self.pools@.contains_key(pool_id) && *p == self.pools@[pool_id],
                None => !self.pools@.contains_key(pool_id),
            },
    {
        self.pools.get(pool_id)
    }

    /// Every pool with its number, in table order.
    pub fn get_all_pools(&self) -> (r: Vec<(u64, Pool)>)
        ensures
            r@.len() == self.pools.spec_len(),
            forall|i: int|
                0 <= i < r@.len() ==> (#[trigger] r@[i]).0 == self.pools.entries@[i].0
                    && same_pool(r@[i].1, self.pools.entries@[i].1),
    {
        let n = self.pools.len();
        let mut r: Vec<(u64, Pool)> = Vec::new();
        let mut i: usize = 0;
        while i < n
            invariant
                i <= n,
                n == self.pools.spec_len(),
                r@.len() == i,
                forall|j: int|
                    0 <= j < i ==> (#[trigger] r@[j]).0 == self.pools.entries@[j].0
                        && same_pool(r@[j].1, self.pools.entries@[j].1),
            decreases n - i,
        {
            let e = self.pools.entry_at(i);
            r.push((e.0, e.1.clone()));
            i += 1;
        }
        r
    }

    pub fn get_pool_tvl(&self, pool_id: u64) -> (r: Result<Amount, PoolError>)
        requires
            self.wf(),
        ensures
            match r {
                Ok(tvl) => self.pools@.contains_key(pool_id) && tvl == self.pools@[pool_id].tvl,
                Err(e) => e == PoolError::PoolNotFound && !self.pools@.contains_key(pool_id),
            },
    {
        match self.pools.get(pool_id) {
            Some(p) => Ok(p.tvl),
            None => Err(PoolError::PoolNotFound),
        }
    }

    pub fn pool_active(&self, pool_id: u64) -> (r: Result<bool, PoolError>)
        requires
            self.wf(),
        ensures
            match r {
                Ok(a) => self.pools@.contains_key(pool_id) && a == self.pools@[
                    pool_id].is_active,
                Err(e) => e == PoolError::PoolNotFound && !self.pools@.contains_key(pool_id),
            },
    {
        match self.pools.get(pool_id) {
            Some(p) => Ok(p.is_active),
            None => Err(PoolError::PoolNotFound),
        }
    }

    pub fn get_user_deposit(&self, pool_id: u64, user: AccountId) -> (r: Option<Deposit>)
        requires
            self.wf(),
        ensures
            match r {
                Some(d) => self.pools@.contains_key(pool_id) && self.pools@[
                    pool_id].deposits@.contains_key(user) && d == self.pools@[
                    pool_id].deposits@[user],
                None => !self.pools@.contains_key(pool_id) || !self.pools@[
                    pool_id].deposits@.contains_key(user),
            },
    {
        match self.pools.get(pool_id) {
            Some(p) => match p.deposits.get(user) {
                Some(d) => Some(*d),
                None => None,
            },
            None => None,
        }
    }

    pub fn get_all_participants(&self) -> (r: Result<Vec<AccountId>, PoolError>)
        ensures
            match r {
                Ok(v) => v@ == self.roster.participants@,
                Err(_) => false,
            },
    {
        Ok(self.roster.all())
    }

    pub fn get_user_participation(&self, user: AccountId) -> (r: Result<Amount, PoolError>)
        requires
            self.wf(),
        ensures
            match r {
                Ok(n) => self.roster.participation@.contains_key(user) && n
                    == self.roster.participation@[user],
                Err(e) => e == PoolError::NoParticipation
                    && !self.roster.participation@.contains_key(user),
            },
    {
        match self.roster.of(user) {
            Some(n) => Ok(n),
            None => Err(PoolError::NoParticipation),
        }
    }

    pub fn get_owner(&self) -> (r: Option<AccountId>)
        ensures
            r == self.owner,
    {
        self.owner
    }

    /// Owner-gated; a wrong caller is a misconfiguration, fatal at the
    /// boundary.  Rewires the peer services and the asset ledger.
    pub fn update_canister_ids(
        &mut self,
        caller: AccountId,
        cover: AccountId,
        gov: AccountId,
        asset: AccountId,
    ) -> (r: Result<(), PoolError>)
        requires
            old(self).wf(),
        ensures
            final(self).wf(),
            match r {
                Ok(()) => {
                    &&& old(self).owner == Some(caller)
                    &&& final(self).cover_address == Some(cover)
                    &&& final(self).gov_address == Some(gov)
                    &&& final(self).asset_address == Some(asset)
                    &&& final(self).owner == old(self).owner
                    &&& final(self).pools@ == old(self).pools@
                    &&& final(self).pools.entries@ == old(self).pools.entries@
                    &&& final(self).pool_count == old(self).pool_count
                    &&& final(self).roster.participants@ == old(self).roster.participants@
                    &&& final(self).roster.participation@ == old(self).roster.participation@
                    &&& final(self).pool_covers@ == old(self).pool_covers@
                    &&& final(self).settlements@ == old(self).settlements@
                },
                Err(e) => {
                    &&& *final(self) == *old(self)
                    &&& e == PoolError::NotOwner
                    &&& old(self).owner != Some(caller)
                },
            },
    {
        if !account_is(&self.owner, caller) {
            return Err(PoolError::NotOwner);
        }
        self.cover_address = Some(cover);
        self.gov_address = Some(gov);
        self.asset_address = Some(asset);
        Ok(())
    }

    pub fn get_canister_ids(&self) -> (r: (Option<AccountId>, Option<AccountId>, Option<
        AccountId>))
        ensures
            r == (self.gov_address, self.cover_address, self.asset_address),
    {
        (self.gov_address, self.cover_address, self.asset_address)
    }

    pub fn set_owner(&mut self, caller: AccountId, new_owner: AccountId) -> (r: Result<(),
        PoolError>)
        requires
            old(self).wf(),
        ensures
            final(self).wf(),
            match r {
                Ok(()) => {
                    &&& old(self).owner == Some(caller)
                    &&& *final(self) == PoolState { owner: Some(new_owner), ..*old(self) }
                },
                Err(e) => {
                    &&& *final(self) == *old(self)
                    &&& e == PoolError::NotOwner
                    &&& old(self).owner != Some(caller)
                },
            },
    {
        if !account_is(&self.owner, caller) {
            return Err(PoolError::NotOwner);
        }
        self.owner = Some(new_owner);
        Ok(())
    }

    /// First phase of a deposit: validates the pool and snapshots the
    /// terms (the daily payout at the pool's current rate, and the lock
    /// period).  Nothing is mutated until the transfer in is confirmed.
    pub fn deposit_prepare(&self, pool_id: u64, amount: Amount) -> (r: Result<(Amount, u64),
        PoolError>)
        requires
            self.wf(),
            self.pools@.contains_key(pool_id) ==> amount * self.pools@[pool_id].apy
                <= u128::MAX,
        ensures
            match r {
                Ok((dp, mp)) => {
                    &&& self.pools@.contains_key(pool_id)
                    &&& self.pools@[pool_id].is_active
                    &&& dp == amount * self.pools@[pool_id].apy / 100 / 365
                    &&& mp == self.pools@[pool_id].min_period
                },
                Err(e) => match e {
                    PoolError::PoolNotFound => !self.pools@.contains_key(pool_id),
                    PoolError::PoolInactive => self.pools@.contains_key(pool_id)
                        && !self.pools@[pool_id].is_active,
                    _ => false,
                },
            },
    {
        let pool = match self.pools.get(pool_id) {
            Some(p) => p,
            None => {
                return Err(PoolError::PoolNotFound);
            },
        };
        if !pool.is_active {
            return Err(PoolError::PoolInactive);
        }
        let dp = crate::math::daily_payout(amount, pool.apy);
        Ok((dp, pool.min_period))
    }

    /// Second phase of a deposit, after the transfer in is confirmed:
    /// commits the locked value and the position under the terms the
    /// first phase snapshotted, and records participation.  The pool is
    /// looked up again — it may have changed while the transfer was in
    /// flight — and an overwrite of a position with a payout in flight is
    /// refused.
    pub fn deposit_commit(
        &mut self,
        caller: AccountId,
        pool_id: u64,
        amount: Amount,
        daily_payout: Amount,
        min_period: u64,
        now: Time,
    ) -> (r: Result<(), PoolError>)
        requires
            old(self).wf(),
            old(self).pools@.contains_key(pool_id) ==> old(self).pools@[pool_id].tvl + amount
                <= u128::MAX,
            now + min_period * SECONDS_PER_DAY <= u64::MAX,
        ensures
            final(self).wf(),
            match r {
                Ok(()) => {
                    &&& old(self).pools@.contains_key(pool_id)
                    &&& (old(self).pools@[pool_id].deposits@.contains_key(caller) ==> old(
                        self).pools@[pool_id].deposits@[caller].pending_withdraw == 0)
                    &&& final(self).pools@ == old(self).pools@.insert(pool_id,
                        final(self).pools@[pool_id])
                    &&& {
                        let p0 = old(self).pools@[pool_id];
                        let p = final(self).pools@[pool_id];
                        &&& p.tvl == p0.tvl + amount
                        &&& p.deposits@ == p0.deposits@.insert(caller,
                            Deposit {
                                lp: caller,
                                amount,
                                pool_id,
                                daily_payout,
                                status: Status::Active,
                                days_left: min_period,
                                start_date: now,
                                expiry_date: (now + min_period * SECONDS_PER_DAY) as u64,
                                accrued_payout: 0,
                                pending_withdraw: 0,
                            })
                        &&& p.pool_name@ == p0.pool_name@
                        &&& p.risk_type == p0.risk_type
                        &&& p.apy == p0.apy
                        &&& p.min_period == p0.min_period
                        &&& p.tcp == p0.tcp
                        &&& p.is_active == p0.is_active
                        &&& p.percentage_split_balance == p0.percentage_split_balance
                    }
                    &&& final(self).roster.participants@ == if old(
                        self).roster.participants@.contains(caller) {
                        old(self).roster.participants@
                    } else {
                        old(self).roster.participants@.push(caller)
                    }
                    &&& final(self).roster.participation@ == old(
                        self).roster.participation@.insert(caller,
                        counted_once_more(old(self).roster.participation@, caller))
                    &&& final(self).pool_count == old(self).pool_count
                    &&& final(self).owner == old(self).owner
                    &&& final(self).asset_address == old(self).asset_address
                    &&& final(self).cover_address == old(self).cover_address
                    &&& final(self).gov_address == old(self).gov_address
                    &&& final(self).pool_covers@ == old(self).pool_covers@
                    &&& final(self).settlements@ == old(self).settlements@
                },
                Err(e) => {
                    &&& *final(self) == *old(self)
                    &&& match e {
                        PoolError::PoolNotFound => !old(self).pools@.contains_key(pool_id),
                        PoolError::WithdrawInProgress => old(self).pools@.contains_key(pool_id)
                            && old(self).pools@[pool_id].deposits@.contains_key(caller) && old(
                            self).pools@[pool_id].deposits@[caller].pending_withdraw != 0,
                        _ => false,
                    }
                },
            },
    {
        match self.pools.get(pool_id) {
            Some(p) => {
                match p.deposits.get(caller) {
                    Some(d) => {
                        if d.pending_withdraw != 0 {
                            return Err(PoolError::WithdrawInProgress);
                        }
                    },
                    None => {},
                }
            },
            None => {
                return Err(PoolError::PoolNotFound);
            },
        }
        let mut pool = match self.pools.remove(pool_id) {
            Some(p) => p,
            None => {
                return Err(PoolError::PoolNotFound);
            },
        };
        pool.tvl = pool.tvl + amount;
        let d = Deposit {
            lp: caller,
            amount,
            pool_id,
            daily_payout,
            status: Status::Active,
            days_left: min_period,
            start_date: now,
            expiry_date: now + min_period * SECONDS_PER_DAY,
            accrued_payout: 0,
            pending_withdraw: 0,
        };
        let ghost e0 = pool.deposits.entries@;
        proof {
            lemma_sum_backing_nonneg(e0);
        }
        pool.deposits.insert(caller, d);
        proof {
            if has_key(e0, caller) {
                let i = key_index(e0, caller);
                crate::table::lemma_key_index_is(e0, i);
                lemma_sum_backing_update(e0, i, (caller, d));
            } else {
                lemma_sum_backing_push(e0, (caller, d));
            }
        }
        self.pools.insert(pool_id, pool);
        self.roster.note(caller);
        Ok(())
    }

    /// Cover-service-gated: replaces the pool's record of an existing
    /// cover with the state the cover service reports.
    pub fn update_pool_covers(&mut self, caller: AccountId, pool_id: u64, new_cover: Cover) -> (
        r: Result<(), PoolError>)
        requires
            old(self).wf(),
        ensures
            final(self).wf(),
            match r {
                Ok(()) => {
                    &&& old(self).cover_address == Some(caller)
                    &&& old(self).pool_covers@.contains_key(pool_id)
                    &&& {
                        let cs = old(self).pool_covers@[pool_id]@;
                        &&& has_cover_id(cs, new_cover.id)
                        &&& final(self).pool_covers@ == old(self).pool_covers@.insert(pool_id,
                            final(self).pool_covers@[pool_id])
                        &&& final(self).pool_covers@[pool_id]@ == cs.update(
                            first_cover_index(cs, new_cover.id), new_cover)
                    }
                    &&& final(self).pools@ == old(self).pools@
                    &&& final(self).pool_count == old(self).pool_count
                    &&& final(self).owner == old(self).owner
                    &&& final(self).asset_address == old(self).asset_address
                    &&& final(self).cover_address == old(self).cover_address
                    &&& final(self).gov_address == old(self).gov_address
                    &&& final(self).roster.participants@ == old(self).roster.participants@
                    &&& final(self).roster.participation@ == old(self).roster.participation@
                    &&& final(self).settlements@ == old(self).settlements@
                },
                Err(e) => {
                    &&& *final(self) == *old(self)
                    &&& match e {
                        PoolError::NotCoverContract => old(self).cover_address != Some(caller),
                        PoolError::PoolNotFound => old(self).cover_address == Some(caller)
                            && !old(self).pool_covers@.contains_key(pool_id),
                        PoolError::CoverNotFound => old(self).cover_address == Some(caller)
                            && old(self).pool_covers@.contains_key(pool_id) && !has_cover_id(
                            old(self).pool_covers@[pool_id]@, new_cover.id),
                        _ => false,
                    }
                },
            },
    {
        if !account_is(&self.cover_address, caller) {
            return Err(PoolError::NotCoverContract);
        }
        let found = {
            let covers = match self.pool_covers.get(pool_id) {
                Some(cs) => cs,
                None => {
                    return Err(PoolError::PoolNotFound);
                },
            };
            let n = covers.len();
            let mut i: usize = 0;
            let mut found: Option<usize> = None;
            while i < n
                invariant
                    i <= n,
                    n == covers@.len(),
                    match found {
                        Some(f) => f < n && covers@[f as int].id == new_cover.id && (forall|
                            j: int|
                            0 <= j < f ==> (#[trigger] covers@[j]).id != new_cover.id),
                        None => forall|j: int|
                            0 <= j < i ==> (#[trigger] covers@[j]).id != new_cover.id,
                    },
                decreases n - i,
            {
                if found.is_none() && covers[i].id == new_cover.id {
                    found = Some(i);
                }
                i += 1;
            }
            found
        };
        match found {
            Some(i) => {
                proof {
                    lemma_first_cover_index(old(self).pool_covers@[pool_id]@, new_cover.id,
                        i as int);
                }
                let mut covers = match self.pool_covers.remove(pool_id) {
                    Some(cs) => cs,
                    None => {
                        return Err(PoolError::PoolNotFound);
                    },
                };
                covers[i] = new_cover;
                self.pool_covers.insert(pool_id, covers);
                proof {
                    assert(final(self).pool_covers@ =~= old(self).pool_covers@.insert(pool_id,
                        final(self).pool_covers@[pool_id]));
                }
                Ok(())
            },
            None => Err(PoolError::CoverNotFound),
        }
    }

    /// Cover-service-gated: appends a fresh cover to the pool's record.
    pub fn add_pool_covers(&mut self, caller: AccountId, pool_id: u64, new_cover: Cover) -> (r:
        Result<(), PoolError>)
        requires
            old(self).wf(),
        ensures
            final(self).wf(),
            match r {
                Ok(()) => {
                    &&& old(self).cover_address == Some(caller)
                    &&& old(self).pool_covers@.contains_key(pool_id)
                    &&& final(self).pool_covers@ == old(self).pool_covers@.insert(pool_id,
                        final(self).pool_covers@[pool_id])
                    &&& final(self).pool_covers@[pool_id]@ == old(
                        self).pool_covers@[pool_id]@.push(new_cover)
                    &&& final(self).pools@ == old(self).pools@
                    &&& final(self).pool_count == old(self).pool_count
                    &&& final(self).owner == old(self).owner
                    &&& final(self).asset_address == old(self).asset_address
                    &&& final(self).cover_address == old(self).cover_address
                    &&& final(self).gov_address == old(self).gov_address
                    &&& final(self).roster.participants@ == old(self).roster.participants@
                    &&& final(self).roster.participation@ == old(self).roster.participation@
                    &&& final(self).settlements@ == old(self).settlements@
                },
                Err(e) => {
                    &&& *final(self) == *old(self)
                    &&& match e {
                        PoolError::NotCoverContract => old(self).cover_address != Some(caller),
                        PoolError::PoolNotFound => old(self).cover_address == Some(caller)
                            && !old(self).pool_covers@.contains_key(pool_id),
                        _ => false,
                    }
                },
            },
    {
        if !account_is(&self.cover_address, caller) {
            return Err(PoolError::NotCoverContract);
        }
        let mut covers = match self.pool_covers.remove(pool_id) {
            Some(cs) => cs,
            None => {
                return Err(PoolError::PoolNotFound);
            },
        };
        covers.push(new_cover);
        self.pool_covers.insert(pool_id, covers);
        proof {
            assert(final(self).pool_covers@ =~= old(self).pool_covers@.insert(pool_id,
                final(self).pool_covers@[pool_id]));
        }
        Ok(())
    }

    /// The covers recorded for a pool; a pool with no record yet has
    /// none.
    pub fn get_pool_covers(&self, pool_id: u64) -> (r: Vec<Cover>)
        requires
            self.wf(),
        ensures
            self.pool_covers@.contains_key(pool_id) ==> {
                &&& r@.len() == self.pool_covers@[pool_id]@.len()
                &&& forall|i: int|
                    0 <= i < r@.len() ==> same_cover(#[trigger] r@[i],
                        self.pool_covers@[pool_id]@[i])
            },
            !self.pool_covers@.contains_key(pool_id) ==> r@ == Seq::<Cover>::empty(),
    {
        let covers = match self.pool_covers.get(pool_id) {
            Some(cs) => cs,
            None => {
                return Vec::new();
            },
        };
        let n = covers.len();
        let mut r: Vec<Cover> = Vec::new();
        let mut i: usize = 0;
        while i < n
            invariant
                i <= n,
                n == covers@.len(),
                r@.len() == i,
                forall|j: int| 0 <= j < i ==> same_cover(#[trigger] r@[j], covers@[j]),
            decreases n - i,
        {
            r.push(covers[i].clone());
            i += 1;
        }
        r
    }

    /// Every pool the user holds a deposit in, with the terms of that
    /// stake: each entry reports one such pool, and every such pool is
    /// reported.
    pub fn get_pools_by_address(&self, user: AccountId) -> (r: Vec<PoolInfo>)
        requires
            self.wf(),
        ensures
            forall|j: int| 0 <= j < r@.len() ==> reported_for(#[trigger] r@[j], *self, user),
            forall|i: int|
                0 <= i < self.pools.spec_len() && (#[trigger] self.pools.entries@[i]).1.deposits@.contains_key(
                    user) ==> reported_in(r@, self.pools.entries@[i].0,
                    self.pools.entries@[i].1, user),
    {
        let n = self.pools.len();
        let mut r: Vec<PoolInfo> = Vec::new();
        let mut i: usize = 0;
        while i < n
            invariant
                i <= n,
                n == self.pools.spec_len(),
                self.wf(),
                forall|j: int| 0 <= j < r@.len() ==> reported_for(#[trigger] r@[j], *self,
                    user),
                forall|i2: int|
                    0 <= i2 < i && (#[trigger] self.pools.entries@[i2]).1.deposits@.contains_key(
                        user) ==> reported_in(r@, self.pools.entries@[i2].0,
                        self.pools.entries@[i2].1, user),
            decreases n - i,
        {
            let e = self.pools.entry_at(i);
            proof {
                self.pools.lemma_entry_in_view(i as int);
            }
            let ghost r0 = r@;
            let ghost es = self.pools.entries@;
            match e.1.deposits.get(user) {
                Some(d) => {
                    let info = PoolInfo {
                        pool_name: e.1.pool_name.clone(),
                        pool_id: e.0,
                        daily_payout: d.daily_payout,
                        deposit_amount: d.amount,
                        apy: e.1.apy,
                        min_period: e.1.min_period,
                        tvl: e.1.tvl,
                        tcp: e.1.tcp,
                        is_active: e.1.is_active,
                        accrued_payout: d.accrued_payout,
                    };
                    r.push(info);
                    proof {
                        assert(matches_pool_info(r@[r0.len() as int], es[i as int].0, es[
                        i as int].1, user));
                        assert forall|j: int| 0 <= j < r@.len() implies reported_for(
                            #[trigger] r@[j], *self, user) by {
                            if j < r0.len() {
                                assert(r@[j] == r0[j]);
                            } else {
                                assert(matches_pool_info(r@[j], es[i as int].0, es[i as int].1,
                                    user));
                            }
                        }
                        assert forall|i2: int|
                            0 <= i2 < i + 1 && (#[trigger] es[i2]).1.deposits@.contains_key(
                                user) implies reported_in(r@, es[i2].0, es[i2].1, user) by {
                            if i2 == i {
                                assert(matches_pool_info(r@[r0.len() as int], es[i2].0, es[
                                i2].1, user));
                            } else {
                                lemma_reported_in_push(r0, info, es[i2].0, es[i2].1, user);
                            }
                        }
                    }
                },
                None => {},
            }
            i += 1;
        }
        r
    }

    /// First phase of a withdraw: validates the request and reserves the
    /// amount against the deposit, so that no second conflicting
    /// operation can slip in while the payout is in flight.  The books
    /// are not debited until the payout is confirmed.
    pub fn withdraw_begin(
        &mut self,
        caller: AccountId,
        pool_id: u64,
        amount: Amount,
        now: Time,
    ) -> (r: Result<Amount, PoolError>)
        requires
            old(self).wf(),
        ensures
            final(self).wf(),
            match r {
                Ok(a) => {
                    &&& a == amount
                    &&& old(self).pools@.contains_key(pool_id)
                    &&& {
                        let p0 = old(self).pools@[pool_id];
                        let d0 = p0.deposits@[caller];
                        &&& p0.is_active
                        &&& p0.deposits@.contains_key(caller)
                        &&& now >= d0.expiry_date
                        &&& d0.status != Status::Withdrawn
                        &&& d0.amount != 0
                        &&& amount != 0
                        &&& amount <= d0.amount
                        &&& d0.pending_withdraw == 0
                        &&& final(self).pools@ == old(self).pools@.insert(pool_id,
                            final(self).pools@[pool_id])
                        &&& {
                            let p = final(self).pools@[pool_id];
                            &&& p.deposits@ == p0.deposits@.insert(caller,
                                Deposit { pending_withdraw: amount, ..d0 })
                            &&& p.tvl == p0.tvl
                            &&& p.tcp == p0.tcp
                            &&& p.pool_name@ == p0.pool_name@
                            &&& p.risk_type == p0.risk_type
                            &&& p.apy == p0.apy
                            &&& p.min_period == p0.min_period
                            &&& p.is_active == p0.is_active
                            &&& p.percentage_split_balance == p0.percentage_split_balance
                        }
                    }
                    &&& final(self).pool_count == old(self).pool_count
                    &&& final(self).same_but_pools(*old(self))
                },
                Err(e) => {
                    &&& *final(self) == *old(self)
                    &&& {
                        let c = old(self).pools@.contains_key(pool_id);
                        let p0 = old(self).pools@[pool_id];
                        let cd = c && p0.deposits@.contains_key(caller);
                        let d0 = p0.deposits@[caller];
                        match e {
                            PoolError::PoolNotFound => !c,
                            PoolError::PoolInactive => c && !p0.is_active,
                            PoolError::NoDeposit => c && p0.is_active
                                && !p0.deposits@.contains_key(caller),
                            PoolError::DepositNotExpired => cd && p0.is_active && now
                                < d0.expiry_date,
                            PoolError::AlreadyWithdrawn => cd && p0.is_active && now
                                >= d0.expiry_date && d0.status == Status::Withdrawn,
                            PoolError::DepositEmpty => cd && p0.is_active && now
                                >= d0.expiry_date && d0.status != Status::Withdrawn
                                && d0.amount == 0,
                            PoolError::ZeroAmount => cd && p0.is_active && now
                                >= d0.expiry_date && d0.status != Status::Withdrawn
                                && d0.amount != 0 && amount == 0,
                            PoolError::AmountExceedsDeposit => cd && p0.is_active && now
                                >= d0.expiry_date && d0.status != Status::Withdrawn
                                && d0.amount != 0 && amount != 0 && amount > d0.amount,
                            PoolError::WithdrawInProgress => cd && p0.is_active && now
                                >= d0.expiry_date && d0.status != Status::Withdrawn
                                && d0.amount != 0 && amount != 0 && amount <= d0.amount
                                && d0.pending_withdraw != 0,
                            _ => false,
                        }
                    }
                },
            },
    {
        let d0 = match self.pools.get(pool_id) {
            Some(p) => {
                if !p.is_active {
                    return Err(PoolError::PoolInactive);
                }
                match p.deposits.get(caller) {
                    Some(d) => *d,
                    None => {
                        return Err(PoolError::NoDeposit);
                    },
                }
            },
            None => {
                return Err(PoolError::PoolNotFound);
            },
        };
        if now < d0.expiry_date {
            return Err(PoolError::DepositNotExpired);
        }
        if d0.status == Status::Withdrawn {
            return Err(PoolError::AlreadyWithdrawn);
        }
        if d0.amount == 0 {
            return Err(PoolError::DepositEmpty);
        }
        if amount == 0 {
            return Err(PoolError::ZeroAmount);
        }
        if amount > d0.amount {
            return Err(PoolError::AmountExceedsDeposit);
        }
        if d0.pending_withdraw != 0 {
            return Err(PoolError::WithdrawInProgress);
        }
        let mut pool = match self.pools.remove(pool_id) {
            Some(p) => p,
            None => {
                return Err(PoolError::PoolNotFound);
            },
        };
        let d = Deposit { pending_withdraw: amount, ..d0 };
        let ghost e0 = pool.deposits.entries@;
        pool.deposits.insert(caller, d);
        proof {
            let i = key_index(e0, caller);
            crate::table::lemma_key_index_is(e0, i);
            lemma_sum_backing_update(e0, i, (caller, d));
        }
        self.pools.insert(pool_id, pool);
        Ok(amount)
    }

    /// Second phase of a withdraw.  A confirmed payout debits the
    /// reserved amount from the deposit and the locked value; a failed
    /// payout releases the reservation and debits nothing.  A confirmed
    /// payout the books can no longer cover is reported and left to the
    /// boundary as a settlement gap.
    pub fn withdraw_finish(&mut self, caller: AccountId, pool_id: u64, transfer_ok: bool) -> (
        r: Result<(), PoolError>)
        requires
            old(self).wf(),
        ensures
            final(self).wf(),
            match r {
                Ok(()) => {
                    &&& old(self).pools@.contains_key(pool_id)
                    &&& {
                        let p0 = old(self).pools@[pool_id];
                        let d0 = p0.deposits@[caller];
                        &&& p0.deposits@.contains_key(caller)
                        &&& d0.pending_withdraw != 0
                        &&& d0.status == Status::Active
                        &&& (transfer_ok ==> d0.pending_withdraw <= p0.tvl)
                        &&& final(self).pools@ == old(self).pools@.insert(pool_id,
                            final(self).pools@[pool_id])
                        &&& {
                            let p = final(self).pools@[pool_id];
                            &&& p.deposits@ == p0.deposits@.insert(caller,
                                Deposit {
                                    amount: if transfer_ok {
                                        (d0.amount - d0.pending_withdraw) as Amount
                                    } else {
                                        d0.amount
                                    },
                                    pending_withdraw: 0,
                                    ..d0
                                })
                            &&& p.tvl == if transfer_ok {
                                (p0.tvl - d0.pending_withdraw) as Amount
                            } else {
                                p0.tvl
                            }
                            &&& p.tcp == p0.tcp
                            &&& p.pool_name@ == p0.pool_name@
                            &&& p.risk_type == p0.risk_type
                            &&& p.apy == p0.apy
                            &&& p.min_period == p0.min_period
                            &&& p.is_active == p0.is_active
                            &&& p.percentage_split_balance == p0.percentage_split_balance
                        }
                    }
                    &&& final(self).pool_count == old(self).pool_count
                    &&& final(self).same_but_pools(*old(self))
                },
                Err(e) => {
                    &&& *final(self) == *old(self)
                    &&& {
                        let c = old(self).pools@.contains_key(pool_id);
                        let p0 = old(self).pools@[pool_id];
                        let cd = c && p0.deposits@.contains_key(caller);
                        let d0 = p0.deposits@[caller];
                        match e {
                            PoolError::PoolNotFound => !c,
                            PoolError::NoDeposit => c && !p0.deposits@.contains_key(caller),
                            PoolError::NoWithdrawPending => cd && d0.pending_withdraw == 0,
                            PoolError::AlreadyWithdrawn => cd && d0.pending_withdraw != 0
                                && d0.status == Status::Withdrawn,
                            PoolError::InsufficientTvl => cd && d0.pending_withdraw != 0
                                && d0.status == Status::Active && transfer_ok
                                && d0.pending_withdraw > p0.tvl,
                            _ => false,
                        }
                    }
                },
            },
    {
        let (d0, tvl) = match self.pools.get(pool_id) {
            Some(p) => {
                match p.deposits.get(caller) {
                    Some(d) => (*d, p.tvl),
                    None => {
                        return Err(PoolError::NoDeposit);
                    },
                }
            },
            None => {
                return Err(PoolError::PoolNotFound);
            },
        };
        if d0.pending_withdraw == 0 {
            return Err(PoolError::NoWithdrawPending);
        }
        if d0.status == Status::Withdrawn {
            return Err(PoolError::AlreadyWithdrawn);
        }
        if transfer_ok && d0.pending_withdraw > tvl {
            return Err(PoolError::InsufficientTvl);
        }
        let mut pool = match self.pools.remove(pool_id) {
            Some(p) => p,
            None => {
                return Err(PoolError::PoolNotFound);
            },
        };
        let d = if transfer_ok {
            Deposit { amount: d0.amount - d0.pending_withdraw, pending_withdraw: 0, ..d0 }
        } else {
            Deposit { pending_withdraw: 0, ..d0 }
        };
        if transfer_ok {
            pool.tvl = pool.tvl - d0.pending_withdraw;
        }
        let ghost e0 = pool.deposits.entries@;
        pool.deposits.insert(caller, d);
        proof {
            let i = key_index(e0, caller);
            crate::table::lemma_key_index_is(e0, i);
            lemma_sum_backing_update(e0, i, (caller, d));
        }
        self.pools.insert(pool_id, pool);
        Ok(())
    }

    pub fn set_cover(&mut self, caller: AccountId, cover: AccountId) -> (r: Result<(),
        PoolError>)
        requires
            old(self).wf(),
        ensures
            final(self).wf(),
            match r {
                Ok(()) => {
                    &&& old(self).owner == Some(caller)
                    &&& *final(self) == PoolState { cover_address: Some(cover), ..*old(self) }
                },
                Err(e) => {
                    &&& *final(self) == *old(self)
                    &&& e == PoolError::NotOwner
                    &&& old(self).owner != Some(caller)
                },
            },
    {
        if !account_is(&self.owner, caller) {
            return Err(PoolError::NotOwner);
        }
        self.cover_address = Some(cover);
        Ok(())
    }
}

} // verus!
