//! The cover service: insurable products backed by a pool, the positions
//! users purchase in them, and the payout claims of liquidity providers.

use crate::math::{capacity_amount, PRECISION, PRECISION_PERCENT};
use crate::pool::{Deposit, Pool};
use crate::roster::{counted_once_more, Roster};
use crate::table::Table;
use crate::types::{account_is, AccountId, Amount, RiskType, Status, Time, SECONDS_PER_DAY};
use vstd::prelude::*;

verus! {

/// An insurable product: a capacity percentage of its backing pool's
/// locked value, sold piece by piece to users.
pub struct Cover {
    pub id: u64,
    pub cover_name: String,
    pub risk_type: RiskType,
    pub chains: String,
    /// Percentage of the backing pool's locked value this cover may sell.
    pub capacity: Amount,
    pub cost: Amount,
    /// The capacity percentage turned into an amount at the last recompute.
    pub capacity_amount: Amount,
    /// Total coverage sold so far.
    pub cover_values: Amount,
    /// Headroom still sellable: capacity amount minus sold coverage, as of
    /// the last recompute.
    pub max_amount: Amount,
    pub pool_id: u64,
    pub cid: String,
}

/// Field-for-field agreement, with the text fields compared by content.
pub open spec fn same_cover(a: Cover, b: Cover) -> bool {
    &&& a.id == b.id
    &&& a.cover_name@ == b.cover_name@
    &&& a.risk_type == b.risk_type
    &&& a.chains@ == b.chains@
    &&& a.capacity == b.capacity
    &&& a.cost == b.cost
    &&& a.capacity_amount == b.capacity_amount
    &&& a.cover_values == b.cover_values
    &&& a.max_amount == b.max_amount
    &&& a.pool_id == b.pool_id
    &&& a.cid@ == b.cid@
}

impl Clone for Cover {
    fn clone(&self) -> (r: Self)
        ensures
            same_cover(r, *self),
    {
        Cover {
            id: self.id,
            cover_name: self.cover_name.clone(),
            risk_type: self.risk_type,
            chains: self.chains.clone(),
            capacity: self.capacity,
            cost: self.cost,
            capacity_amount: self.capacity_amount,
            cover_values: self.cover_values,
            max_amount: self.max_amount,
            pool_id: self.pool_id,
            cid: self.cid.clone(),
        }
    }
}

/// A user's position in a cover.
pub struct GenericCoverInfo {
    pub user: AccountId,
    pub cover_id: u64,
    pub risk_type: RiskType,
    pub cover_name: String,
    /// Coverage still standing; claims paid out shrink it.
    pub cover_value: Amount,
    /// Cumulative claims paid against this position.
    pub claim_paid: Amount,
    /// The purchased period, in days.
    pub cover_period: u64,
    /// When the position expires.
    pub end_day: Time,
    pub is_active: bool,
}

/// Field-for-field agreement, with the name compared by content.
pub open spec fn same_user_cover(a: GenericCoverInfo, b: GenericCoverInfo) -> bool {
    &&& a.user == b.user
    &&& a.cover_id == b.cover_id
    &&& a.risk_type == b.risk_type
    &&& a.cover_name@ == b.cover_name@
    &&& a.cover_value == b.cover_value
    &&& a.claim_paid == b.claim_paid
    &&& a.cover_period == b.cover_period
    &&& a.end_day == b.end_day
    &&& a.is_active == b.is_active
}

impl Clone for GenericCoverInfo {
    fn clone(&self) -> (r: Self)
        ensures
            same_user_cover(r, *self),
    {
        GenericCoverInfo {
            user: self.user,
            cover_id: self.cover_id,
            risk_type: self.risk_type,
            cover_name: self.cover_name.clone(),
            cover_value: self.cover_value,
            claim_paid: self.claim_paid,
            cover_period: self.cover_period,
            end_day: self.end_day,
            is_active: self.is_active,
        }
    }
}

/// What can go wrong in the cover service.
#[derive(Clone, Copy, PartialEq, Eq, Structural, Debug)]
pub enum CoverError {
    /// A cover with this name or id already exists in the pool.
    CoverExists,
    /// The cover's risk category differs from the pool's.
    RiskMismatch,
    CoverNotFound,
    /// The sold coverage already exceeds the capacity the pool can back.
    CapacityBelowSold,
    /// The purchase asks for more than the remaining headroom.
    InsufficientCapacity,
    /// No position of this user under this cover.
    UserCoverNotFound,
    /// A claim larger than the coverage still standing.
    ClaimExceedsCover,
    /// The deposit the payout is computed from is not active.
    DepositInactive,
    /// No payout has accrued since the last claim.
    NothingClaimable,
    /// This user holds no covers.
    NoUserCovers,
    /// A cover capacity of zero cannot back anything.
    InvalidCapacity,
    /// No payout claim on record.
    NoClaimRecord,
    /// This user never took part.
    NoParticipation,
    /// The caller is not the owner.
    NotOwner,
}

/// Some cover in `cs` already carries this name or this id.
pub open spec fn name_or_id_clashes(cs: Seq<Cover>, name: Seq<char>, id: u64) -> bool {
    exists|i: int|
        0 <= i < cs.len() && ((#[trigger] cs[i]).cover_name@ == name || cs[i].id == id)
}

/// Whether renaming cover `id` to `name` clashes in the pool's cover
/// list: some cover other than the one updated already carries the name.
/// The updated cover's own entry is no clash, so a cover may keep its
/// name.
pub open spec fn update_clashes(cs: Seq<Cover>, name: Seq<char>, id: u64) -> bool {
    exists|i: int|
        0 <= i < cs.len() && (#[trigger] cs[i]).id != id && cs[i].cover_name@ == name
}

/// The capacity-budget adjustment a cover change owes the pool: shrinking
/// capacity frees budget, growing it commits budget, by the absolute
/// difference either way.
#[derive(Clone, Copy, PartialEq, Eq, Structural, Debug)]
pub struct SplitAdjustment {
    pub pool_id: u64,
    /// True frees budget (`increase_percentage_split`); false commits it.
    pub increase: bool,
    pub amount: Amount,
}

/// Whether a capacity change from `from` to `to` frees budget.
pub open spec fn split_frees(from: Amount, to: Amount) -> bool {
    from > to
}

/// The budget the change from `from` to `to` moves: the absolute
/// capacity difference.
pub open spec fn split_moved(from: Amount, to: Amount) -> int {
    if from > to {
        from - to
    } else {
        to - from
    }
}

/// Capacity changes cancel: going from `a` to `b` and back moves the
/// same budget both times, once freeing it and once committing it, so
/// over the round trip the cumulative increases equal the cumulative
/// decreases.
pub proof fn lemma_split_round_trip(a: Amount, b: Amount)
    ensures
        split_moved(a, b) == split_moved(b, a),
        a != b ==> split_frees(a, b) != split_frees(b, a),
{
}

/// When `user` last claimed the payout of a deposit in `pool_id`: the
/// recorded claim time, or the deposit's start when none is recorded.
pub open spec fn last_claim_of(s: CoverState, user: AccountId, pool_id: u64, d: Deposit) -> Time {
    if s.lp_claims@.contains_key(user) && s.lp_claims@[user]@.contains_key(pool_id) {
        s.lp_claims@[user]@[pool_id]
    } else {
        d.start_date
    }
}

/// Payouts accrue up to `now`, but never past the deposit's expiry.
pub open spec fn payout_cutoff(d: Deposit, now: Time) -> Time {
    if now > d.expiry_date {
        d.expiry_date
    } else {
        now
    }
}

/// The whole days of payout accrued and not yet claimed: none while the
/// clock has not passed the last claim.
pub open spec fn claimable_days_of(
    s: CoverState,
    user: AccountId,
    pool_id: u64,
    d: Deposit,
    now: Time,
) -> int {
    let last = last_claim_of(s, user, pool_id, d);
    let cut = payout_cutoff(d, now);
    if cut >= last {
        (cut - last) / (SECONDS_PER_DAY as int)
    } else {
        0
    }
}

/// Some of the first `n` entries of `ids` is `id`.
pub open spec fn appears_before(ids: Seq<u64>, n: int, id: u64) -> bool {
    exists|j: int| 0 <= j < n && ids[j] == id
}

/// Taking one more entry into view extends the search by exactly that
/// entry.
pub proof fn lemma_appears_extend(ids: Seq<u64>, n: int, id: u64)
    requires
        0 <= n < ids.len(),
    ensures
        appears_before(ids, n + 1, id) == (appears_before(ids, n, id) || ids[n] == id),
{
    if appears_before(ids, n + 1, id) {
        let j = choose|j: int| 0 <= j < n + 1 && ids[j] == id;
        if j < n {
            assert(appears_before(ids, n, id));
        }
    }
    if appears_before(ids, n, id) {
        let j = choose|j: int| 0 <= j < n && ids[j] == id;
        assert(0 <= j < n + 1 && ids[j] == id);
    }
}

/// The cover service's state.
pub struct CoverState {
    pub covers: Table<Cover>,
    pub owner: Option<AccountId>,
    /// The asset ledger purchase fees move through.
    pub asset_address: Option<AccountId>,
    pub pool_address: Option<AccountId>,
    pub gov_address: Option<AccountId>,
    pub roster: Roster,
    /// Each user's positions, keyed by cover.
    pub user_covers: Table<Table<GenericCoverInfo>>,
    /// Per liquidity provider and pool, when the payout was last claimed.
    pub lp_claims: Table<Table<Time>>,
    /// Every cover id ever created, in creation order.
    pub cover_ids: Vec<u64>,
}

impl CoverState {
    pub open spec fn wf(self) -> bool {
        &&& self.covers.wf()
        &&& self.roster.wf()
        &&& self.user_covers.wf()
        &&& forall|k: u64|
            self.user_covers@.contains_key(k) ==> (#[trigger] self.user_covers@[k]).wf()
        &&& self.lp_claims.wf()
        &&& forall|k: u64|
            self.lp_claims@.contains_key(k) ==> (#[trigger] self.lp_claims@[k]).wf()
    }

    /// Everything but the cover table and the id list agrees.
    pub open spec fn same_but_covers(self, o: CoverState) -> bool {
        &&& self.owner == o.owner
        &&& self.asset_address == o.asset_address
        &&& self.pool_address == o.pool_address
        &&& self.gov_address == o.gov_address
        &&& self.roster.participants@ == o.roster.participants@
        &&& self.roster.participation@ == o.roster.participation@
        &&& self.user_covers@ == o.user_covers@
        &&& self.lp_claims@ == o.lp_claims@
    }

    /// A fresh service with its peers wired in.
    pub fn new(pool: AccountId, owner: AccountId, gov: AccountId, asset: AccountId) -> (s: Self)
        ensures
            s.wf(),
            s.covers@ == Map::<u64, Cover>::empty(),
            s.owner == Some(owner),
            s.asset_address == Some(asset),
            s.pool_address == Some(pool),
            s.gov_address == Some(gov),
            s.roster.participants@ == Seq::<AccountId>::empty(),
            s.roster.participation@ == Map::<u64, Amount>::empty(),
            s.user_covers@ == Map::<u64, Table<GenericCoverInfo>>::empty(),
            s.lp_claims@ == Map::<u64, Table<Time>>::empty(),
            s.cover_ids@ == Seq::<u64>::empty(),
    {
        CoverState {
            covers: Table::new(),
            owner: Some(owner),
            asset_address: Some(asset),
            pool_address: Some(pool),
            gov_address: Some(gov),
            roster: Roster::new(),
            user_covers: Table::new(),
            lp_claims: Table::new(),
            cover_ids: Vec::new(),
        }
    }

    /// Registers a cover against `pool`, whose covers and value the pool
    /// service reported as `pool_covers`.  The name and id must be new in
    /// the pool, the risk category must match, and the insurable headroom
    /// is the capacity percentage of the pool's locked value, computed by
    /// fixed-point scaling.
    pub fn create_cover(
        &mut self,
        cover_id: u64,
        cid: String,
        risk_type: RiskType,
        cover_name: String,
        chains: String,
        capacity: Amount,
        cost: Amount,
        pool_id: u64,
        pool_covers: &Vec<Cover>,
        pool: &Pool,
    ) -> (r: Result<(), CoverError>)
        requires
            old(self).wf(),
            capacity * PRECISION <= u128::MAX,
            pool.tvl * (capacity * PRECISION_PERCENT) <= u128::MAX,
        ensures
            final(self).wf(),
            match r {
                Ok(()) => {
                    &&& !name_or_id_clashes(pool_covers@, cover_name@, cover_id)
                    &&& risk_type == pool.risk_type
                    &&& {
                        let c = final(self).covers@[cover_id];
                        &&& final(self).covers@ == old(self).covers@.insert(cover_id, c)
                        &&& c.id == cover_id
                        &&& c.cover_name@ == cover_name@
                        &&& c.risk_type == risk_type
                        &&& c.chains@ == chains@
                        &&& c.capacity == capacity
                        &&& c.cost == cost
                        &&& c.capacity_amount == pool.tvl * capacity / 100
                        &&& c.cover_values == 0
                        &&& c.max_amount == pool.tvl * capacity / 100
                        &&& c.pool_id == pool_id
                        &&& c.cid@ == cid@
                    }
                    &&& final(self).cover_ids@ == old(self).cover_ids@.push(cover_id)
                    &&& final(self).same_but_covers(*old(self))
                },
                Err(e) => {
                    &&& *final(self) == *old(self)
                    &&& match e {
                        CoverError::CoverExists => name_or_id_clashes(pool_covers@,
                            cover_name@, cover_id),
                        CoverError::RiskMismatch => !name_or_id_clashes(pool_covers@,
                            cover_name@, cover_id) && risk_type != pool.risk_type,
                        _ => false,
                    }
                },
            },
    {
        let n = pool_covers.len();
        let mut i: usize = 0;
        while i < n
            invariant
                i <= n,
                n == pool_covers@.len(),
                *self == *old(self),
                old(self).wf(),
                forall|j: int|
                    0 <= j < i ==> !((#[trigger] pool_covers@[j]).cover_name@ == cover_name@
                        || pool_covers@[j].id == cover_id),
            decreases n - i,
        {
            if pool_covers[i].cover_name == cover_name || pool_covers[i].id == cover_id {
                return Err(CoverError::CoverExists);
            }
            i += 1;
        }
        if risk_type != pool.risk_type {
            return Err(CoverError::RiskMismatch);
        }
        let maxamount = capacity_amount(pool.tvl, capacity);
        let cover = Cover {
            id: cover_id,
            cover_name,
            risk_type,
            chains,
            capacity,
            cost,
            capacity_amount: maxamount,
            cover_values: 0,
            max_amount: maxamount,
            pool_id,
            cid,
        };
        self.covers.insert(cover_id, cover);
        self.cover_ids.push(cover_id);
        Ok(())
    }

    /// Rewrites a cover's terms against the pool's reported covers and
    /// value.  The derived amounts are recomputed — they go stale the
    /// moment the capacity changes: the capacity amount afresh from the
    /// pool's locked value, and the headroom as that amount minus the
    /// coverage already sold.  Returns the capacity-budget adjustment
    /// the pool is owed: the absolute difference between the old and
    /// new capacity, freeing budget when capacity shrank and committing
    /// budget when it grew.  The caller settles that adjustment with the
    /// pool service.
    pub fn update_cover(
        &mut self,
        cover_id: u64,
        cover_name: String,
        risk_type: RiskType,
        cid: String,
        chains: String,
        capacity: Amount,
        cost: Amount,
        pool_id: u64,
        pool_covers: &Vec<Cover>,
        pool: &Pool,
    ) -> (r: Result<SplitAdjustment, CoverError>)
        requires
            old(self).wf(),
            capacity * PRECISION <= u128::MAX,
            pool.tvl * (capacity * PRECISION_PERCENT) <= u128::MAX,
        ensures
            final(self).wf(),
            match r {
                Ok(adj) => {
                    &&& !update_clashes(pool_covers@, cover_name@, cover_id)
                    &&& risk_type == pool.risk_type
                    &&& old(self).covers@.contains_key(cover_id)
                    &&& {
                        let c0 = old(self).covers@[cover_id];
                        let c = final(self).covers@[cover_id];
                        &&& c0.cover_values <= pool.tvl * capacity / 100
                        &&& final(self).covers@ == old(self).covers@.insert(cover_id, c)
                        &&& c.id == c0.id
                        &&& c.cover_name@ == cover_name@
                        &&& c.risk_type == risk_type
                        &&& c.chains@ == chains@
                        &&& c.capacity == capacity
                        &&& c.cost == cost
                        &&& c.capacity_amount == pool.tvl * capacity / 100
                        &&& c.cover_values == c0.cover_values
                        &&& c.max_amount == pool.tvl * capacity / 100 - c0.cover_values
                        &&& c.pool_id == c0.pool_id
                        &&& c.cid@ == cid@
                        &&& adj.pool_id == pool_id
                        &&& adj.increase == split_frees(c0.capacity, capacity)
                        &&& adj.amount == split_moved(c0.capacity, capacity)
                    }
                    &&& final(self).cover_ids@ == old(self).cover_ids@
                    &&& final(self).same_but_covers(*old(self))
                },
                Err(e) => {
                    &&& *final(self) == *old(self)
                    &&& {
                        let clash = update_clashes(pool_covers@, cover_name@, cover_id);
                        match e {
                            CoverError::CoverExists => clash,
                            CoverError::RiskMismatch => !clash && risk_type != pool.risk_type,
                            CoverError::CoverNotFound => !clash && risk_type == pool.risk_type
                                && !old(self).covers@.contains_key(cover_id),
                            CoverError::CapacityBelowSold => !clash && risk_type
                                == pool.risk_type && old(self).covers@.contains_key(cover_id)
                                && old(self).covers@[cover_id].cover_values > pool.tvl
                                * capacity / 100,
                            _ => false,
                        }
                    }
                },
            },
    {
        let n = pool_covers.len();
        let mut i: usize = 0;
        while i < n
            invariant
                i <= n,
                n == pool_covers@.len(),
                *self == *old(self),
                old(self).wf(),
                forall|j: int|
                    0 <= j < i ==> !((#[trigger] pool_covers@[j]).id != cover_id
                        && pool_covers@[j].cover_name@ == cover_name@),
            decreases n - i,
        {
            if pool_covers[i].id != cover_id && pool_covers[i].cover_name == cover_name {
                return Err(CoverError::CoverExists);
            }
            i += 1;
        }
        if risk_type != pool.risk_type {
            return Err(CoverError::RiskMismatch);
        }
        let maxamount = capacity_amount(pool.tvl, capacity);
        let sold = match self.covers.get(cover_id) {
            Some(c) => c.cover_values,
            None => {
                return Err(CoverError::CoverNotFound);
            },
        };
        if sold > maxamount {
            return Err(CoverError::CapacityBelowSold);
        }
        let mut cover = match self.covers.remove(cover_id) {
            Some(c) => c,
            None => {
                return Err(CoverError::CoverNotFound);
            },
        };
        let old_capacity = cover.capacity;
        cover.cover_name = cover_name;
        cover.risk_type = risk_type;
        cover.chains = chains;
        cover.capacity = capacity;
        cover.cost = cost;
        cover.cid = cid;
        cover.capacity_amount = maxamount;
        cover.max_amount = maxamount - sold;
        self.covers.insert(cover_id, cover);
        proof {
            assert(final(self).covers@ =~= old(self).covers@.insert(cover_id,
                final(self).covers@[cover_id]));
        }
        let difference = if old_capacity > capacity {
            old_capacity - capacity
        } else {
            capacity - old_capacity
        };
        Ok(SplitAdjustment { pool_id, increase: old_capacity > capacity, amount: difference })
    }

    /// Commits a purchase once the fee transfer is confirmed: checks the
    /// requested value against the cover's remaining headroom, moves it
    /// from headroom to sold coverage, writes the buyer's position, and
    /// records participation.  A purchase past the headroom is refused
    /// with the cover untouched.
    pub fn purchase_cover(
        &mut self,
        caller: AccountId,
        cover_id: u64,
        cover_value: Amount,
        cover_period: u64,
        now: Time,
    ) -> (r: Result<(), CoverError>)
        requires
            old(self).wf(),
            old(self).covers@.contains_key(cover_id) ==> old(self).covers@[
                cover_id].cover_values + cover_value <= u128::MAX,
            now + cover_period * SECONDS_PER_DAY <= u64::MAX,
        ensures
            final(self).wf(),
            match r {
                Ok(()) => {
                    &&& old(self).covers@.contains_key(cover_id)
                    &&& {
                        let c0 = old(self).covers@[cover_id];
                        let c = final(self).covers@[cover_id];
                        &&& cover_value <= c0.max_amount
                        &&& final(self).covers@ == old(self).covers@.insert(cover_id, c)
                        &&& c.cover_values == c0.cover_values + cover_value
                        &&& c.max_amount == c0.max_amount - cover_value
                        &&& c.id == c0.id
                        &&& c.cover_name@ == c0.cover_name@
                        &&& c.risk_type == c0.risk_type
                        &&& c.chains@ == c0.chains@
                        &&& c.capacity == c0.capacity
                        &&& c.cost == c0.cost
                        &&& c.capacity_amount == c0.capacity_amount
                        &&& c.pool_id == c0.pool_id
                        &&& c.cid@ == c0.cid@
                    }
                    &&& final(self).user_covers@ == old(self).user_covers@.insert(caller,
                        final(self).user_covers@[caller])
                    &&& {
                        let u = final(self).user_covers@[caller]@;
                        let u0 = if old(self).user_covers@.contains_key(caller) {
                            old(self).user_covers@[caller]@
                        } else {
                            Map::<u64, GenericCoverInfo>::empty()
                        };
                        &&& u =~= u0.insert(cover_id, u[cover_id])
                        &&& {
                            let info = u[cover_id];
                            &&& info.user == caller
                            &&& info.cover_id == cover_id
                            &&& info.risk_type == old(self).covers@[cover_id].risk_type
                            &&& info.cover_name@ == old(self).covers@[cover_id].cover_name@
                            &&& info.cover_value == cover_value
                            &&& info.claim_paid == 0
                            &&& info.cover_period == cover_period
                            &&& info.end_day == now + cover_period * SECONDS_PER_DAY
                            &&& info.is_active
                        }
                    }
                    &&& final(self).roster.participants@ == if old(
                        self).roster.participants@.contains(caller) {
                        old(self).roster.participants@
                    } else {
                        old(self).roster.participants@.push(caller)
                    }
                    &&& final(self).roster.participation@ == old(
                        self).roster.participation@.insert(caller,
                        counted_once_more(old(self).roster.participation@, caller))
                    &&& final(self).cover_ids@ == old(self).cover_ids@
                    &&& final(self).lp_claims@ == old(self).lp_claims@
                    &&& final(self).owner == old(self).owner
                    &&& final(self).asset_address == old(self).asset_address
                    &&& final(self).pool_address == old(self).pool_address
                    &&& final(self).gov_address == old(self).gov_address
                },
                Err(e) => {
                    &&& *final(self) == *old(self)
                    &&& match e {
                        CoverError::CoverNotFound => !old(self).covers@.contains_key(cover_id),
                        CoverError::InsufficientCapacity => old(self).covers@.contains_key(
                            cover_id) && cover_value > old(self).covers@[cover_id].max_amount,
                        _ => false,
                    }
                },
            },
    {
        let (headroom, cover_risk, cover_name_copy) = match self.covers.get(cover_id) {
            Some(c) => (c.max_amount, c.risk_type, c.cover_name.clone()),
            None => {
                return Err(CoverError::CoverNotFound);
            },
        };
        if cover_value > headroom {
            return Err(CoverError::InsufficientCapacity);
        }
        let mut cover = match self.covers.remove(cover_id) {
            Some(c) => c,
            None => {
                return Err(CoverError::CoverNotFound);
            },
        };
        cover.cover_values = cover.cover_values + cover_value;
        cover.max_amount = cover.max_amount - cover_value;
        self.covers.insert(cover_id, cover);
        let mut positions = match self.user_covers.remove(caller) {
            Some(t) => t,
            None => Table::new(),
        };
        let info = GenericCoverInfo {
            user: caller,
            cover_id,
            risk_type: cover_risk,
            cover_name: cover_name_copy,
            cover_value,
            claim_paid: 0,
            cover_period,
            end_day: now + cover_period * SECONDS_PER_DAY,
            is_active: true,
        };
        positions.insert(cover_id, info);
        self.user_covers.insert(caller, positions);
        self.roster.note(caller);
        proof {
            assert(final(self).covers@ =~= old(self).covers@.insert(cover_id,
                final(self).covers@[cover_id]));
            assert(final(self).user_covers@ =~= old(self).user_covers@.insert(caller,
                final(self).user_covers@[caller]));
        }
        Ok(())
    }

    /// Settles a claim against a user's position: the claim shrinks the
    /// coverage still standing and grows the cumulative claims paid.  A
    /// claim larger than the remaining coverage is refused, so a position
    /// can never go negative.
    pub fn update_user_cover_value(
        &mut self,
        user: AccountId,
        cover_id: u64,
        claim_paid: Amount,
    ) -> (r: Result<(), CoverError>)
        requires
            old(self).wf(),
            old(self).user_covers@.contains_key(user) && old(
                self).user_covers@[user]@.contains_key(cover_id) ==> old(
                self).user_covers@[user]@[cover_id].claim_paid + claim_paid <= u128::MAX,
        ensures
            final(self).wf(),
            match r {
                Ok(()) => {
                    &&& old(self).user_covers@.contains_key(user)
                    &&& old(self).user_covers@[user]@.contains_key(cover_id)
                    &&& {
                        let i0 = old(self).user_covers@[user]@[cover_id];
                        let i1 = final(self).user_covers@[user]@[cover_id];
                        &&& claim_paid <= i0.cover_value
                        &&& final(self).user_covers@ == old(self).user_covers@.insert(user,
                            final(self).user_covers@[user])
                        &&& final(self).user_covers@[user]@ == old(
                            self).user_covers@[user]@.insert(cover_id, i1)
                        &&& i1.cover_value == i0.cover_value - claim_paid
                        &&& i1.claim_paid == i0.claim_paid + claim_paid
                        &&& i1.user == i0.user
                        &&& i1.cover_id == i0.cover_id
                        &&& i1.risk_type == i0.risk_type
                        &&& i1.cover_name@ == i0.cover_name@
                        &&& i1.cover_period == i0.cover_period
                        &&& i1.end_day == i0.end_day
                        &&& i1.is_active == i0.is_active
                    }
                    &&& final(self).covers@ == old(self).covers@
                    &&& final(self).covers.entries@ == old(self).covers.entries@
                    &&& final(self).cover_ids@ == old(self).cover_ids@
                    &&& final(self).lp_claims@ == old(self).lp_claims@
                    &&& final(self).roster.participants@ == old(self).roster.participants@
                    &&& final(self).roster.participation@ == old(self).roster.participation@
                    &&& final(self).owner == old(self).owner
                    &&& final(self).asset_address == old(self).asset_address
                    &&& final(self).pool_address == old(self).pool_address
                    &&& final(self).gov_address == old(self).gov_address
                },
                Err(e) => {
                    &&& *final(self) == *old(self)
                    &&& {
                        let present = old(self).user_covers@.contains_key(user) && old(
                            self).user_covers@[user]@.contains_key(cover_id);
                        match e {
                            CoverError::UserCoverNotFound => !present,
                            CoverError::ClaimExceedsCover => present && claim_paid > old(
                                self).user_covers@[user]@[cover_id].cover_value,
                            _ => false,
                        }
                    }
                },
            },
    {
        let standing = match self.user_covers.get(user) {
            Some(t) => match t.get(cover_id) {
                Some(i) => i.cover_value,
                None => {
                    return Err(CoverError::UserCoverNotFound);
                },
            },
            None => {
                return Err(CoverError::UserCoverNotFound);
            },
        };
        if claim_paid > standing {
            return Err(CoverError::ClaimExceedsCover);
        }
        let mut positions = match self.user_covers.remove(user) {
            Some(t) => t,
            None => {
                return Err(CoverError::UserCoverNotFound);
            },
        };
        let mut info = match positions.remove(cover_id) {
            Some(i) => i,
            None => {
                return Err(CoverError::UserCoverNotFound);
            },
        };
        info.cover_value = info.cover_value - claim_paid;
        info.claim_paid = info.claim_paid + claim_paid;
        positions.insert(cover_id, info);
        self.user_covers.insert(user, positions);
        proof {
            assert(final(self).user_covers@ =~= old(self).user_covers@.insert(user,
                final(self).user_covers@[user]));
            assert(final(self).user_covers@[user]@ =~= old(self).user_covers@[user]@.insert(
                cover_id, final(self).user_covers@[user]@[cover_id]));
        }
        Ok(())
    }

    /// First phase of a liquidity provider's payout claim, on the
    /// deposit the pool service reported: checks the deposit is active,
    /// counts the whole days accrued since the last claim — capped at the
    /// deposit's expiry — and prices them at the deposit's daily payout.
    /// Nothing is recorded until the payout transfer is confirmed.
    pub fn claim_payout_prepare(
        &self,
        caller: AccountId,
        pool_id: u64,
        deposit: &Deposit,
        now: Time,
    ) -> (r: Result<(Amount, Time), CoverError>)
        requires
            self.wf(),
            deposit.daily_payout * claimable_days_of(*self, caller, pool_id, *deposit, now)
                <= u128::MAX,
        ensures
            match r {
                Ok((amount, until)) => {
                    &&& deposit.status == Status::Active
                    &&& claimable_days_of(*self, caller, pool_id, *deposit, now) > 0
                    &&& amount == deposit.daily_payout * claimable_days_of(*self, caller,
                        pool_id, *deposit, now)
                    &&& until == payout_cutoff(*deposit, now)
                },
                Err(e) => match e {
                    CoverError::DepositInactive => deposit.status != Status::Active,
                    CoverError::NothingClaimable => deposit.status == Status::Active
                        && claimable_days_of(*self, caller, pool_id, *deposit, now) == 0,
                    _ => false,
                },
            },
    {
        if deposit.status != Status::Active {
            return Err(CoverError::DepositInactive);
        }
        let last = match self.lp_claims.get(caller) {
            Some(t) => {
                proof {
                    assert(self.lp_claims@.contains_key(caller));
                }
                match t.get(pool_id) {
                    Some(when) => *when,
                    None => deposit.start_date,
                }
            },
            None => deposit.start_date,
        };
        let cut = if now > deposit.expiry_date {
            deposit.expiry_date
        } else {
            now
        };
        let days: u64 = if cut >= last {
            (cut - last) / SECONDS_PER_DAY
        } else {
            0
        };
        if days == 0 {
            return Err(CoverError::NothingClaimable);
        }
        let amount = deposit.daily_payout * (days as u128);
        Ok((amount, cut))
    }

    /// Second phase of a payout claim, after the transfer is confirmed:
    /// records the time up to which the payout is now settled.
    pub fn claim_payout_commit(&mut self, caller: AccountId, pool_id: u64, claim_time: Time)
        requires
            old(self).wf(),
        ensures
            final(self).wf(),
            final(self).lp_claims@ == old(self).lp_claims@.insert(caller,
                final(self).lp_claims@[caller]),
            final(self).lp_claims@[caller]@ == (if old(self).lp_claims@.contains_key(caller) {
                old(self).lp_claims@[caller]@
            } else {
                Map::<u64, Time>::empty()
            }).insert(pool_id, claim_time),
            final(self).covers@ == old(self).covers@,
            final(self).covers.entries@ == old(self).covers.entries@,
            final(self).cover_ids@ == old(self).cover_ids@,
            final(self).user_covers@ == old(self).user_covers@,
            final(self).roster.participants@ == old(self).roster.participants@,
            final(self).roster.participation@ == old(self).roster.participation@,
            final(self).owner == old(self).owner,
            final(self).asset_address == old(self).asset_address,
            final(self).pool_address == old(self).pool_address,
            final(self).gov_address == old(self).gov_address,
    {
        let mut claims = match self.lp_claims.remove(caller) {
            Some(t) => t,
            None => Table::new(),
        };
        claims.insert(pool_id, claim_time);
        self.lp_claims.insert(caller, claims);
        proof {
            assert(final(self).lp_claims@ =~= old(self).lp_claims@.insert(caller,
                final(self).lp_claims@[caller]));
        }
    }

    /// The whole days of payout `user` has accrued and not yet claimed on
    /// a deposit in `pool_id`, as the pool service reported the deposit.
    pub fn get_deposit_claimable_days(
        &self,
        user: AccountId,
        pool_id: u64,
        deposit: &Deposit,
        now: Time,
    ) -> (r: u64)
        requires
            self.wf(),
        ensures
            r == claimable_days_of(*self, user, pool_id, *deposit, now),
    {
        let last = match self.lp_claims.get(user) {
            Some(t) => {
                proof {
                    assert(self.lp_claims@.contains_key(user));
                }
                match t.get(pool_id) {
                    Some(when) => *when,
                    None => deposit.start_date,
                }
            },
            None => deposit.start_date,
        };
        let cut = if now > deposit.expiry_date {
            deposit.expiry_date
        } else {
            now
        };
        if cut >= last {
            (cut - last) / SECONDS_PER_DAY
        } else {
            0
        }
    }

    /// When `user` last claimed the payout of a deposit in `pool_id`, if
    /// a claim is on record.
    pub fn get_last_claim_time(&self, user: AccountId, pool_id: u64) -> (r: Result<Time,
        CoverError>)
        requires
            self.wf(),
        ensures
            match r {
                Ok(when) => self.lp_claims@.contains_key(user)
                    && self.lp_claims@[user]@.contains_key(pool_id) && when
                    == self.lp_claims@[user]@[pool_id],
                Err(e) => {
                    &&& e == CoverError::NoClaimRecord
                    &&& !(self.lp_claims@.contains_key(user)
                        && self.lp_claims@[user]@.contains_key(pool_id))
                },
            },
    {
        match self.lp_claims.get(user) {
            Some(t) => {
                proof {
                    assert(self.lp_claims@.contains_key(user));
                }
                match t.get(pool_id) {
                    Some(when) => Ok(*when),
                    None => Err(CoverError::NoClaimRecord),
                }
            },
            None => Err(CoverError::NoClaimRecord),
        }
    }

    /// Purges `user`'s expired positions: every position whose cover id
    /// is on record, still marked active, and past its end day is
    /// removed; everything else is left exactly as it was.  Running it
    /// again removes nothing more.
    pub fn delete_expired_user_covers(&mut self, user: AccountId, now: Time) -> (r: Result<(),
        CoverError>)
        requires
            old(self).wf(),
        ensures
            final(self).wf(),
            match r {
                Ok(()) => {
                    &&& old(self).user_covers@.contains_key(user)
                    &&& final(self).user_covers@ == old(self).user_covers@.insert(user,
                        final(self).user_covers@[user])
                    &&& {
                        let u0 = old(self).user_covers@[user]@;
                        let u = final(self).user_covers@[user]@;
                        &&& forall|id: u64|
                            u0.contains_key(id) ==> (#[trigger] u.contains_key(id) == !(old(
                                self).cover_ids@.contains(id) && u0[id].is_active && now > u0[
                                id].end_day))
                        &&& forall|id: u64|
                            #[trigger] u.contains_key(id) ==> u0.contains_key(id) && u[id]
                                == u0[id]
                    }
                    &&& final(self).covers@ == old(self).covers@
                    &&& final(self).covers.entries@ == old(self).covers.entries@
                    &&& final(self).cover_ids@ == old(self).cover_ids@
                    &&& final(self).lp_claims@ == old(self).lp_claims@
                    &&& final(self).roster.participants@ == old(self).roster.participants@
                    &&& final(self).roster.participation@ == old(self).roster.participation@
                    &&& final(self).owner == old(self).owner
                    &&& final(self).asset_address == old(self).asset_address
                    &&& final(self).pool_address == old(self).pool_address
                    &&& final(self).gov_address == old(self).gov_address
                },
                Err(e) => {
                    &&& *final(self) == *old(self)
                    &&& e == CoverError::NoUserCovers
                    &&& !old(self).user_covers@.contains_key(user)
                },
            },
    {
        let mut positions = match self.user_covers.remove(user) {
            Some(t) => t,
            None => {
                return Err(CoverError::NoUserCovers);
            },
        };
        let ghost s_mid = *self;
        let ghost u0 = positions@;
        let ghost ids = self.cover_ids@;
        let n = self.cover_ids.len();
        let mut i: usize = 0;
        while i < n
            invariant
                i <= n,
                *self == s_mid,
                n == ids.len(),
                ids == self.cover_ids@,
                s_mid.wf(),
                positions.wf(),
                forall|id: u64|
                    #[trigger] positions@.contains_key(id) ==> u0.contains_key(id)
                        && positions@[id] == u0[id],
                forall|id: u64|
                    u0.contains_key(id) ==> (#[trigger] positions@.contains_key(id) == !(
                    appears_before(ids, i as int, id) && u0[id].is_active && now > u0[
                    id].end_day)),
            decreases n - i,
        {
            let id = self.cover_ids[i];
            let mut kill = false;
            match positions.get(id) {
                Some(info) => {
                    if info.is_active && now > info.end_day {
                        kill = true;
                    }
                },
                None => {},
            }
            let ghost p_before = positions@;
            if kill {
                positions.remove(id);
            }
            proof {
                assert forall|id2: u64| u0.contains_key(id2) implies (
                #[trigger] positions@.contains_key(id2) == !(appears_before(ids, i + 1, id2)
                    && u0[id2].is_active && now > u0[id2].end_day)) by {
                    lemma_appears_extend(ids, i as int, id2);
                    if id2 == id {
                        assert(ids[i as int] == id2);
                    }
                }
            }
            i += 1;
        }
        proof {
            assert forall|id: u64| appears_before(ids, n as int, id) == ids.contains(
                id) by {
                assert(appears_before(ids, n as int, id) == (exists|j: int|
                    0 <= j < ids.len() && ids[j] == id));
            }
        }
        self.user_covers.insert(user, positions);
        proof {
            assert(final(self).user_covers@ =~= old(self).user_covers@.insert(user,
                final(self).user_covers@[user]));
        }
        Ok(())
    }

    /// Every position `user` holds, in table order.
    pub fn get_all_user_covers(&self, user: AccountId) -> (r: Result<Vec<GenericCoverInfo>,
        CoverError>)
        requires
            self.wf(),
        ensures
            match r {
                Ok(v) => {
                    &&& self.user_covers@.contains_key(user)
                    &&& v@.len() == self.user_covers@[user].spec_len()
                    &&& forall|i: int|
                        0 <= i < v@.len() ==> same_user_cover(#[trigger] v@[i],
                            self.user_covers@[user].entries@[i].1)
                },
                Err(e) => {
                    &&& e == CoverError::NoUserCovers
                    &&& !self.user_covers@.contains_key(user)
                },
            },
    {
        let positions = match self.user_covers.get(user) {
            Some(t) => t,
            None => {
                return Err(CoverError::NoUserCovers);
            },
        };
        let n = positions.len();
        let mut r: Vec<GenericCoverInfo> = Vec::new();
        let mut i: usize = 0;
        while i < n
            invariant
                i <= n,
                n == positions.spec_len(),
                r@.len() == i,
                forall|j: int|
                    0 <= j < i ==> same_user_cover(#[trigger] r@[j], positions.entries@[j].1),
            decreases n - i,
        {
            let e = positions.entry_at(i);
            r.push(e.1.clone());
            i += 1;
        }
        Ok(r)
    }

    /// Every cover on offer, in table order.
    pub fn get_all_available_covers(&self) -> (r: Result<Vec<Cover>, CoverError>)
        ensures
            match r {
                Ok(v) => v@.len() == self.covers.spec_len() && (forall|i: int|
                    0 <= i < v@.len() ==> same_cover(#[trigger] v@[i],
                        self.covers.entries@[i].1)),
                Err(_) => false,
            },
    {
        let n = self.covers.len();
        let mut r: Vec<Cover> = Vec::new();
        let mut i: usize = 0;
        while i < n
            invariant
                i <= n,
                n == self.covers.spec_len(),
                r@.len() == i,
                forall|j: int|
                    0 <= j < i ==> same_cover(#[trigger] r@[j], self.covers.entries@[j].1),
            decreases n - i,
        {
            let e = self.covers.entry_at(i);
            r.push(e.1.clone());
            i += 1;
        }
        Ok(r)
    }

    pub fn get_cover_info(&self, cover_id: u64) -> (r: Result<Cover, CoverError>)
        requires
            self.wf(),
        ensures
            match r {
                Ok(c) => self.covers@.contains_key(cover_id) && same_cover(c,
                    self.covers@[cover_id]),
                Err(e) => e == CoverError::CoverNotFound && !self.covers@.contains_key(
                    cover_id),
            },
    {
        match self.covers.get(cover_id) {
            Some(c) => Ok(c.clone()),
            None => Err(CoverError::CoverNotFound),
        }
    }

    /// The position `user` holds under `cover_id`, if any.
    pub fn get_user_cover_info(&self, user: AccountId, cover_id: u64) -> (r: Option<
        GenericCoverInfo>)
        requires
            self.wf(),
        ensures
            match r {
                Some(info) => {
                    &&& self.user_covers@.contains_key(user)
                    &&& self.user_covers@[user]@.contains_key(cover_id)
                    &&& same_user_cover(info, self.user_covers@[user]@[cover_id])
                },
                None => !(self.user_covers@.contains_key(user)
                    && self.user_covers@[user]@.contains_key(cover_id)),
            },
    {
        match self.user_covers.get(user) {
            Some(t) => {
                proof {
                    assert(self.user_covers@.contains_key(user));
                }
                match t.get(cover_id) {
                    Some(info) => Some(info.clone()),
                    None => None,
                }
            },
            None => None,
        }
    }

    pub fn get_all_participants(&self) -> (r: Result<Vec<AccountId>, CoverError>)
        ensures
            match r {
                Ok(v) => v@ == self.roster.participants@,
                Err(_) => false,
            },
    {
        Ok(self.roster.all())
    }

    pub fn get_user_participation(&self, user: AccountId) -> (r: Result<Amount, CoverError>)
        requires
            self.wf(),
        ensures
            match r {
                Ok(n) => self.roster.participation@.contains_key(user) && n
                    == self.roster.participation@[user],
                Err(e) => e == CoverError::NoParticipation
                    && !self.roster.participation@.contains_key(user),
            },
    {
        match self.roster.of(user) {
            Some(n) => Ok(n),
            None => Err(CoverError::NoParticipation),
        }
    }

    /// Owner-gated; a wrong caller is a misconfiguration, fatal at the
    /// boundary.  Rewires the peer services and the asset ledger.
    pub fn update_canister_ids(
        &mut self,
        caller: AccountId,
        pool: AccountId,
        gov: AccountId,
        asset: AccountId,
    ) -> (r: Result<(), CoverError>)
        requires
            old(self).wf(),
        ensures
            final(self).wf(),
            match r {
                Ok(()) => {
                    &&& old(self).owner == Some(caller)
                    &&& *final(self) == (CoverState {
                        pool_address: Some(pool),
                        gov_address: Some(gov),
                        asset_address: Some(asset),
                        ..*old(self)
                    })
                },
                Err(e) => {
                    &&& *final(self) == *old(self)
                    &&& e == CoverError::NotOwner
                    &&& old(self).owner != Some(caller)
                },
            },
    {
        if !account_is(&self.owner, caller) {
            return Err(CoverError::NotOwner);
        }
        self.pool_address = Some(pool);
        self.gov_address = Some(gov);
        self.asset_address = Some(asset);
        Ok(())
    }

    pub fn get_canister_ids(&self) -> (r: (Option<AccountId>, Option<AccountId>, Option<
        AccountId>, Option<AccountId>))
        ensures
            r == (self.pool_address, self.gov_address, self.asset_address, self.owner),
    {
        (self.pool_address, self.gov_address, self.asset_address, self.owner)
    }

    /// Recomputes a cover's headroom from its pool's current locked
    /// value: the capacity amount afresh, minus the coverage already
    /// sold.  Must run whenever the pool's value changes, or the stored
    /// headroom overstates what the pool can still back.
    pub fn update_max_amount(&mut self, cover_id: u64, pool_tvl: Amount) -> (r: Result<(),
        CoverError>)
        requires
            old(self).wf(),
            old(self).covers@.contains_key(cover_id) ==> old(self).covers@[cover_id].capacity
                * PRECISION <= u128::MAX && pool_tvl * (old(self).covers@[cover_id].capacity
                * PRECISION_PERCENT) <= u128::MAX,
        ensures
            final(self).wf(),
            match r {
                Ok(()) => {
                    &&& old(self).covers@.contains_key(cover_id)
                    &&& {
                        let c0 = old(self).covers@[cover_id];
                        let c = final(self).covers@[cover_id];
                        let amount = pool_tvl * c0.capacity / 100;
                        &&& c0.capacity > 0
                        &&& c0.cover_values <= amount
                        &&& final(self).covers@ == old(self).covers@.insert(cover_id, c)
                        &&& c.capacity_amount == amount
                        &&& c.max_amount == amount - c0.cover_values
                        &&& c.id == c0.id
                        &&& c.cover_name@ == c0.cover_name@
                        &&& c.risk_type == c0.risk_type
                        &&& c.chains@ == c0.chains@
                        &&& c.capacity == c0.capacity
                        &&& c.cost == c0.cost
                        &&& c.cover_values == c0.cover_values
                        &&& c.pool_id == c0.pool_id
                        &&& c.cid@ == c0.cid@
                    }
                    &&& final(self).cover_ids@ == old(self).cover_ids@
                    &&& final(self).same_but_covers(*old(self))
                },
                Err(e) => {
                    &&& *final(self) == *old(self)
                    &&& match e {
                        CoverError::CoverNotFound => !old(self).covers@.contains_key(cover_id),
                        CoverError::InvalidCapacity => old(self).covers@.contains_key(cover_id)
                            && old(self).covers@[cover_id].capacity == 0,
                        CoverError::CapacityBelowSold => old(self).covers@.contains_key(
                            cover_id) && old(self).covers@[cover_id].capacity > 0 && old(
                            self).covers@[cover_id].cover_values > pool_tvl * old(
                            self).covers@[cover_id].capacity / 100,
                        _ => false,
                    }
                },
            },
    {
        let (capacity, sold) = match self.covers.get(cover_id) {
            Some(c) => (c.capacity, c.cover_values),
            None => {
                return Err(CoverError::CoverNotFound);
            },
        };
        if capacity == 0 {
            return Err(CoverError::InvalidCapacity);
        }
        let amount = capacity_amount(pool_tvl, capacity);
        if sold > amount {
            return Err(CoverError::CapacityBelowSold);
        }
        let mut cover = match self.covers.remove(cover_id) {
            Some(c) => c,
            None => {
                return Err(CoverError::CoverNotFound);
            },
        };
        cover.capacity_amount = amount;
        cover.max_amount = amount - sold;
        self.covers.insert(cover_id, cover);
        proof {
            assert(final(self).covers@ =~= old(self).covers@.insert(cover_id,
                final(self).covers@[cover_id]));
        }
        Ok(())
    }
}

} // verus!
