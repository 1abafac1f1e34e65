use coverpool::pool::{PoolError, PoolState, SettlementStep};
use coverpool::types::{RiskType, Status};

const OWNER: u64 = 1;
const COVER_SVC: u64 = 2;
const GOV_SVC: u64 = 3;
const ASSET: u64 = 4;
const ALICE: u64 = 10;
const BOB: u64 = 11;

const DAY: u64 = 86400;

fn fresh_pool_state() -> PoolState {
    let mut s = PoolState::new(OWNER, ASSET);
    s.update_canister_ids(OWNER, COVER_SVC, GOV_SVC, ASSET).unwrap();
    s
}

#[test]
fn create_pool_owner_only() {
    let mut s = fresh_pool_state();
    assert_eq!(
        s.create_pool(ALICE, RiskType::Slashing, "p".to_string(), 365, 10),
        Err(PoolError::NotOwner)
    );
    assert!(s.create_pool(OWNER, RiskType::Slashing, "p".to_string(), 365, 10).is_ok());
    let p = s.get_pool(1).unwrap();
    assert_eq!(p.tvl, 0);
    assert_eq!(p.tcp, 0);
    assert!(p.is_active);
    assert_eq!(p.percentage_split_balance, 100);
    assert_eq!(p.apy, 365);
    assert_eq!(p.min_period, 10);
}

#[test]
fn update_and_deactivate_pool() {
    let mut s = fresh_pool_state();
    s.create_pool(OWNER, RiskType::Protocol, "p".to_string(), 10, 30).unwrap();
    assert_eq!(s.update_pool(BOB, 1, 20, 60), Err(PoolError::NotOwner));
    s.update_pool(OWNER, 1, 20, 60).unwrap();
    let p = s.get_pool(1).unwrap();
    assert_eq!(p.apy, 20);
    assert_eq!(p.min_period, 60);
    assert_eq!(s.update_pool(OWNER, 9, 1, 1), Err(PoolError::PoolNotFound));
    s.deactivate_pool(OWNER, 1).unwrap();
    assert_eq!(s.pool_active(1), Ok(false));
    assert_eq!(s.deposit_prepare(1, 100), Err(PoolError::PoolInactive));
}

#[test]
fn deposit_computes_daily_payout() {
    let mut s = fresh_pool_state();
    s.create_pool(OWNER, RiskType::Slashing, "p".to_string(), 365, 10).unwrap();
    let (daily, min_period) = s.deposit_prepare(1, 1000).unwrap();
    // 1000 * 365 / 100 / 365 = 10
    assert_eq!(daily, 10);
    assert_eq!(min_period, 10);
    s.deposit_commit(ALICE, 1, 1000, daily, min_period, 0).unwrap();
    assert_eq!(s.get_pool_tvl(1), Ok(1000));
    let d = s.get_user_deposit(1, ALICE).unwrap();
    assert_eq!(d.amount, 1000);
    assert_eq!(d.daily_payout, 10);
    assert_eq!(d.start_date, 0);
    assert_eq!(d.expiry_date, 10 * DAY);
    assert_eq!(d.status, Status::Active);
    assert_eq!(s.get_user_participation(ALICE), Ok(1));
    assert_eq!(s.get_all_participants(), Ok(vec![ALICE]));
    assert_eq!(s.get_user_participation(BOB), Err(PoolError::NoParticipation));
}

#[test]
fn redeposit_overwrites_position() {
    let mut s = fresh_pool_state();
    s.create_pool(OWNER, RiskType::Slashing, "p".to_string(), 365, 10).unwrap();
    s.deposit_commit(ALICE, 1, 1000, 10, 10, 0).unwrap();
    s.deposit_commit(ALICE, 1, 50, 0, 10, 5).unwrap();
    // the position is replaced, the locked value keeps both credits
    assert_eq!(s.get_user_deposit(1, ALICE).unwrap().amount, 50);
    assert_eq!(s.get_pool_tvl(1), Ok(1050));
    assert_eq!(s.get_user_participation(ALICE), Ok(2));
}

#[test]
fn withdraw_honours_expiry_and_amounts() {
    let mut s = fresh_pool_state();
    s.create_pool(OWNER, RiskType::Slashing, "p".to_string(), 365, 10).unwrap();
    s.deposit_commit(ALICE, 1, 1000, 10, 10, 0).unwrap();
    assert_eq!(s.withdraw_begin(ALICE, 1, 100, 5 * DAY), Err(PoolError::DepositNotExpired));
    assert_eq!(s.withdraw_begin(BOB, 1, 100, 20 * DAY), Err(PoolError::NoDeposit));
    assert_eq!(s.withdraw_begin(ALICE, 9, 100, 20 * DAY), Err(PoolError::PoolNotFound));
    assert_eq!(s.withdraw_begin(ALICE, 1, 0, 20 * DAY), Err(PoolError::ZeroAmount));
    assert_eq!(
        s.withdraw_begin(ALICE, 1, 1001, 20 * DAY),
        Err(PoolError::AmountExceedsDeposit)
    );
    assert_eq!(s.withdraw_begin(ALICE, 1, 400, 20 * DAY), Ok(400));
    // a second withdraw while the payout is in flight is refused
    assert_eq!(
        s.withdraw_begin(ALICE, 1, 100, 20 * DAY),
        Err(PoolError::WithdrawInProgress)
    );
    // and so is overwriting the position by a new deposit
    assert_eq!(
        s.deposit_commit(ALICE, 1, 5, 0, 10, 0),
        Err(PoolError::WithdrawInProgress)
    );
    s.withdraw_finish(ALICE, 1, true).unwrap();
    assert_eq!(s.get_user_deposit(1, ALICE).unwrap().amount, 600);
    assert_eq!(s.get_pool_tvl(1), Ok(600));
}

#[test]
fn withdraw_failed_transfer_debits_nothing() {
    let mut s = fresh_pool_state();
    s.create_pool(OWNER, RiskType::Slashing, "p".to_string(), 365, 10).unwrap();
    s.deposit_commit(ALICE, 1, 1000, 10, 10, 0).unwrap();
    assert_eq!(s.withdraw_begin(ALICE, 1, 400, 20 * DAY), Ok(400));
    s.withdraw_finish(ALICE, 1, false).unwrap();
    // the reservation is released and the books are untouched
    assert_eq!(s.get_user_deposit(1, ALICE).unwrap().amount, 1000);
    assert_eq!(s.get_pool_tvl(1), Ok(1000));
    // a fresh attempt goes through
    assert_eq!(s.withdraw_begin(ALICE, 1, 1000, 20 * DAY), Ok(1000));
    s.withdraw_finish(ALICE, 1, true).unwrap();
    assert_eq!(s.get_user_deposit(1, ALICE).unwrap().amount, 0);
    // an emptied deposit cannot be withdrawn again
    assert_eq!(s.withdraw_begin(ALICE, 1, 1, 20 * DAY), Err(PoolError::DepositEmpty));
}

#[test]
fn withdraw_finish_needs_a_pending_payout() {
    let mut s = fresh_pool_state();
    s.create_pool(OWNER, RiskType::Slashing, "p".to_string(), 365, 10).unwrap();
    s.deposit_commit(ALICE, 1, 1000, 10, 10, 0).unwrap();
    assert_eq!(s.withdraw_finish(ALICE, 1, true), Err(PoolError::NoWithdrawPending));
}

#[test]
fn withdrawn_status_blocks_withdraw() {
    let mut s = fresh_pool_state();
    s.create_pool(OWNER, RiskType::Slashing, "p".to_string(), 365, 10).unwrap();
    s.deposit_commit(ALICE, 1, 1000, 10, 10, 0).unwrap();
    // mark the position withdrawn by hand, as an already-settled book would be
    let mut pool = s.get_pool(1).unwrap().clone();
    let mut d = *pool.deposits.get(ALICE).unwrap();
    d.status = Status::Withdrawn;
    pool.deposits.insert(ALICE, d);
    s.pools.insert(1, pool);
    assert_eq!(
        s.withdraw_begin(ALICE, 1, 100, 20 * DAY),
        Err(PoolError::AlreadyWithdrawn)
    );
}

#[test]
fn percentage_split_stays_a_percentage() {
    let mut s = fresh_pool_state();
    s.create_pool(OWNER, RiskType::Slashing, "p".to_string(), 365, 10).unwrap();
    assert_eq!(
        s.reduce_percentage_split(ALICE, 1, 10),
        Err(PoolError::NotCoverContract)
    );
    s.reduce_percentage_split(COVER_SVC, 1, 60).unwrap();
    assert_eq!(s.get_pool(1).unwrap().percentage_split_balance, 40);
    assert_eq!(
        s.reduce_percentage_split(COVER_SVC, 1, 41),
        Err(PoolError::SplitExceedsBalance)
    );
    s.increase_percentage_split(COVER_SVC, 1, 25).unwrap();
    assert_eq!(s.get_pool(1).unwrap().percentage_split_balance, 65);
    assert_eq!(
        s.increase_percentage_split(COVER_SVC, 1, 36),
        Err(PoolError::SplitExceedsLimit)
    );
    assert_eq!(
        s.reduce_percentage_split(COVER_SVC, 9, 1),
        Err(PoolError::PoolNotFound)
    );
}

#[test]
fn pool_cover_records() {
    let mut s = fresh_pool_state();
    s.create_pool(OWNER, RiskType::Slashing, "p".to_string(), 365, 10).unwrap();
    // a pool has no cover record until one is created for it
    assert!(s.get_pool_covers(1).is_empty());
    s.pool_covers.insert(1, Vec::new());
    let cover = coverpool::cover::Cover {
        id: 7,
        cover_name: "c".to_string(),
        risk_type: RiskType::Slashing,
        chains: "chain".to_string(),
        capacity: 10,
        cost: 5,
        capacity_amount: 0,
        cover_values: 0,
        max_amount: 0,
        pool_id: 1,
        cid: "cid".to_string(),
    };
    assert_eq!(
        s.add_pool_covers(ALICE, 1, cover.clone()),
        Err(PoolError::NotCoverContract)
    );
    s.add_pool_covers(COVER_SVC, 1, cover.clone()).unwrap();
    assert_eq!(s.get_pool_covers(1).len(), 1);
    let mut changed = cover.clone();
    changed.cost = 9;
    s.update_pool_covers(COVER_SVC, 1, changed).unwrap();
    assert_eq!(s.get_pool_covers(1)[0].cost, 9);
    let mut unknown = cover.clone();
    unknown.id = 8;
    assert_eq!(
        s.update_pool_covers(COVER_SVC, 1, unknown),
        Err(PoolError::CoverNotFound)
    );
    assert_eq!(
        s.add_pool_covers(COVER_SVC, 9, cover),
        Err(PoolError::PoolNotFound)
    );
}

#[test]
fn pools_by_address_reports_stakes() {
    let mut s = fresh_pool_state();
    s.create_pool(OWNER, RiskType::Slashing, "one".to_string(), 365, 10).unwrap();
    s.create_pool(OWNER, RiskType::Protocol, "two".to_string(), 100, 5).unwrap();
    s.deposit_commit(ALICE, 2, 500, 1, 5, 0).unwrap();
    let all = s.get_all_pools();
    assert_eq!(all.len(), 2);
    assert_eq!(all[0].0, 1);
    assert_eq!(all[0].1.pool_name, "one".to_string());
    assert_eq!(all[1].0, 2);
    assert_eq!(all[1].1.tvl, 500);
    let infos = s.get_pools_by_address(ALICE);
    assert_eq!(infos.len(), 1);
    assert_eq!(infos[0].pool_id, 2);
    assert_eq!(infos[0].deposit_amount, 500);
    assert_eq!(infos[0].pool_name, "two".to_string());
    assert!(s.get_pools_by_address(BOB).is_empty());
}

#[test]
fn owner_handover() {
    let mut s = fresh_pool_state();
    assert_eq!(s.set_owner(BOB, BOB), Err(PoolError::NotOwner));
    s.set_owner(OWNER, BOB).unwrap();
    assert_eq!(s.get_owner(), Some(BOB));
    assert_eq!(s.set_cover(OWNER, COVER_SVC), Err(PoolError::NotOwner));
    s.set_cover(BOB, COVER_SVC).unwrap();
    let (gov, cover, asset) = s.get_canister_ids();
    assert_eq!(gov, Some(GOV_SVC));
    assert_eq!(cover, Some(COVER_SVC));
    assert_eq!(asset, Some(ASSET));
}

fn approved_proposal(id: u64, claimant: u64, pool_id: u64, amount: u128) -> coverpool::governance::Proposal {
    coverpool::governance::Proposal {
        id,
        votes_for: 5,
        votes_against: 1,
        created_at: 0,
        deadline: 100,
        timeleft: 0,
        executed: false,
        status: coverpool::types::ProposalStatus::Approved,
        proposal_param: coverpool::governance::ProposalParam {
            user: claimant,
            cover_id: 7,
            pool_id,
            claim_amount: amount,
        },
        voters_for: vec![ALICE],
        voters_against: vec![],
    }
}

#[test]
fn settlement_walks_its_steps() {
    let mut s = fresh_pool_state();
    s.create_pool(OWNER, RiskType::Slashing, "p".to_string(), 365, 10).unwrap();
    s.deposit_commit(ALICE, 1, 1000, 10, 10, 0).unwrap();
    let prop = approved_proposal(1, ALICE, 1, 300);
    s.settle_start(ALICE, &prop).unwrap();
    let p = s.get_pool(1).unwrap();
    assert_eq!(p.tvl, 700);
    assert_eq!(p.tcp, 300);
    // the debit cannot be run twice
    assert_eq!(s.settle_start(ALICE, &prop), Err(PoolError::SettlementInProgress));
    let rec = s.settlement_status(1).unwrap();
    assert_eq!(rec.claim_amount, 300);
    assert_eq!(rec.step, SettlementStep::Debited);
    // the steps only advance in order
    assert_eq!(s.settle_marked(1), Err(PoolError::SettlementOutOfOrder));
    assert_eq!(s.settle_finish(1), Err(PoolError::SettlementOutOfOrder));
    s.settle_covers_updated(1).unwrap();
    assert_eq!(s.settle_covers_updated(1), Err(PoolError::SettlementOutOfOrder));
    s.settle_marked(1).unwrap();
    assert_eq!(s.settle_finish(1), Ok(300));
    assert!(s.settlement_status(1).is_none());
    assert_eq!(s.settle_covers_updated(1), Err(PoolError::SettlementMissing));
}

#[test]
fn settlement_validates_the_claim() {
    let mut s = fresh_pool_state();
    s.create_pool(OWNER, RiskType::Slashing, "p".to_string(), 365, 10).unwrap();
    s.deposit_commit(ALICE, 1, 1000, 10, 10, 0).unwrap();
    let mut unapproved = approved_proposal(1, ALICE, 1, 300);
    unapproved.status = coverpool::types::ProposalStatus::Pending;
    assert_eq!(
        s.settle_start(ALICE, &unapproved),
        Err(PoolError::ProposalNotApproved)
    );
    let mut executed = approved_proposal(1, ALICE, 1, 300);
    executed.executed = true;
    assert_eq!(
        s.settle_start(ALICE, &executed),
        Err(PoolError::ProposalNotApproved)
    );
    let prop = approved_proposal(1, ALICE, 1, 300);
    assert_eq!(s.settle_start(BOB, &prop), Err(PoolError::NotClaimant));
    let greedy = approved_proposal(2, ALICE, 1, 1001);
    assert_eq!(s.settle_start(ALICE, &greedy), Err(PoolError::InsufficientTvl));
    let lost = approved_proposal(3, ALICE, 9, 10);
    assert_eq!(s.settle_start(ALICE, &lost), Err(PoolError::PoolNotFound));
    s.deactivate_pool(OWNER, 1).unwrap();
    assert_eq!(s.settle_start(ALICE, &prop), Err(PoolError::PoolInactive));
}

#[test]
fn locked_value_and_claims_cover_active_deposits() {
    let mut s = fresh_pool_state();
    s.create_pool(OWNER, RiskType::Slashing, "p".to_string(), 365, 10).unwrap();
    s.deposit_commit(ALICE, 1, 1000, 10, 10, 0).unwrap();
    s.deposit_commit(BOB, 1, 200, 2, 10, 0).unwrap();
    // a withdrawal and a paid claim later, locked value plus claims paid
    // still covers what the active deposits ask for
    s.withdraw_begin(ALICE, 1, 300, 20 * DAY).unwrap();
    s.withdraw_finish(ALICE, 1, true).unwrap();
    let prop = approved_proposal(1, BOB, 1, 150);
    s.settle_start(BOB, &prop).unwrap();
    let p = s.get_pool(1).unwrap();
    let backing = s.get_user_deposit(1, ALICE).unwrap().amount
        + s.get_user_deposit(1, BOB).unwrap().amount;
    assert_eq!(backing, 900);
    assert_eq!(p.tvl, 750);
    assert_eq!(p.tcp, 150);
    assert!(p.tvl + p.tcp >= backing);
}

#[test]
fn claims_can_drain_cover_for_withdrawals() {
    let mut s = fresh_pool_state();
    s.create_pool(OWNER, RiskType::Slashing, "p".to_string(), 365, 10).unwrap();
    s.deposit_commit(ALICE, 1, 1000, 10, 10, 0).unwrap();
    s.deposit_commit(BOB, 1, 50, 0, 10, 0).unwrap();
    // a paid claim shrinks the locked value below Alice's position
    let prop = approved_proposal(1, ALICE, 1, 900);
    s.settle_start(ALICE, &prop).unwrap();
    assert_eq!(s.get_pool_tvl(1), Ok(150));
    assert_eq!(s.withdraw_begin(ALICE, 1, 1000, 20 * DAY), Ok(1000));
    // the books cannot cover the confirmed payout: the gap is surfaced
    assert_eq!(s.withdraw_finish(ALICE, 1, true), Err(PoolError::InsufficientTvl));
}
