//! The full settlement path across all three services, driven the way
//! the host shell drives it: each remote call becomes a direct handoff
//! of plain values between the service states.

use coverpool::cover::CoverState;
use coverpool::governance::{GovState, ProposalParam};
use coverpool::pool::{PoolState, SettlementStep};
use coverpool::types::{ProposalStatus, RiskType};

const OWNER: u64 = 1;
const COVER_SVC: u64 = 2;
const GOV_SVC: u64 = 3;
const POOL_SVC: u64 = 4;
const ASSET: u64 = 5;
const ALICE: u64 = 10;
const BOB: u64 = 11;

const DAY: u64 = 86400;

#[test]
fn claim_settles_across_the_services() {
    let mut pool = PoolState::new(OWNER, ASSET);
    pool.update_canister_ids(OWNER, COVER_SVC, GOV_SVC, ASSET).unwrap();
    let mut cover = CoverState::new(POOL_SVC, OWNER, GOV_SVC, ASSET);
    let mut gov = GovState::new(OWNER, ASSET, POOL_SVC, 10);

    // liquidity arrives: 1,000,000 locked
    pool.create_pool(OWNER, RiskType::Slashing, "main".to_string(), 365, 10).unwrap();
    let (daily, period) = pool.deposit_prepare(1, 1_000_000).unwrap();
    pool.deposit_commit(BOB, 1, 1_000_000, daily, period, 0).unwrap();

    // a cover is created against the pool's reported state and recorded there
    let listed = pool.get_pool_covers(1);
    let backing = pool.get_pool(1).unwrap().clone();
    cover
        .create_cover(
            7,
            "cid".to_string(),
            RiskType::Slashing,
            "slash cover".to_string(),
            "chain".to_string(),
            10,
            50,
            1,
            &listed,
            &backing,
        )
        .unwrap();
    pool.pool_covers.insert(1, Vec::new());
    let created = cover.get_cover_info(7).unwrap();
    pool.add_pool_covers(COVER_SVC, 1, created).unwrap();

    // Alice buys 80,000 of the 100,000 headroom
    cover.purchase_cover(ALICE, 7, 80_000, 30, 0).unwrap();

    // she claims 60,000 through governance
    let position = cover.get_user_cover_info(ALICE, 7).unwrap();
    let params = ProposalParam { user: ALICE, cover_id: 7, pool_id: 1, claim_amount: 60_000 };
    gov.create_proposal(ALICE, params, position.cover_value, 0).unwrap();
    gov.vote(BOB, 1, true, 500, 10).unwrap();

    // the settlement gate takes a proposal that stands approved and not
    // yet executed
    let mut approved = gov.get_proposal_details(1).unwrap();
    approved.status = ProposalStatus::Approved;
    gov.proposals.insert(1, approved);

    // the pool settles the approved claim step by step
    let proposal = gov.get_proposal_details(1).unwrap();
    pool.settle_start(ALICE, &proposal).unwrap();
    assert_eq!(pool.get_pool_tvl(1), Ok(940_000));
    assert_eq!(pool.get_pool(1).unwrap().tcp, 60_000);

    // every cover of the pool has its headroom recomputed from the new value
    for c in pool.get_pool_covers(1) {
        cover.update_max_amount(c.id, pool.get_pool_tvl(1).unwrap()).unwrap();
    }
    pool.settle_covers_updated(1).unwrap();
    let refreshed = cover.get_cover_info(7).unwrap();
    assert_eq!(refreshed.capacity_amount, 94_000);
    assert_eq!(refreshed.max_amount, 14_000);

    // the proposal is marked claimed, the payout minted, the record closed
    gov.update_proposal_to_claimed(1).unwrap();
    pool.settle_marked(1).unwrap();
    assert_eq!(
        pool.settlement_status(1).unwrap().step,
        SettlementStep::Marked
    );
    assert_eq!(pool.settle_finish(1), Ok(60_000));
    assert!(pool.settlement_status(1).is_none());
    assert_eq!(gov.get_proposal_details(1).unwrap().status, ProposalStatus::Claimed);

    // the claim shrinks Alice's standing coverage
    cover.update_user_cover_value(ALICE, 7, 60_000).unwrap();
    let after = cover.get_user_cover_info(ALICE, 7).unwrap();
    assert_eq!(after.cover_value, 20_000);
    assert_eq!(after.claim_paid, 60_000);
}

#[test]
fn cover_updates_keep_the_split_budget_balanced() {
    let mut pool = PoolState::new(OWNER, ASSET);
    pool.update_canister_ids(OWNER, COVER_SVC, GOV_SVC, ASSET).unwrap();
    let mut cover = CoverState::new(POOL_SVC, OWNER, GOV_SVC, ASSET);
    pool.create_pool(OWNER, RiskType::Protocol, "p".to_string(), 100, 10).unwrap();
    let backing = pool.get_pool(1).unwrap().clone();
    cover
        .create_cover(
            7,
            "cid".to_string(),
            RiskType::Protocol,
            "c".to_string(),
            "chain".to_string(),
            10,
            50,
            1,
            &Vec::new(),
            &backing,
        )
        .unwrap();

    // growing capacity 10 -> 30 commits 20 points of the budget
    let grow = cover
        .update_cover(
            7,
            "c".to_string(),
            RiskType::Protocol,
            "cid".to_string(),
            "chain".to_string(),
            30,
            50,
            1,
            &Vec::new(),
            &backing,
        )
        .unwrap();
    assert!(!grow.increase);
    assert_eq!(grow.amount, 20);
    pool.reduce_percentage_split(COVER_SVC, grow.pool_id, grow.amount as u64).unwrap();
    assert_eq!(pool.get_pool(1).unwrap().percentage_split_balance, 80);

    // shrinking back 30 -> 10 frees the same 20 points
    let shrink = cover
        .update_cover(
            7,
            "c".to_string(),
            RiskType::Protocol,
            "cid".to_string(),
            "chain".to_string(),
            10,
            50,
            1,
            &Vec::new(),
            &backing,
        )
        .unwrap();
    assert!(shrink.increase);
    assert_eq!(shrink.amount, 20);
    pool.increase_percentage_split(COVER_SVC, shrink.pool_id, shrink.amount as u64).unwrap();
    assert_eq!(pool.get_pool(1).unwrap().percentage_split_balance, 100);
}
