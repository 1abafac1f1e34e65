use coverpool::cover::{Cover, CoverError, CoverState};
use coverpool::pool::{Deposit, Pool};
use coverpool::table::Table;
use coverpool::types::{RiskType, Status};

const POOL_SVC: u64 = 1;
const OWNER: u64 = 2;
const GOV_SVC: u64 = 3;
const ASSET: u64 = 4;
const ALICE: u64 = 10;
const BOB: u64 = 11;

const DAY: u64 = 86400;

fn backing_pool(tvl: u128, risk: RiskType) -> Pool {
    Pool {
        pool_name: "p".to_string(),
        risk_type: risk,
        apy: 365,
        min_period: 10,
        tvl,
        tcp: 0,
        is_active: true,
        percentage_split_balance: 100,
        deposits: Table::new(),
    }
}

fn fresh_cover_state() -> CoverState {
    CoverState::new(POOL_SVC, OWNER, GOV_SVC, ASSET)
}

fn create(s: &mut CoverState, id: u64, name: &str, capacity: u128, tvl: u128) {
    let pool = backing_pool(tvl, RiskType::Slashing);
    s.create_cover(
        id,
        "cid".to_string(),
        RiskType::Slashing,
        name.to_string(),
        "chain".to_string(),
        capacity,
        5,
        1,
        &Vec::new(),
        &pool,
    )
    .unwrap();
}

#[test]
fn capacity_is_a_precise_percentage() {
    let mut s = fresh_cover_state();
    // TVL 1,000,000 at 10% capacity insures exactly 100,000
    create(&mut s, 7, "c", 10, 1_000_000);
    let c = s.get_cover_info(7).unwrap();
    assert_eq!(c.capacity_amount, 100_000);
    assert_eq!(c.max_amount, 100_000);
    assert_eq!(c.cover_values, 0);
}

#[test]
fn purchase_respects_headroom() {
    let mut s = fresh_cover_state();
    create(&mut s, 7, "c", 10, 1_000_000);
    // one unit over the headroom is refused and changes nothing
    assert_eq!(
        s.purchase_cover(ALICE, 7, 100_001, 30, 0),
        Err(CoverError::InsufficientCapacity)
    );
    let c = s.get_cover_info(7).unwrap();
    assert_eq!(c.cover_values, 0);
    assert_eq!(c.max_amount, 100_000);
    // the full headroom can be bought, and leaves none
    s.purchase_cover(ALICE, 7, 100_000, 30, 0).unwrap();
    let c = s.get_cover_info(7).unwrap();
    assert_eq!(c.cover_values, 100_000);
    assert_eq!(c.max_amount, 0);
    let info = s.get_user_cover_info(ALICE, 7).unwrap();
    assert_eq!(info.cover_value, 100_000);
    assert_eq!(info.claim_paid, 0);
    assert_eq!(info.end_day, 30 * DAY);
    assert!(info.is_active);
    assert_eq!(s.get_user_participation(ALICE), Ok(1));
    assert_eq!(
        s.purchase_cover(ALICE, 9, 1, 30, 0),
        Err(CoverError::CoverNotFound)
    );
}

#[test]
fn create_cover_rejects_clashes_and_wrong_risk() {
    let mut s = fresh_cover_state();
    let pool = backing_pool(1_000_000, RiskType::Slashing);
    let existing = Cover {
        id: 7,
        cover_name: "taken".to_string(),
        risk_type: RiskType::Slashing,
        chains: "chain".to_string(),
        capacity: 10,
        cost: 5,
        capacity_amount: 0,
        cover_values: 0,
        max_amount: 0,
        pool_id: 1,
        cid: "cid".to_string(),
    };
    let listed = vec![existing];
    let same_name = s.create_cover(
        8,
        "cid".to_string(),
        RiskType::Slashing,
        "taken".to_string(),
        "chain".to_string(),
        10,
        5,
        1,
        &listed,
        &pool,
    );
    assert_eq!(same_name, Err(CoverError::CoverExists));
    let same_id = s.create_cover(
        7,
        "cid".to_string(),
        RiskType::Slashing,
        "fresh".to_string(),
        "chain".to_string(),
        10,
        5,
        1,
        &listed,
        &pool,
    );
    assert_eq!(same_id, Err(CoverError::CoverExists));
    let wrong_risk = s.create_cover(
        8,
        "cid".to_string(),
        RiskType::Stablecoin,
        "fresh".to_string(),
        "chain".to_string(),
        10,
        5,
        1,
        &Vec::new(),
        &pool,
    );
    assert_eq!(wrong_risk, Err(CoverError::RiskMismatch));
}

#[test]
fn update_cover_reports_the_split_adjustment() {
    let mut s = fresh_cover_state();
    create(&mut s, 7, "c", 10, 1_000_000);
    let pool = backing_pool(1_000_000, RiskType::Slashing);
    // capacity 10 -> 4 frees 6 points of budget
    let adj = s
        .update_cover(
            7,
            "c2".to_string(),
            RiskType::Slashing,
            "cid".to_string(),
            "chain".to_string(),
            4,
            5,
            1,
            &Vec::new(),
            &pool,
        )
        .unwrap();
    assert_eq!(adj.pool_id, 1);
    assert!(adj.increase);
    assert_eq!(adj.amount, 6);
    // the derived amounts are recomputed from the pool's current value
    let c = s.get_cover_info(7).unwrap();
    assert_eq!(c.capacity_amount, 40_000);
    assert_eq!(c.max_amount, 40_000);
    // and back again commits the same 6 points
    let back = s
        .update_cover(
            7,
            "c".to_string(),
            RiskType::Slashing,
            "cid".to_string(),
            "chain".to_string(),
            10,
            5,
            1,
            &Vec::new(),
            &pool,
        )
        .unwrap();
    assert!(!back.increase);
    assert_eq!(back.amount, 6);
    let c = s.get_cover_info(7).unwrap();
    assert_eq!(c.capacity_amount, 100_000);
    assert_eq!(c.max_amount, 100_000);
    assert_eq!(
        s.update_cover(
            9,
            "x".to_string(),
            RiskType::Slashing,
            "cid".to_string(),
            "chain".to_string(),
            10,
            5,
            1,
            &Vec::new(),
            &pool,
        ),
        Err(CoverError::CoverNotFound)
    );
}

#[test]
fn update_cover_headroom_reflects_sold_coverage() {
    let mut s = fresh_cover_state();
    create(&mut s, 7, "c", 10, 1_000_000);
    s.purchase_cover(ALICE, 7, 30_000, 30, 0).unwrap();
    let pool = backing_pool(1_000_000, RiskType::Slashing);
    // growing capacity to 20% re-derives both amounts: 200,000 backed,
    // 170,000 still sellable next to the 30,000 sold
    s.update_cover(
        7,
        "c".to_string(),
        RiskType::Slashing,
        "cid".to_string(),
        "chain".to_string(),
        20,
        5,
        1,
        &Vec::new(),
        &pool,
    )
    .unwrap();
    let c = s.get_cover_info(7).unwrap();
    assert_eq!(c.capacity_amount, 200_000);
    assert_eq!(c.cover_values, 30_000);
    assert_eq!(c.max_amount, 170_000);
}

#[test]
fn update_cover_rejects_only_foreign_names() {
    let mut s = fresh_cover_state();
    create(&mut s, 7, "c", 10, 1_000_000);
    let pool = backing_pool(1_000_000, RiskType::Slashing);
    let own_entry = s.get_cover_info(7).unwrap();
    let mut other = s.get_cover_info(7).unwrap();
    other.id = 8;
    other.cover_name = "taken".to_string();
    let listed = vec![own_entry, other];
    // keeping its own name against its own entry is no clash
    s.update_cover(
        7,
        "c".to_string(),
        RiskType::Slashing,
        "cid".to_string(),
        "chain".to_string(),
        12,
        5,
        1,
        &listed,
        &pool,
    )
    .unwrap();
    // another cover's name is
    assert_eq!(
        s.update_cover(
            7,
            "taken".to_string(),
            RiskType::Slashing,
            "cid".to_string(),
            "chain".to_string(),
            12,
            5,
            1,
            &listed,
            &pool,
        ),
        Err(CoverError::CoverExists)
    );
}

#[test]
fn update_cover_refuses_capacity_below_sold() {
    let mut s = fresh_cover_state();
    create(&mut s, 7, "c", 10, 1_000_000);
    s.purchase_cover(ALICE, 7, 50_000, 30, 0).unwrap();
    let pool = backing_pool(1_000_000, RiskType::Slashing);
    // 4% of 1,000,000 backs only 40,000, less than the 50,000 sold
    assert_eq!(
        s.update_cover(
            7,
            "c".to_string(),
            RiskType::Slashing,
            "cid".to_string(),
            "chain".to_string(),
            4,
            5,
            1,
            &Vec::new(),
            &pool,
        ),
        Err(CoverError::CapacityBelowSold)
    );
}

#[test]
fn update_max_amount_tracks_the_pool() {
    let mut s = fresh_cover_state();
    create(&mut s, 7, "c", 10, 1_000_000);
    s.purchase_cover(ALICE, 7, 40_000, 30, 0).unwrap();
    // the pool shrank to 600,000: headroom is 10% of that minus the sold 40,000
    s.update_max_amount(7, 600_000).unwrap();
    let c = s.get_cover_info(7).unwrap();
    assert_eq!(c.capacity_amount, 60_000);
    assert_eq!(c.max_amount, 20_000);
    assert_eq!(s.update_max_amount(9, 1), Err(CoverError::CoverNotFound));
    assert_eq!(
        s.update_max_amount(7, 100_000),
        Err(CoverError::CapacityBelowSold)
    );
    let mut flat = s.get_cover_info(7).unwrap();
    flat.capacity = 0;
    flat.id = 8;
    s.covers.insert(8, flat);
    assert_eq!(s.update_max_amount(8, 1), Err(CoverError::InvalidCapacity));
}

#[test]
fn user_cover_value_shrinks_by_claims_only() {
    let mut s = fresh_cover_state();
    create(&mut s, 7, "c", 10, 1_000_000);
    s.purchase_cover(ALICE, 7, 40_000, 30, 0).unwrap();
    assert_eq!(
        s.update_user_cover_value(ALICE, 7, 40_001),
        Err(CoverError::ClaimExceedsCover)
    );
    s.update_user_cover_value(ALICE, 7, 15_000).unwrap();
    let info = s.get_user_cover_info(ALICE, 7).unwrap();
    assert_eq!(info.cover_value, 25_000);
    assert_eq!(info.claim_paid, 15_000);
    assert_eq!(
        s.update_user_cover_value(BOB, 7, 1),
        Err(CoverError::UserCoverNotFound)
    );
    assert_eq!(
        s.update_user_cover_value(ALICE, 9, 1),
        Err(CoverError::UserCoverNotFound)
    );
}

#[test]
fn expired_positions_are_purged_once() {
    let mut s = fresh_cover_state();
    create(&mut s, 7, "seven", 10, 1_000_000);
    create(&mut s, 8, "eight", 10, 1_000_000);
    s.purchase_cover(ALICE, 7, 10, 5, 0).unwrap();
    s.purchase_cover(ALICE, 8, 10, 50, 0).unwrap();
    assert_eq!(
        s.delete_expired_user_covers(BOB, 0),
        Err(CoverError::NoUserCovers)
    );
    // day 20: the 5-day position is past its end, the 50-day one is not
    s.delete_expired_user_covers(ALICE, 20 * DAY).unwrap();
    assert!(s.get_user_cover_info(ALICE, 7).is_none());
    assert!(s.get_user_cover_info(ALICE, 8).is_some());
    // running it again removes nothing more
    s.delete_expired_user_covers(ALICE, 20 * DAY).unwrap();
    assert_eq!(s.get_all_user_covers(ALICE).unwrap().len(), 1);
}

fn active_deposit(start: u64, expiry: u64, daily: u128) -> Deposit {
    Deposit {
        lp: ALICE,
        amount: 1000,
        pool_id: 1,
        daily_payout: daily,
        status: Status::Active,
        days_left: 10,
        start_date: start,
        expiry_date: expiry,
        accrued_payout: 0,
        pending_withdraw: 0,
    }
}

#[test]
fn payout_accrues_by_whole_days() {
    let mut s = fresh_cover_state();
    // 1,000 at 365% over a 10-day period pays 10 a day: 5 days in, 50 is claimable
    let d = active_deposit(0, 10 * DAY, 10);
    assert_eq!(s.get_deposit_claimable_days(ALICE, 1, &d, 5 * DAY), 5);
    let (amount, until) = s.claim_payout_prepare(ALICE, 1, &d, 5 * DAY).unwrap();
    assert_eq!(amount, 50);
    assert_eq!(until, 5 * DAY);
    s.claim_payout_commit(ALICE, 1, until);
    assert_eq!(s.get_last_claim_time(ALICE, 1), Ok(5 * DAY));
    // nothing more accrues within the same day
    assert_eq!(
        s.claim_payout_prepare(ALICE, 1, &d, 5 * DAY),
        Err(CoverError::NothingClaimable)
    );
    // accrual stops at expiry
    assert_eq!(s.get_deposit_claimable_days(ALICE, 1, &d, 100 * DAY), 5);
    let (amount, until) = s.claim_payout_prepare(ALICE, 1, &d, 100 * DAY).unwrap();
    assert_eq!(amount, 50);
    assert_eq!(until, 10 * DAY);
}

#[test]
fn payout_needs_an_active_deposit() {
    let s = fresh_cover_state();
    let mut d = active_deposit(0, 10 * DAY, 10);
    d.status = Status::Withdrawn;
    assert_eq!(
        s.claim_payout_prepare(ALICE, 1, &d, 5 * DAY),
        Err(CoverError::DepositInactive)
    );
    assert_eq!(s.get_last_claim_time(ALICE, 1), Err(CoverError::NoClaimRecord));
}

#[test]
fn cover_listings() {
    let mut s = fresh_cover_state();
    create(&mut s, 7, "seven", 10, 1_000_000);
    create(&mut s, 8, "eight", 20, 1_000_000);
    let all = s.get_all_available_covers().unwrap();
    assert_eq!(all.len(), 2);
    assert_eq!(all[0].id, 7);
    assert_eq!(all[1].id, 8);
    assert_eq!(all[1].capacity_amount, 200_000);
    assert_eq!(s.get_all_user_covers(ALICE).err(), Some(CoverError::NoUserCovers));
    s.purchase_cover(ALICE, 7, 10, 5, 0).unwrap();
    assert_eq!(s.get_all_user_covers(ALICE).unwrap().len(), 1);
    assert!(s.get_user_cover_info(BOB, 7).is_none());
    assert_eq!(s.get_cover_info(9).err(), Some(CoverError::CoverNotFound));
}

#[test]
fn cover_config_is_owner_gated() {
    let mut s = fresh_cover_state();
    assert_eq!(
        s.update_canister_ids(ALICE, 1, 2, 3),
        Err(CoverError::NotOwner)
    );
    s.update_canister_ids(OWNER, 21, 22, 23).unwrap();
    assert_eq!(
        s.get_canister_ids(),
        (Some(21), Some(22), Some(23), Some(OWNER))
    );
    assert_eq!(s.get_user_participation(BOB), Err(CoverError::NoParticipation));
    assert_eq!(s.get_all_participants(), Ok(vec![]));
}
