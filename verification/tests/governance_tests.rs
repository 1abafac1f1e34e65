use coverpool::governance::{GovError, GovState, ProposalParam, DEFAULT_REWARD};
use coverpool::types::ProposalStatus;

const OWNER: u64 = 1;
const TOKEN: u64 = 2;
const POOL_SVC: u64 = 3;
const ALICE: u64 = 10;
const BOB: u64 = 11;
const CARA: u64 = 12;

fn fresh_gov() -> GovState {
    // voting stays open for 10 minutes = 600 seconds
    GovState::new(OWNER, TOKEN, POOL_SVC, 10)
}

fn claim(user: u64, amount: u128) -> ProposalParam {
    ProposalParam { user, cover_id: 7, pool_id: 1, claim_amount: amount }
}

#[test]
fn proposal_opens_pending_with_deadline() {
    let mut s = fresh_gov();
    assert_eq!(
        s.create_proposal(ALICE, claim(ALICE, 5_000), 4_000, 100),
        Err(GovError::ClaimExceedsCover)
    );
    s.create_proposal(ALICE, claim(ALICE, 5_000), 5_000, 100).unwrap();
    assert_eq!(s.get_proposal_count(), Ok(1));
    let p = s.get_proposal_details(1).unwrap();
    assert_eq!(p.status, ProposalStatus::Pending);
    assert_eq!(p.created_at, 100);
    assert_eq!(p.deadline, 700);
    assert_eq!(p.votes_for, 0);
    assert_eq!(p.votes_against, 0);
    assert!(!p.executed);
    assert!(s.get_proposal_details(2).is_none());
    assert_eq!(s.get_user_participation(ALICE), Ok(1));
}

#[test]
fn a_voter_counts_once() {
    let mut s = fresh_gov();
    s.create_proposal(ALICE, claim(ALICE, 100), 100, 0).unwrap();
    s.vote(BOB, 1, true, 40, 10).unwrap();
    let p = s.get_proposal_details(1).unwrap();
    assert_eq!(p.votes_for, 40);
    assert_eq!(p.voters_for, vec![BOB]);
    // the second vote of the same identity changes no tally
    assert_eq!(s.vote(BOB, 1, true, 40, 20), Err(GovError::AlreadyVoted));
    assert_eq!(s.vote(BOB, 1, false, 99, 20), Err(GovError::AlreadyVoted));
    let p = s.get_proposal_details(1).unwrap();
    assert_eq!(p.votes_for, 40);
    assert_eq!(p.votes_against, 0);
    assert_eq!(p.voters_for, vec![BOB]);
    assert!(p.voters_against.is_empty());
    // others still can, on either side
    s.vote(CARA, 1, false, 15, 20).unwrap();
    let p = s.get_proposal_details(1).unwrap();
    assert_eq!(p.votes_against, 15);
    assert_eq!(p.voters_against, vec![CARA]);
    assert_eq!(s.vote(ALICE, 9, true, 1, 0), Err(GovError::ProposalNotFound));
    // past the deadline no vote is taken
    assert_eq!(s.vote(ALICE, 1, true, 1, 700), Err(GovError::VotingClosed));
}

#[test]
fn execute_decides_by_strict_majority() {
    let mut s = fresh_gov();
    s.create_proposal(ALICE, claim(ALICE, 100), 100, 0).unwrap();
    s.vote(BOB, 1, true, 40, 10).unwrap();
    s.vote(CARA, 1, false, 15, 10).unwrap();
    assert_eq!(s.execute_proposal(ALICE, 1, 1000), Err(GovError::NotAdmin));
    // before the deadline the proposal is left alone
    let (winners, _) = s.execute_proposal(OWNER, 1, 500).unwrap();
    assert!(winners.is_empty());
    assert_eq!(s.get_proposal_details(1).unwrap().status, ProposalStatus::Pending);
    // past it, 40 for beats 15 against
    let (winners, reward) = s.execute_proposal(OWNER, 1, 1000).unwrap();
    assert_eq!(winners, vec![BOB]);
    assert_eq!(reward, DEFAULT_REWARD);
    let p = s.get_proposal_details(1).unwrap();
    assert_eq!(p.status, ProposalStatus::Approved);
    assert!(p.executed);
    // running it again is a no-op: same status, nobody rewarded again
    let (winners, _) = s.execute_proposal(OWNER, 1, 2000).unwrap();
    assert!(winners.is_empty());
    assert_eq!(s.get_proposal_details(1).unwrap().status, ProposalStatus::Approved);
    assert_eq!(s.execute_proposal(OWNER, 9, 0), Err(GovError::ProposalNotFound));
}

#[test]
fn a_tie_rejects() {
    let mut s = fresh_gov();
    s.create_proposal(ALICE, claim(ALICE, 100), 100, 0).unwrap();
    s.vote(BOB, 1, true, 25, 10).unwrap();
    s.vote(CARA, 1, false, 25, 10).unwrap();
    let (winners, _) = s.execute_proposal(OWNER, 1, 1000).unwrap();
    assert_eq!(winners, vec![CARA]);
    assert_eq!(s.get_proposal_details(1).unwrap().status, ProposalStatus::Rejected);
}

#[test]
fn claimed_marking_and_settings() {
    let mut s = fresh_gov();
    s.create_proposal(ALICE, claim(ALICE, 100), 100, 0).unwrap();
    s.update_proposal_to_claimed(1).unwrap();
    assert_eq!(s.get_proposal_details(1).unwrap().status, ProposalStatus::Claimed);
    assert_eq!(s.update_proposal_to_claimed(9), Err(GovError::ProposalNotFound));
    s.set_voting_duration(60).unwrap();
    assert_eq!(s.voting_duration, 60);
    s.update_reward_amount(7).unwrap();
    assert_eq!(s.reward_amount, 7);
}

#[test]
fn admins_are_granted_by_admins() {
    let mut s = fresh_gov();
    assert_eq!(s.add_admin(BOB, BOB), Err(GovError::NotAdmin));
    s.add_admin(OWNER, BOB).unwrap();
    s.set_cover(BOB, 77).unwrap();
    assert_eq!(s.update_canister_ids(CARA, 1, 2, 3), Err(GovError::NotAdmin));
    s.update_canister_ids(BOB, 31, 32, 33).unwrap();
    assert_eq!(s.get_canister_ids(), (Some(31), Some(32), Some(33)));
}

#[test]
fn proposal_listings_follow_the_deadline() {
    let mut s = fresh_gov();
    s.create_proposal(ALICE, claim(ALICE, 100), 100, 0).unwrap();
    s.create_proposal(BOB, claim(BOB, 50), 50, 1000).unwrap();
    assert_eq!(s.get_all_proposals().unwrap().len(), 2);
    // at time 800 the first deadline (600) has passed, the second (1600) has not
    let active = s.get_active_proposals(800).unwrap();
    assert_eq!(active.len(), 1);
    assert_eq!(active[0].id, 2);
    let listed = s.get_past_proposals(800).unwrap();
    assert_eq!(listed.len(), 1);
    assert_eq!(listed[0].id, 2);
    // an executed proposal is no longer active even before its deadline
    s.vote(CARA, 2, true, 5, 1100).unwrap();
    let mut p = s.get_proposal_details(2).unwrap();
    p.executed = true;
    s.proposals.insert(2, p);
    assert!(s.get_active_proposals(800).unwrap().is_empty());
    assert_eq!(s.get_past_proposals(800).unwrap().len(), 1);
}
