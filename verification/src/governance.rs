//! The governance service: claim proposals, weighted voting with one
//! immutable record per voter, and the execute/claim state machine that
//! authorizes settlement.

use crate::roster::{clone_accounts, counted_once_more, Roster};
use crate::table::Table;
use crate::types::{AccountId, Amount, ProposalStatus, Time};
use vstd::prelude::*;

verus! {

/// The claim a proposal asks to settle.
#[derive(Clone, Copy, PartialEq, Eq, Structural, Debug)]
pub struct ProposalParam {
    pub user: AccountId,
    pub cover_id: u64,
    pub pool_id: u64,
    pub claim_amount: Amount,
}

/// One voter's record on one proposal: immutable once written, which is
/// what makes double voting impossible.
#[derive(Clone, Copy, PartialEq, Eq, Structural, Debug)]
pub struct Voter {
    pub voted: bool,
    pub vote: bool,
    /// The voter's token balance at vote time; later balance changes do
    /// not reweigh a cast vote.
    pub weight: Amount,
}

/// A claim proposal with its tallies and lifecycle.
pub struct Proposal {
    pub id: u64,
    pub votes_for: Amount,
    pub votes_against: Amount,
    pub created_at: Time,
    pub deadline: Time,
    pub timeleft: u64,
    pub executed: bool,
    pub status: ProposalStatus,
    pub proposal_param: ProposalParam,
    pub voters_for: Vec<AccountId>,
    pub voters_against: Vec<AccountId>,
}

/// Field-for-field agreement, with the voter lists compared by content.
pub open spec fn same_proposal(a: Proposal, b: Proposal) -> bool {
    &&& a.id == b.id
    &&& a.votes_for == b.votes_for
    &&& a.votes_against == b.votes_against
    &&& a.created_at == b.created_at
    &&& a.deadline == b.deadline
    &&& a.timeleft == b.timeleft
    &&& a.executed == b.executed
    &&& a.status == b.status
    &&& a.proposal_param == b.proposal_param
    &&& a.voters_for@ == b.voters_for@
    &&& a.voters_against@ == b.voters_against@
}

impl Clone for Proposal {
    fn clone(&self) -> (r: Self)
        ensures
            same_proposal(r, *self),
    {
        Proposal {
            id: self.id,
            votes_for: self.votes_for,
            votes_against: self.votes_against,
            created_at: self.created_at,
            deadline: self.deadline,
            timeleft: self.timeleft,
            executed: self.executed,
            status: self.status,
            proposal_param: self.proposal_param,
            voters_for: clone_accounts(&self.voters_for),
            voters_against: clone_accounts(&self.voters_against),
        }
    }
}

/// A proposal the service lists as open: its deadline is unset, or still
/// ahead on a proposal not yet executed.
pub open spec fn proposal_is_active(p: Proposal, now: Time) -> bool {
    p.deadline == 0 || (p.deadline > now && !p.executed)
}

/// A proposal the service lists in its history view: its deadline is
/// unset or still ahead, executed or not.
pub open spec fn proposal_listed_past(p: Proposal, now: Time) -> bool {
    p.deadline == 0 || p.deadline > now
}

/// Some entry of `r` carries the content of `p`.
pub open spec fn listed(r: Seq<Proposal>, p: Proposal) -> bool {
    exists|j: int| 0 <= j < r.len() && same_proposal(#[trigger] r[j], p)
}

/// A listing survives appending more entries.
pub proof fn lemma_listed_push(r: Seq<Proposal>, e: Proposal, p: Proposal)
    requires
        listed(r, p),
    ensures
        listed(r.push(e), p),
{
    let j = choose|j: int| 0 <= j < r.len() && same_proposal(#[trigger] r[j], p);
    assert(r.push(e)[j] == r[j]);
    assert(same_proposal(r.push(e)[j], p));
}

/// `q` carries the content of some proposal of `s` that is open at `now`.
pub open spec fn drawn_from_active(q: Proposal, s: GovState, now: Time) -> bool {
    exists|i: int|
        0 <= i < s.proposals.entries@.len() && proposal_is_active(
            (#[trigger] s.proposals.entries@[i]).1, now) && same_proposal(q,
            s.proposals.entries@[i].1)
}

/// `q` carries the content of some proposal of `s` in the history view.
pub open spec fn drawn_from_past(q: Proposal, s: GovState, now: Time) -> bool {
    exists|i: int|
        0 <= i < s.proposals.entries@.len() && proposal_listed_past(
            (#[trigger] s.proposals.entries@[i]).1, now) && same_proposal(q,
            s.proposals.entries@[i].1)
}

/// What can go wrong in the governance service.
#[derive(Clone, Copy, PartialEq, Eq, Structural, Debug)]
pub enum GovError {
    /// The claim asks for more than the claimant's cover still holds.
    ClaimExceedsCover,
    ProposalNotFound,
    /// This identity already voted on this proposal.
    AlreadyVoted,
    /// The voting period has elapsed.
    VotingClosed,
    /// The caller is not an admin.
    NotAdmin,
    /// This user never took part.
    NoParticipation,
}

/// The default voter reward: one hundred whole tokens at eighteen
/// decimals.
pub const DEFAULT_REWARD: u128 = 100_000_000_000_000_000_000;

/// The governance service's state.
pub struct GovState {
    pub proposals: Table<Proposal>,
    pub proposal_counter: u64,
    /// How long voting stays open, in seconds.
    pub voting_duration: u64,
    /// What each voter on the winning side is minted at execution.
    pub reward_amount: Amount,
    /// Per proposal, each identity's immutable voting record.
    pub voters: Table<Table<Voter>>,
    pub roster: Roster,
    pub admins: Table<bool>,
    pub governance_token: Option<AccountId>,
    pub pool_address: Option<AccountId>,
    pub asset_address: Option<AccountId>,
    pub cover_address: Option<AccountId>,
}

/// `who` has a voting record marked voted on proposal `pid`.
pub open spec fn has_voted(s: GovState, pid: u64, who: AccountId) -> bool {
    &&& s.voters@.contains_key(pid)
    &&& s.voters@[pid]@.contains_key(who)
    &&& s.voters@[pid]@[who].voted
}

/// `who` is an admin of the service.
pub open spec fn is_admin(s: GovState, who: AccountId) -> bool {
    s.admins@.contains_key(who) && s.admins@[who]
}

impl GovState {
    pub open spec fn wf(self) -> bool {
        &&& self.proposals.wf()
        &&& self.voters.wf()
        &&& forall|k: u64| self.voters@.contains_key(k) ==> (#[trigger] self.voters@[k]).wf()
        &&& self.roster.wf()
        &&& self.admins.wf()
    }

    /// Everything but the proposal table and its counter agrees.
    pub open spec fn same_but_proposals(self, o: GovState) -> bool {
        &&& self.voting_duration == o.voting_duration
        &&& self.reward_amount == o.reward_amount
        &&& self.voters@ == o.voters@
        &&& self.roster.participants@ == o.roster.participants@
        &&& self.roster.participation@ == o.roster.participation@
        &&& self.admins@ == o.admins@
        &&& self.governance_token == o.governance_token
        &&& self.pool_address == o.pool_address
        &&& self.asset_address == o.asset_address
        &&& self.cover_address == o.cover_address
    }

    /// A fresh service: the owner is the first admin, voting runs for the
    /// given number of minutes, and the reward starts at its default.
    pub fn new(
        owner: AccountId,
        governance_token: AccountId,
        pool: AccountId,
        voting_duration_minutes: u64,
    ) -> (s: Self)
        requires
            voting_duration_minutes * 60 <= u64::MAX,
        ensures
            s.wf(),
            s.proposals@ == Map::<u64, Proposal>::empty(),
            s.proposal_counter == 0,
            s.voting_duration == voting_duration_minutes * 60,
            s.reward_amount == DEFAULT_REWARD,
            s.voters@ == Map::<u64, Table<Voter>>::empty(),
            s.roster.participants@ == Seq::<AccountId>::empty(),
            s.roster.participation@ == Map::<u64, Amount>::empty(),
            is_admin(s, owner),
            forall|a: AccountId| a != owner ==> !is_admin(s, a),
            s.governance_token == Some(governance_token),
            s.pool_address == Some(pool),
            s.asset_address == None::<AccountId>,
            s.cover_address == None::<AccountId>,
    {
        let mut admins: Table<bool> = Table::new();
        admins.insert(owner, true);
        GovState {
            proposals: Table::new(),
            proposal_counter: 0,
            voting_duration: voting_duration_minutes * 60,
            reward_amount: DEFAULT_REWARD,
            voters: Table::new(),
            roster: Roster::new(),
            admins,
            governance_token: Some(governance_token),
            pool_address: Some(pool),
            asset_address: None,
            cover_address: None,
        }
    }

    /// Registers a claim proposal, checked against the claimant's live
    /// cover value as the cover service reports it.  A proposal opens for
    /// voting at once: it is created pending, with its deadline fixed at
    /// creation time.
    pub fn create_proposal(
        &mut self,
        caller: AccountId,
        params: ProposalParam,
        cover_value: Amount,
        now: Time,
    ) -> (r: Result<(), GovError>)
        requires
            old(self).wf(),
            old(self).proposal_counter < u64::MAX,
            now + old(self).voting_duration <= u64::MAX,
        ensures
            final(self).wf(),
            match r {
                Ok(()) => {
                    &&& params.claim_amount <= cover_value
                    &&& final(self).proposal_counter == old(self).proposal_counter + 1
                    &&& {
                        let pid = (old(self).proposal_counter + 1) as u64;
                        let p = final(self).proposals@[pid];
                        &&& final(self).proposals@ == old(self).proposals@.insert(pid, p)
                        &&& p.id == pid
                        &&& p.votes_for == 0
                        &&& p.votes_against == 0
                        &&& p.created_at == now
                        &&& p.deadline == now + old(self).voting_duration
                        &&& p.timeleft == 0
                        &&& !p.executed
                        &&& p.status == ProposalStatus::Pending
                        &&& p.proposal_param == params
                        &&& p.voters_for@ == Seq::<AccountId>::empty()
                        &&& p.voters_against@ == Seq::<AccountId>::empty()
                    }
                    &&& final(self).roster.participants@ == if old(
                        self).roster.participants@.contains(caller) {
                        old(self).roster.participants@
                    } else {
                        old(self).roster.participants@.push(caller)
                    }
                    &&& final(self).roster.participation@ == old(
                        self).roster.participation@.insert(caller,
                        counted_once_more(old(self).roster.participation@, caller))
                    &&& final(self).voters@ == old(self).voters@
                    &&& final(self).voting_duration == old(self).voting_duration
                    &&& final(self).reward_amount == old(self).reward_amount
                    &&& final(self).admins@ == old(self).admins@
                    &&& final(self).governance_token == old(self).governance_token
                    &&& final(self).pool_address == old(self).pool_address
                    &&& final(self).asset_address == old(self).asset_address
                    &&& final(self).cover_address == old(self).cover_address
                },
                Err(e) => {
                    &&& *final(self) == *old(self)
                    &&& e == GovError::ClaimExceedsCover
                    &&& params.claim_amount > cover_value
                },
            },
    {
        if params.claim_amount > cover_value {
            return Err(GovError::ClaimExceedsCover);
        }
        let pid = self.proposal_counter + 1;
        self.proposal_counter = pid;
        let p = Proposal {
            id: pid,
            votes_for: 0,
            votes_against: 0,
            created_at: now,
            deadline: now + self.voting_duration,
            timeleft: 0,
            executed: false,
            status: ProposalStatus::Pending,
            proposal_param: params,
            voters_for: Vec::new(),
            voters_against: Vec::new(),
        };
        self.proposals.insert(pid, p);
        self.roster.note(caller);
        Ok(())
    }

    /// Casts a vote with the weight the caller's token balance carried at
    /// vote time.  An identity that already holds a voting record on the
    /// proposal is rejected with nothing changed, and a successful vote
    /// leaves such a record, so a second call cannot count twice.
    pub fn vote(
        &mut self,
        caller: AccountId,
        proposal_id: u64,
        in_favor: bool,
        weight: Amount,
        now: Time,
    ) -> (r: Result<(), GovError>)
        requires
            old(self).wf(),
            old(self).proposals@.contains_key(proposal_id) ==> old(self).proposals@[
                proposal_id].votes_for + weight <= u128::MAX && old(self).proposals@[
                proposal_id].votes_against + weight <= u128::MAX,
        ensures
            final(self).wf(),
            match r {
                Ok(()) => {
                    &&& old(self).proposals@.contains_key(proposal_id)
                    &&& !has_voted(*old(self), proposal_id, caller)
                    &&& {
                        let p0 = old(self).proposals@[proposal_id];
                        let p = final(self).proposals@[proposal_id];
                        &&& !(now >= p0.deadline && p0.status != ProposalStatus::Submitted)
                        &&& final(self).proposals@ == old(self).proposals@.insert(proposal_id,
                            p)
                        &&& p.votes_for == if in_favor {
                            p0.votes_for + weight
                        } else {
                            p0.votes_for as int
                        }
                        &&& p.votes_against == if in_favor {
                            p0.votes_against as int
                        } else {
                            p0.votes_against + weight
                        }
                        &&& p.voters_for@ == if in_favor {
                            p0.voters_for@.push(caller)
                        } else {
                            p0.voters_for@
                        }
                        &&& p.voters_against@ == if in_favor {
                            p0.voters_against@
                        } else {
                            p0.voters_against@.push(caller)
                        }
                        &&& p.id == p0.id
                        &&& p.created_at == p0.created_at
                        &&& p.deadline == p0.deadline
                        &&& p.timeleft == p0.timeleft
                        &&& p.executed == p0.executed
                        &&& p.status == p0.status
                        &&& p.proposal_param == p0.proposal_param
                    }
                    &&& final(self).voters@ == old(self).voters@.insert(proposal_id,
                        final(self).voters@[proposal_id])
                    &&& final(self).voters@[proposal_id]@ == (if old(
                        self).voters@.contains_key(proposal_id) {
                        old(self).voters@[proposal_id]@
                    } else {
                        Map::<u64, Voter>::empty()
                    }).insert(caller, Voter { voted: true, vote: in_favor, weight })
                    &&& has_voted(*final(self), proposal_id, caller)
                    &&& final(self).proposal_counter == old(self).proposal_counter
                    &&& final(self).voting_duration == old(self).voting_duration
                    &&& final(self).reward_amount == old(self).reward_amount
                    &&& final(self).roster.participants@ == old(self).roster.participants@
                    &&& final(self).roster.participation@ == old(self).roster.participation@
                    &&& final(self).admins@ == old(self).admins@
                    &&& final(self).governance_token == old(self).governance_token
                    &&& final(self).pool_address == old(self).pool_address
                    &&& final(self).asset_address == old(self).asset_address
                    &&& final(self).cover_address == old(self).cover_address
                },
                Err(e) => {
                    &&& *final(self) == *old(self)
                    &&& match e {
                        GovError::ProposalNotFound => !old(self).proposals@.contains_key(
                            proposal_id),
                        GovError::AlreadyVoted => old(self).proposals@.contains_key(
                            proposal_id) && has_voted(*old(self), proposal_id, caller),
                        GovError::VotingClosed => {
                            let p0 = old(self).proposals@[proposal_id];
                            &&& old(self).proposals@.contains_key(proposal_id)
                            &&& !has_voted(*old(self), proposal_id, caller)
                            &&& now >= p0.deadline
                            &&& p0.status != ProposalStatus::Submitted
                        },
                        _ => false,
                    }
                },
            },
    {
        if !self.proposals.contains(proposal_id) {
            return Err(GovError::ProposalNotFound);
        }
        let voted = match self.voters.get(proposal_id) {
            Some(t) => {
                proof {
                    assert(self.voters@.contains_key(proposal_id));
                }
                match t.get(caller) {
                    Some(v) => v.voted,
                    None => false,
                }
            },
            None => false,
        };
        if voted {
            return Err(GovError::AlreadyVoted);
        }
        let (deadline, status) = match self.proposals.get(proposal_id) {
            Some(p) => (p.deadline, p.status),
            None => {
                return Err(GovError::ProposalNotFound);
            },
        };
        if now >= deadline && status != ProposalStatus::Submitted {
            return Err(GovError::VotingClosed);
        }
        let mut p = match self.proposals.remove(proposal_id) {
            Some(p) => p,
            None => {
                return Err(GovError::ProposalNotFound);
            },
        };
        if in_favor {
            p.votes_for = p.votes_for + weight;
            p.voters_for.push(caller);
        } else {
            p.votes_against = p.votes_against + weight;
            p.voters_against.push(caller);
        }
        self.proposals.insert(proposal_id, p);
        let mut records = match self.voters.remove(proposal_id) {
            Some(t) => t,
            None => Table::new(),
        };
        records.insert(caller, Voter { voted: true, vote: in_favor, weight });
        self.voters.insert(proposal_id, records);
        proof {
            assert(final(self).proposals@ =~= old(self).proposals@.insert(proposal_id,
                final(self).proposals@[proposal_id]));
            assert(final(self).voters@ =~= old(self).voters@.insert(proposal_id,
                final(self).voters@[proposal_id]));
        }
        Ok(())
    }

    /// Admin-gated.  A pending proposal past its deadline and not yet
    /// executed transitions, deterministically: approved exactly when the
    /// weighted votes in favor strictly outnumber those against, rejected
    /// otherwise — a tie rejects.  The voters on the winning side are
    /// returned with the reward each is owed; any other proposal is left
    /// exactly as it was, with no one to reward.
    pub fn execute_proposal(&mut self, caller: AccountId, proposal_id: u64, now: Time) -> (r:
        Result<(Vec<AccountId>, Amount), GovError>)
        requires
            old(self).wf(),
        ensures
            final(self).wf(),
            match r {
                Ok((winners, reward)) => {
                    &&& is_admin(*old(self), caller)
                    &&& old(self).proposals@.contains_key(proposal_id)
                    &&& reward == old(self).reward_amount
                    &&& {
                        let p0 = old(self).proposals@[proposal_id];
                        if p0.status == ProposalStatus::Pending && now > p0.deadline
                            && !p0.executed {
                            let approved = p0.votes_for > p0.votes_against;
                            let p = final(self).proposals@[proposal_id];
                            &&& final(self).proposals@ == old(self).proposals@.insert(
                                proposal_id, p)
                            &&& p.executed
                            &&& p.timeleft == 0
                            &&& p.status == if approved {
                                ProposalStatus::Approved
                            } else {
                                ProposalStatus::Rejected
                            }
                            &&& p.votes_for == p0.votes_for
                            &&& p.votes_against == p0.votes_against
                            &&& p.voters_for@ == p0.voters_for@
                            &&& p.voters_against@ == p0.voters_against@
                            &&& p.id == p0.id
                            &&& p.created_at == p0.created_at
                            &&& p.deadline == p0.deadline
                            &&& p.proposal_param == p0.proposal_param
                            &&& winners@ == if approved {
                                p0.voters_for@
                            } else {
                                p0.voters_against@
                            }
                            &&& final(self).proposal_counter == old(self).proposal_counter
                            &&& final(self).same_but_proposals(*old(self))
                        } else {
                            &&& *final(self) == *old(self)
                            &&& winners@ == Seq::<AccountId>::empty()
                        }
                    }
                },
                Err(e) => {
                    &&& *final(self) == *old(self)
                    &&& match e {
                        GovError::NotAdmin => !is_admin(*old(self), caller),
                        GovError::ProposalNotFound => is_admin(*old(self), caller) && !old(
                            self).proposals@.contains_key(proposal_id),
                        _ => false,
                    }
                },
            },
    {
        let admin = match self.admins.get(caller) {
            Some(b) => *b,
            None => false,
        };
        if !admin {
            return Err(GovError::NotAdmin);
        }
        if !self.proposals.contains(proposal_id) {
            return Err(GovError::ProposalNotFound);
        }
        let reward = self.reward_amount;
        let eligible = match self.proposals.get(proposal_id) {
            Some(p) => p.status == ProposalStatus::Pending && now > p.deadline && !p.executed,
            None => {
                return Err(GovError::ProposalNotFound);
            },
        };
        if !eligible {
            return Ok((Vec::new(), reward));
        }
        let mut p = match self.proposals.remove(proposal_id) {
            Some(p) => p,
            None => {
                return Err(GovError::ProposalNotFound);
            },
        };
        p.executed = true;
        p.timeleft = 0;
        let winners: Vec<AccountId>;
        if p.votes_for > p.votes_against {
            p.status = ProposalStatus::Approved;
            winners = clone_accounts(&p.voters_for);
        } else {
            p.status = ProposalStatus::Rejected;
            winners = clone_accounts(&p.voters_against);
        }
        self.proposals.insert(proposal_id, p);
        proof {
            assert(final(self).proposals@ =~= old(self).proposals@.insert(proposal_id,
                final(self).proposals@[proposal_id]));
        }
        Ok((winners, reward))
    }

    /// Marks a proposal claimed once the pool has settled its funds.  A
    /// missing proposal is a protocol fault, fatal at the boundary.
    pub fn update_proposal_to_claimed(&mut self, proposal_id: u64) -> (r: Result<(), GovError>)
        requires
            old(self).wf(),
        ensures
            final(self).wf(),
            match r {
                Ok(()) => {
                    &&& old(self).proposals@.contains_key(proposal_id)
                    &&& {
                        let p0 = old(self).proposals@[proposal_id];
                        let p = final(self).proposals@[proposal_id];
                        &&& final(self).proposals@ == old(self).proposals@.insert(proposal_id,
                            p)
                        &&& p.status == ProposalStatus::Claimed
                        &&& p.id == p0.id
                        &&& p.votes_for == p0.votes_for
                        &&& p.votes_against == p0.votes_against
                        &&& p.created_at == p0.created_at
                        &&& p.deadline == p0.deadline
                        &&& p.timeleft == p0.timeleft
                        &&& p.executed == p0.executed
                        &&& p.proposal_param == p0.proposal_param
                        &&& p.voters_for@ == p0.voters_for@
                        &&& p.voters_against@ == p0.voters_against@
                    }
                    &&& final(self).proposal_counter == old(self).proposal_counter
                    &&& final(self).same_but_proposals(*old(self))
                },
                Err(e) => {
                    &&& *final(self) == *old(self)
                    &&& e == GovError::ProposalNotFound
                    &&& !old(self).proposals@.contains_key(proposal_id)
                },
            },
    {
        let mut p = match self.proposals.remove(proposal_id) {
            Some(p) => p,
            None => {
                return Err(GovError::ProposalNotFound);
            },
        };
        p.status = ProposalStatus::Claimed;
        self.proposals.insert(proposal_id, p);
        proof {
            assert(final(self).proposals@ =~= old(self).proposals@.insert(proposal_id,
                final(self).proposals@[proposal_id]));
        }
        Ok(())
    }

    pub fn set_voting_duration(&mut self, duration: u64) -> (r: Result<(), GovError>)
        requires
            old(self).wf(),
        ensures
            final(self).wf(),
            r == Ok::<(), GovError>(()),
            *final(self) == (GovState { voting_duration: duration, ..*old(self) }),
    {
        self.voting_duration = duration;
        Ok(())
    }

    pub fn update_reward_amount(&mut self, reward: Amount) -> (r: Result<(), GovError>)
        requires
            old(self).wf(),
        ensures
            final(self).wf(),
            r == Ok::<(), GovError>(()),
            *final(self) == (GovState { reward_amount: reward, ..*old(self) }),
    {
        self.reward_amount = reward;
        Ok(())
    }

    /// Admin-gated: rewires the peer services; a non-admin caller changes
    /// nothing.
    pub fn update_canister_ids(
        &mut self,
        caller: AccountId,
        pool: AccountId,
        cover: AccountId,
        token: AccountId,
    ) -> (r: Result<(), GovError>)
        requires
            old(self).wf(),
        ensures
            final(self).wf(),
            match r {
                Ok(()) => {
                    &&& is_admin(*old(self), caller)
                    &&& *final(self) == GovState {
                        pool_address: Some(pool),
                        cover_address: Some(cover),
                        governance_token: Some(token),
                        ..*old(self)
                    }
                },
                Err(e) => {
                    &&& *final(self) == *old(self)
                    &&& e == GovError::NotAdmin
                    &&& !is_admin(*old(self), caller)
                },
            },
    {
        let admin = match self.admins.get(caller) {
            Some(b) => *b,
            None => false,
        };
        if !admin {
            return Err(GovError::NotAdmin);
        }
        self.pool_address = Some(pool);
        self.cover_address = Some(cover);
        self.governance_token = Some(token);
        Ok(())
    }

    pub fn get_canister_ids(&self) -> (r: (Option<AccountId>, Option<AccountId>, Option<
        AccountId>))
        ensures
            r == (self.pool_address, self.cover_address, self.governance_token),
    {
        (self.pool_address, self.cover_address, self.governance_token)
    }

    pub fn get_proposal_count(&self) -> (r: Result<u64, GovError>)
        ensures
            r == Ok::<u64, GovError>(self.proposal_counter),
    {
        Ok(self.proposal_counter)
    }

    pub fn get_proposal_details(&self, proposal_id: u64) -> (r: Option<Proposal>)
        requires
            self.wf(),
        ensures
            match r {
                Some(p) => self.proposals@.contains_key(proposal_id) && same_proposal(p,
                    self.proposals@[proposal_id]),
                None => !self.proposals@.contains_key(proposal_id),
            },
    {
        match self.proposals.get(proposal_id) {
            Some(p) => Some(p.clone()),
            None => None,
        }
    }

    /// Every proposal, in table order.
    pub fn get_all_proposals(&self) -> (r: Result<Vec<Proposal>, GovError>)
        ensures
            match r {
                Ok(v) => v@.len() == self.proposals.spec_len() && (forall|i: int|
                    0 <= i < v@.len() ==> same_proposal(#[trigger] v@[i],
                        self.proposals.entries@[i].1)),
                Err(_) => false,
            },
    {
        let n = self.proposals.len();
        let mut r: Vec<Proposal> = Vec::new();
        let mut i: usize = 0;
        while i < n
            invariant
                i <= n,
                n == self.proposals.spec_len(),
                r@.len() == i,
                forall|j: int|
                    0 <= j < i ==> same_proposal(#[trigger] r@[j],
                        self.proposals.entries@[j].1),
            decreases n - i,
        {
            let e = self.proposals.entry_at(i);
            r.push(e.1.clone());
            i += 1;
        }
        Ok(r)
    }

    /// The proposals open at `now`: each entry carries one of them, and
    /// every open proposal is carried.
    pub fn get_active_proposals(&self, now: Time) -> (r: Result<Vec<Proposal>, GovError>)
        ensures
            match r {
                Ok(v) => {
                    &&& forall|j: int|
                        0 <= j < v@.len() ==> drawn_from_active(#[trigger] v@[j], *self, now)
                    &&& forall|i: int|
                        0 <= i < self.proposals.spec_len() && proposal_is_active(
                            (#[trigger] self.proposals.entries@[i]).1, now) ==> listed(v@,
                            self.proposals.entries@[i].1)
                },
                Err(_) => false,
            },
    {
        let n = self.proposals.len();
        let mut r: Vec<Proposal> = Vec::new();
        let mut i: usize = 0;
        while i < n
            invariant
                i <= n,
                n == self.proposals.spec_len(),
                forall|j: int|
                    0 <= j < r@.len() ==> drawn_from_active(#[trigger] r@[j], *self, now),
                forall|i2: int|
                    0 <= i2 < i && proposal_is_active(
                        (#[trigger] self.proposals.entries@[i2]).1, now) ==> listed(r@,
                        self.proposals.entries@[i2].1),
            decreases n - i,
        {
            let e = self.proposals.entry_at(i);
            let ghost r0 = r@;
            let ghost es = self.proposals.entries@;
            if e.1.deadline == 0 || (e.1.deadline > now && !e.1.executed) {
                let q = e.1.clone();
                r.push(q);
                proof {
                    assert(same_proposal(r@[r0.len() as int], es[i as int].1));
                    assert forall|j: int| 0 <= j < r@.len() implies drawn_from_active(
                        #[trigger] r@[j], *self, now) by {
                        if j < r0.len() {
                            assert(r@[j] == r0[j]);
                        } else {
                            assert(proposal_is_active(es[i as int].1, now));
                        }
                    }
                    assert forall|i2: int|
                        0 <= i2 < i + 1 && proposal_is_active((#[trigger] es[i2]).1,
                            now) implies listed(r@, es[i2].1) by {
                        if i2 == i {
                            assert(same_proposal(r@[r0.len() as int], es[i2].1));
                        } else {
                            lemma_listed_push(r0, r@[r0.len() as int], es[i2].1);
                        }
                    }
                }
            }
            i += 1;
        }
        Ok(r)
    }

    /// The proposals in the history view at `now`: each entry carries one
    /// of them, and every such proposal is carried.
    pub fn get_past_proposals(&self, now: Time) -> (r: Result<Vec<Proposal>, GovError>)
        ensures
            match r {
                Ok(v) => {
                    &&& forall|j: int|
                        0 <= j < v@.len() ==> drawn_from_past(#[trigger] v@[j], *self, now)
                    &&& forall|i: int|
                        0 <= i < self.proposals.spec_len() && proposal_listed_past(
                            (#[trigger] self.proposals.entries@[i]).1, now) ==> listed(v@,
                            self.proposals.entries@[i].1)
                },
                Err(_) => false,
            },
    {
        let n = self.proposals.len();
        let mut r: Vec<Proposal> = Vec::new();
        let mut i: usize = 0;
        while i < n
            invariant
                i <= n,
                n == self.proposals.spec_len(),
                forall|j: int|
                    0 <= j < r@.len() ==> drawn_from_past(#[trigger] r@[j], *self, now),
                forall|i2: int|
                    0 <= i2 < i && proposal_listed_past(
                        (#[trigger] self.proposals.entries@[i2]).1, now) ==> listed(r@,
                        self.proposals.entries@[i2].1),
            decreases n - i,
        {
            let e = self.proposals.entry_at(i);
            let ghost r0 = r@;
            let ghost es = self.proposals.entries@;
            if e.1.deadline == 0 || e.1.deadline > now {
                let q = e.1.clone();
                r.push(q);
                proof {
                    assert(same_proposal(r@[r0.len() as int], es[i as int].1));
                    assert forall|j: int| 0 <= j < r@.len() implies drawn_from_past(
                        #[trigger] r@[j], *self, now) by {
                        if j < r0.len() {
                            assert(r@[j] == r0[j]);
                        } else {
                            assert(proposal_listed_past(es[i as int].1, now));
                        }
                    }
                    assert forall|i2: int|
                        0 <= i2 < i + 1 && proposal_listed_past((#[trigger] es[i2]).1,
                            now) implies listed(r@, es[i2].1) by {
                        if i2 == i {
                            assert(same_proposal(r@[r0.len() as int], es[i2].1));
                        } else {
                            lemma_listed_push(r0, r@[r0.len() as int], es[i2].1);
                        }
                    }
                }
            }
            i += 1;
        }
        Ok(r)
    }

    pub fn get_all_participants(&self) -> (r: Result<Vec<AccountId>, GovError>)
        ensures
            match r {
                Ok(v) => v@ == self.roster.participants@,
                Err(_) => false,
            },
    {
        Ok(self.roster.all())
    }

    pub fn get_user_participation(&self, user: AccountId) -> (r: Result<Amount, GovError>)
        requires
            self.wf(),
        ensures
            match r {
                Ok(n) => self.roster.participation@.contains_key(user) && n
                    == self.roster.participation@[user],
                Err(e) => e == GovError::NoParticipation
                    && !self.roster.participation@.contains_key(user),
            },
    {
        match self.roster.of(user) {
            Some(n) => Ok(n),
            None => Err(GovError::NoParticipation),
        }
    }

    /// Admin-gated: grants admin standing.
    pub fn add_admin(&mut self, caller: AccountId, new_admin: AccountId) -> (r: Result<(),
        GovError>)
        requires
            old(self).wf(),
        ensures
            final(self).wf(),
            match r {
                Ok(()) => {
                    &&& is_admin(*old(self), caller)
                    &&& final(self).admins@ == old(self).admins@.insert(new_admin, true)
                    &&& is_admin(*final(self), new_admin)
                    &&& final(self).proposals@ == old(self).proposals@
                    &&& final(self).proposals.entries@ == old(self).proposals.entries@
                    &&& final(self).proposal_counter == old(self).proposal_counter
                    &&& final(self).voting_duration == old(self).voting_duration
                    &&& final(self).reward_amount == old(self).reward_amount
                    &&& final(self).voters@ == old(self).voters@
                    &&& final(self).roster.participants@ == old(self).roster.participants@
                    &&& final(self).roster.participation@ == old(self).roster.participation@
                    &&& final(self).governance_token == old(self).governance_token
                    &&& final(self).pool_address == old(self).pool_address
                    &&& final(self).asset_address == old(self).asset_address
                    &&& final(self).cover_address == old(self).cover_address
                },
                Err(e) => {
                    &&& *final(self) == *old(self)
                    &&& e == GovError::NotAdmin
                    &&& !is_admin(*old(self), caller)
                },
            },
    {
        let admin = match self.admins.get(caller) {
            Some(b) => *b,
            None => false,
        };
        if !admin {
            return Err(GovError::NotAdmin);
        }
        self.admins.insert(new_admin, true);
        Ok(())
    }

    /// Admin-gated: wires in the cover service.
    pub fn set_cover(&mut self, caller: AccountId, cover: AccountId) -> (r: Result<(),
        GovError>)
        requires
            old(self).wf(),
        ensures
            final(self).wf(),
            match r {
                Ok(()) => {
                    &&& is_admin(*old(self), caller)
                    &&& *final(self) == GovState { cover_address: Some(cover), ..*old(self) }
                },
                Err(e) => {
                    &&& *final(self) == *old(self)
                    &&& e == GovError::NotAdmin
                    &&& !is_admin(*old(self), caller)
                },
            },
    {
        let admin = match self.admins.get(caller) {
            Some(b) => *b,
            None => false,
        };
        if !admin {
            return Err(GovError::NotAdmin);
        }
        self.cover_address = Some(cover);
        Ok(())
    }
}

} // verus!
