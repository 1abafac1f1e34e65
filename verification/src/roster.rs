//! Participation bookkeeping shared by the three services: the list of
//! accounts that ever took part, and how many times each did.

use crate::table::Table;
use crate::types::{AccountId, Amount};
use vstd::prelude::*;

verus! {

/// True membership test on a vector of account numbers.
pub fn contains_account(v: &Vec<AccountId>, x: AccountId) -> (b: bool)
    ensures
        b == v@.contains(x),
{
    let n = v.len();
    let mut i: usize = 0;
    while i < n
        invariant
            i <= n,
            n == v@.len(),
            forall|j: int| 0 <= j < i ==> v@[j] != x,
        decreases n - i,
    {
        if v[i] == x {
            return true;
        }
        i += 1;
    }
    false
}

/// An element-for-element copy of a vector of account numbers.
pub fn clone_accounts(v: &Vec<AccountId>) -> (r: Vec<AccountId>)
    ensures
        r@ == v@,
{
    let n = v.len();
    let mut r: Vec<AccountId> = Vec::new();
    let mut i: usize = 0;
    while i < n
        invariant
            i <= n,
            n == v@.len(),
            r@ == v@.subrange(0, i as int),
        decreases n - i,
    {
        r.push(v[i]);
        proof {
            assert(r@ =~= v@.subrange(0, i + 1));
        }
        i += 1;
    }
    proof {
        assert(r@ =~= v@);
    }
    r
}

/// The participation count after one more appearance of `c`: a fresh
/// account starts at one; an existing count grows by one, pinned at the
/// numeric ceiling.
pub open spec fn counted_once_more(m: Map<u64, Amount>, c: AccountId) -> Amount {
    if m.contains_key(c) {
        if m[c] == u128::MAX {
            m[c]
        } else {
            (m[c] + 1) as Amount
        }
    } else {
        1
    }
}

/// Who has taken part, and how often.
pub struct Roster {
    pub participants: Vec<AccountId>,
    pub participation: Table<Amount>,
}

impl Roster {
    pub open spec fn wf(self) -> bool {
        self.participation.wf()
    }

    pub fn new() -> (r: Self)
        ensures
            r.wf(),
            r.participants@ == Seq::<AccountId>::empty(),
            r.participation@ == Map::<u64, Amount>::empty(),
    {
        Roster { participants: Vec::new(), participation: Table::new() }
    }

    /// Records one appearance of `c`: first appearances join the list,
    /// and the count of `c` rises by one.
    pub fn note(&mut self, c: AccountId)
        requires
            old(self).wf(),
        ensures
            final(self).wf(),
            final(self).participants@ == if old(self).participants@.contains(c) {
                old(self).participants@
            } else {
                old(self).participants@.push(c)
            },
            final(self).participation@ == old(self).participation@.insert(c,
                counted_once_more(old(self).participation@, c)),
    {
        if !contains_account(&self.participants, c) {
            self.participants.push(c);
        }
        let count = match self.participation.get(c) {
            Some(n) => if *n == u128::MAX {
                *n
            } else {
                *n + 1
            },
            None => 1,
        };
        self.participation.insert(c, count);
    }

    /// Everyone who ever took part.
    pub fn all(&self) -> (r: Vec<AccountId>)
        ensures
            r@ == self.participants@,
    {
        clone_accounts(&self.participants)
    }

    /// How often `user` took part, if ever.
    pub fn of(&self, user: AccountId) -> (r: Option<Amount>)
        requires
            self.wf(),
        ensures
            match r {
                Some(n) => self.participation@.contains_key(user) && n == self.participation@[
                    user],
                None => !self.participation@.contains_key(user),
            },
    {
        match self.participation.get(user) {
            Some(n) => Some(*n),
            None => None,
        }
    }
}

} // verus!
