use vstd::prelude::*;

use crate::principal::Principal;

verus! {

/// Why an investment was refused. The state is left as it was in either case.
#[derive(Debug, Clone, Copy, PartialEq, Eq, Structural)]
pub enum InvestError {
    /// The investor's authorization could not be proven.
    Unauthorized,
    /// The new total would exceed `u32::MAX`.
    Overflow,
}

/// What is recorded of one artwork, in the abstract: the running total, the
/// address of the latest investor and the funding goal, if any.
pub struct ArtworkView {
    pub total_invested: u32,
    pub last_investor: Option<Seq<u8>>,
    pub funding_goal: Option<u32>,
}

/// One attempt to invest: who invests, how much, and whether the investor's
/// authorization was proven.
pub struct Investment {
    pub investor: Seq<u8>,
    pub amount: u32,
    pub authorized: bool,
}

impl ArtworkView {
    /// The record of an artwork that nobody has touched yet.
    pub open spec fn empty() -> ArtworkView {
        ArtworkView { total_invested: 0, last_investor: None, funding_goal: None }
    }

    /// True iff a goal has been set and the total has reached it.
    pub open spec fn funded(self) -> bool {
        match self.funding_goal {
            Some(goal) => self.total_invested >= goal,
            None => false,
        }
    }

    /// The reason an investment of `amount` would be refused, if any:
    /// authorization is checked first, then the new total's range.
    pub open spec fn invest_error(self, amount: u32, authorized: bool) -> Option<InvestError> {
        if !authorized {
            Some(InvestError::Unauthorized)
        } else if self.total_invested + amount > u32::MAX {
            Some(InvestError::Overflow)
        } else {
            None
        }
    }

    /// The record after `investor` has invested `amount`.
    pub open spec fn after_invest(self, investor: Seq<u8>, amount: u32) -> ArtworkView {
        ArtworkView {
            total_invested: (self.total_invested + amount) as u32,
            last_investor: Some(investor),
            funding_goal: self.funding_goal,
        }
    }

    /// The record after one attempt: changed if it is accepted, as it was if not.
    pub open spec fn apply(self, inv: Investment) -> ArtworkView {
        if self.invest_error(inv.amount, inv.authorized) is None {
            self.after_invest(inv.investor, inv.amount)
        } else {
            self
        }
    }

    /// The record after a request to set the goal: the first goal set stays.
    pub open spec fn with_goal(self, goal: u32) -> ArtworkView {
        match self.funding_goal {
            Some(_) => self,
            None => ArtworkView { funding_goal: Some(goal), ..self },
        }
    }
}

/// The record after the attempts of `invs`, made in order.
pub open spec fn replay(start: ArtworkView, invs: Seq<Investment>) -> ArtworkView
    decreases invs.len(),
{
    if invs.len() == 0 {
        start
    } else {
        replay(start, invs.drop_last()).apply(invs.last())
    }
}

/// The sum of the amounts of `invs`.
pub open spec fn sum_of_amounts(invs: Seq<Investment>) -> int
    decreases invs.len(),
{
    if invs.len() == 0 {
        0
    } else {
        sum_of_amounts(invs.drop_last()) + invs.last().amount
    }
}

/// What is recorded of one artwork.
pub struct ArtworkState {
    pub total_invested: u32,
    pub last_investor: Option<Principal>,
    pub funding_goal: Option<u32>,
}

impl View for ArtworkState {
    type V = ArtworkView;

    open spec fn view(&self) -> ArtworkView {
        ArtworkView {
            total_invested: self.total_invested,
            last_investor: match self.last_investor {
                Some(p) => Some(p@),
                None => None,
            },
            funding_goal: self.funding_goal,
        }
    }
}

impl Clone for ArtworkState {
    fn clone(&self) -> (r: Self)
        ensures
            r@ == self@,
    {
        let last_investor = match &self.last_investor {
            Some(p) => Some(p.clone()),
            None => None,
        };
        ArtworkState {
            total_invested: self.total_invested,
            last_investor,
            funding_goal: self.funding_goal,
        }
    }
}

impl ArtworkState {
    /// The state of an artwork with no investment and no goal.
    pub fn new() -> (r: ArtworkState)
        ensures
            r@ == ArtworkView::empty(),
    {
        ArtworkState { total_invested: 0, last_investor: None, funding_goal: None }
    }

    /// Records that `investor` invests `amount`, where `authorized` tells
    /// whether the investor's authorization was proven. A refused attempt
    /// changes nothing.
    pub fn invest(&mut self, investor: Principal, amount: u32, authorized: bool) -> (r: Result<
        (),
        InvestError,
    >)
        ensures
            match old(self)@.invest_error(amount, authorized) {
                Some(e) => r == Err::<(), InvestError>(e) && final(self)@ == old(self)@,
                None => r == Ok::<(), InvestError>(()) && final(self)@ == old(self)@.after_invest(
                    investor@,
                    amount,
                ),
            },
            final(self)@ == old(self)@.apply(
                (Investment { investor: investor@, amount, authorized }),
            ),
    {
        if !authorized {
            return Err(InvestError::Unauthorized);
        }
        match self.total_invested.checked_add(amount) {
            Some(total) => {
                self.total_invested = total;
                self.last_investor = Some(investor);
                Ok(())
            },
            None => Err(InvestError::Overflow),
        }
    }

    /// Sets the funding goal unless one is already set, in which case
    /// nothing changes.
    pub fn set_funding_goal(&mut self, goal: u32)
        ensures
            final(self)@ == old(self)@.with_goal(goal),
    {
        if self.funding_goal.is_none() {
            self.funding_goal = Some(goal);
        }
    }

    /// True iff a goal is set and the total has reached it.
    pub fn is_fully_funded(&self) -> (r: bool)
        ensures
            r == self@.funded(),
    {
        match self.funding_goal {
            Some(goal) => self.total_invested >= goal,
            None => false,
        }
    }

    /// The latest investor, if anybody has invested.
    pub fn last_investor(&self) -> (r: Option<Principal>)
        ensures
            r matches Some(p) ==> self@.last_investor == Some(p@),
            r is None <==> self@.last_investor is None,
    {
        match &self.last_investor {
            Some(p) => Some(p.clone()),
            None => None,
        }
    }
}

} // verus!
