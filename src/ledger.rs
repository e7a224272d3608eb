use vstd::prelude::*;

use crate::artwork::{ArtworkState, ArtworkView, InvestError, Investment};
use crate::principal::Principal;

verus! {

/// One artwork's identifier and what is recorded of it.
struct ArtworkRecord {
    artwork_id: Vec<u8>,
    state: ArtworkState,
}

/// The ledger: what is recorded of every artwork, keyed by its identifier.
///
/// An artwork without a record reads as having no investment, no investor
/// and no goal.
pub struct ArtworkInvestmentContract {
    records: Vec<ArtworkRecord>,
    model: Ghost<Map<Seq<u8>, ArtworkView>>,
}

/// A copy of `s`.
fn bytes_of(s: &[u8]) -> (r: Vec<u8>)
    ensures
        r@ == s@,
{
    let mut r: Vec<u8> = Vec::new();
    let mut i: usize = 0;
    while i < s.len()
        invariant
            i <= s@.len(),
            r@ == s@.subrange(0, i as int),
        decreases s@.len() - i,
    {
        r.push(s[i]);
        i = i + 1;
    }
    r
}

/// Whether `a` and `b` hold the same bytes.
fn same_bytes(a: &[u8], b: &[u8]) -> (r: bool)
    ensures
        r == (a@ == b@),
{
    if a.len() != b.len() {
        return false;
    }
    let mut i: usize = 0;
    while i < a.len()
        invariant
            a@.len() == b@.len(),
            i <= a@.len(),
            forall|j: int| 0 <= j < i ==> a@[j] == b@[j],
        decreases a@.len() - i,
    {
        if a[i] != b[i] {
            return false;
        }
        i = i + 1;
    }
    assert(a@ =~= b@);
    true
}

impl View for ArtworkInvestmentContract {
    type V = Map<Seq<u8>, ArtworkView>;

    closed spec fn view(&self) -> Map<Seq<u8>, ArtworkView> {
        self.model@
    }
}

impl ArtworkInvestmentContract {
    /// The records agree with the model, one record per artwork.
    pub closed spec fn wf(&self) -> bool {
        &&& forall|i: int|
            0 <= i < self.records@.len() ==> {
                &&& #[trigger] self.model@.contains_key(self.records@[i].artwork_id@)
                &&& self.model@[self.records@[i].artwork_id@] == self.records@[i].state@
            }
        &&& forall|k: Seq<u8>|
            #[trigger] self.model@.contains_key(k) ==> exists|i: int|
                0 <= i < self.records@.len() && self.records@[i].artwork_id@ == k
        &&& forall|i: int, j: int|
            0 <= i < j < self.records@.len() ==> self.records@[i].artwork_id@
                != self.records@[j].artwork_id@
    }

    /// What is recorded of the artwork `id`.
    pub open spec fn artwork(&self, id: Seq<u8>) -> ArtworkView {
        if self@.contains_key(id) {
            self@[id]
        } else {
            ArtworkView::empty()
        }
    }

    /// An empty ledger.
    pub fn new() -> (r: ArtworkInvestmentContract)
        ensures
            r.wf(),
            r@ == Map::<Seq<u8>, ArtworkView>::empty(),
    {
        ArtworkInvestmentContract { records: Vec::new(), model: Ghost(Map::empty()) }
    }

    /// The position of the record of `id`, if there is one.
    fn find(&self, id: &[u8]) -> (r: Option<usize>)
        requires
            self.wf(),
        ensures
            match r {
                Some(i) => i < self.records@.len() && self.records@[i as int].artwork_id@ == id@,
                None => !self@.contains_key(id@),
            },
    {
        let mut i: usize = 0;
        while i < self.records.len()
            invariant
                self.wf(),
                i <= self.records@.len(),
                forall|j: int| 0 <= j < i ==> self.records@[j].artwork_id@ != id@,
            decreases self.records@.len() - i,
        {
            if same_bytes(self.records[i].artwork_id.as_slice(), id) {
                return Some(i);
            }
            i = i + 1;
        }
        None
    }

    /// A copy of what is recorded of the artwork `id`.
    fn state_of(&self, id: &[u8]) -> (r: ArtworkState)
        requires
            self.wf(),
        ensures
            r@ == self.artwork(id@),
    {
        match self.find(id) {
            Some(i) => self.records[i].state.clone(),
            None => ArtworkState::new(),
        }
    }

    /// Records `state` as what is known of the artwork `id`.
    fn put(&mut self, id: &[u8], state: ArtworkState)
        requires
            old(self).wf(),
        ensures
            final(self).wf(),
            final(self)@ == old(self)@.insert(id@, state@),
    {
        let ghost new_model = self.model@.insert(id@, state@);
        match self.find(id) {
            Some(i) => {
                let ghost before = self.records@;
                self.records.set(i, ArtworkRecord { artwork_id: bytes_of(id), state });
                proof {
                    self.model@ = new_model;
                    assert(self.records@ == before.update(i as int, self.records@[i as int]));
                    assert forall|j: int| 0 <= j < self.records@.len() && j != i implies self.records@[j]
                        == before[j] && self.records@[j].artwork_id@ != id@ by {}
                    assert forall|k: Seq<u8>| #[trigger] self.model@.contains_key(k) implies exists|
                        j: int,
                    | 0 <= j < self.records@.len() && self.records@[j].artwork_id@ == k by {
                        let j = choose|j: int| 0 <= j < before.len() && before[j].artwork_id@ == k;
                        assert(self.records@[j].artwork_id@ == k);
                    }
                }
            },
            None => {
                self.records.push(ArtworkRecord { artwork_id: bytes_of(id), state });
                proof {
                    self.model@ = new_model;
                    let n = self.records@.len() - 1;
                    assert(self.records@[n].artwork_id@ == id@);
                    assert forall|k: Seq<u8>| #[trigger] self.model@.contains_key(k) implies exists|
                        j: int,
                    | 0 <= j < self.records@.len() && self.records@[j].artwork_id@ == k by {
                        if k == id@ {
                            assert(self.records@[n].artwork_id@ == k);
                        } else {
                            let j = choose|j: int|
                                0 <= j < old(self).records@.len() && old(self).records@[j].artwork_id@
                                    == k;
                            assert(self.records@[j] == old(self).records@[j]);
                        }
                    }
                }
            },
        }
    }

    /// Records that `investor` invests `amount` in the artwork `artwork_id`,
    /// where `authorized` tells whether the investor's authorization was
    /// proven. The total grows by `amount` and `investor` becomes the latest
    /// investor. An unauthorized attempt, or one whose total would exceed
    /// `u32::MAX`, is refused and changes nothing.
    pub fn invest(
        &mut self,
        artwork_id: &[u8],
        investor: Principal,
        amount: u32,
        authorized: bool,
    ) -> (r: Result<(), InvestError>)
        requires
            old(self).wf(),
        ensures
            final(self).wf(),
            match old(self).artwork(artwork_id@).invest_error(amount, authorized) {
                Some(e) => r == Err::<(), InvestError>(e) && final(self)@ == old(self)@,
                None => r == Ok::<(), InvestError>(()) && final(self)@ == old(self)@.insert(
                    artwork_id@,
                    old(self).artwork(artwork_id@).after_invest(investor@, amount),
                ),
            },
            final(self).artwork(artwork_id@) == old(self).artwork(artwork_id@).apply(
                (Investment { investor: investor@, amount, authorized }),
            ),
            forall|k: Seq<u8>|
                k != artwork_id@ ==> #[trigger] final(self).artwork(k) == old(self).artwork(k),
    {
        if !authorized {
            return Err(InvestError::Unauthorized);
        }
        let mut state = self.state_of(artwork_id);
        let result = state.invest(investor, amount, authorized);
        if result.is_ok() {
            self.put(artwork_id, state);
        }
        result
    }

    /// Sets the funding goal of the artwork `artwork_id` to `goal`, unless a
    /// goal is already set: the first goal set stays, and a later request
    /// changes nothing.
    pub fn set_funding_goal(&mut self, artwork_id: &[u8], goal: u32)
        requires
            old(self).wf(),
        ensures
            final(self).wf(),
            old(self).artwork(artwork_id@).funding_goal is Some ==> final(self)@ == old(self)@,
            final(self)@ == old(self)@.insert(
                artwork_id@,
                old(self).artwork(artwork_id@).with_goal(goal),
            ),
            final(self).artwork(artwork_id@) == old(self).artwork(artwork_id@).with_goal(goal),
            forall|k: Seq<u8>|
                k != artwork_id@ ==> #[trigger] final(self).artwork(k) == old(self).artwork(k),
    {
        let mut state = self.state_of(artwork_id);
        state.set_funding_goal(goal);
        self.put(artwork_id, state);
    }

    /// The total invested in the artwork `artwork_id`; 0 if nobody has
    /// invested in it.
    pub fn get_total_invested(&self, artwork_id: &[u8]) -> (r: u32)
        requires
            self.wf(),
        ensures
            r == self.artwork(artwork_id@).total_invested,
    {
        match self.find(artwork_id) {
            Some(i) => self.records[i].state.total_invested,
            None => 0,
        }
    }

    /// The latest investor in the artwork `artwork_id`, or `None` if nobody
    /// has invested in it.
    pub fn get_last_investor(&self, artwork_id: &[u8]) -> (r: Option<Principal>)
        requires
            self.wf(),
        ensures
            match r {
                Some(p) => self.artwork(artwork_id@).last_investor == Some(p@),
                None => self.artwork(artwork_id@).last_investor is None,
            },
    {
        match self.find(artwork_id) {
            Some(i) => self.records[i].state.last_investor(),
            None => None,
        }
    }

    /// True iff a funding goal is set for the artwork `artwork_id` and the
    /// total invested in it has reached that goal.
    pub fn is_fully_funded(&self, artwork_id: &[u8]) -> (r: bool)
        requires
            self.wf(),
        ensures
            r == self.artwork(artwork_id@).funded(),
    {
        match self.find(artwork_id) {
            Some(i) => self.records[i].state.is_fully_funded(),
            None => false,
        }
    }
}

} // verus!
