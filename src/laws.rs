use vstd::prelude::*;

use crate::artwork::{replay, sum_of_amounts, ArtworkView, Investment};

verus! {

/// Replaying `a` and then `b` is replaying `a + b`.
pub proof fn lemma_replay_concat(start: ArtworkView, a: Seq<Investment>, b: Seq<Investment>)
    ensures
        replay(start, a + b) == replay(replay(start, a), b),
    decreases b.len(),
{
    if b.len() > 0 {
        assert((a + b).drop_last() =~= a + b.drop_last());
        lemma_replay_concat(start, a, b.drop_last());
    } else {
        assert(a + b =~= a);
    }
}

/// The sum of the amounts of `a + b` is the sum over `a` plus the sum over `b`.
pub proof fn lemma_sum_concat(a: Seq<Investment>, b: Seq<Investment>)
    ensures
        sum_of_amounts(a + b) == sum_of_amounts(a) + sum_of_amounts(b),
    decreases b.len(),
{
    if b.len() > 0 {
        assert((a + b).drop_last() =~= a + b.drop_last());
        lemma_sum_concat(a, b.drop_last());
    } else {
        assert(a + b =~= a);
    }
}

/// Starting from an untouched artwork, authorized investments whose amounts
/// add up to at most `u32::MAX` are all accepted, and the total is then
/// exactly the sum of their amounts.
pub proof fn lemma_total_is_sum(invs: Seq<Investment>)
    requires
        forall|j: int| 0 <= j < invs.len() ==> (#[trigger] invs[j]).authorized,
        sum_of_amounts(invs) <= u32::MAX,
    ensures
        replay(ArtworkView::empty(), invs).total_invested == sum_of_amounts(invs),
    decreases invs.len(),
{
    if invs.len() > 0 {
        let prefix = invs.drop_last();
        assert forall|j: int| 0 <= j < prefix.len() implies (#[trigger] prefix[j]).authorized by {
            assert(prefix[j] == invs[j]);
        }
        assert(invs[invs.len() - 1].authorized);
        lemma_total_is_sum(prefix);
    }
}

/// Removing the attempt at `k` takes its amount off the sum.
pub proof fn lemma_sum_remove(invs: Seq<Investment>, k: int)
    requires
        0 <= k < invs.len(),
    ensures
        sum_of_amounts(invs) == sum_of_amounts(invs.remove(k)) + invs[k].amount,
{
    let front = invs.subrange(0, k);
    let back = invs.subrange(k + 1, invs.len() as int);
    assert(invs =~= front + seq![invs[k]] + back);
    assert(invs.remove(k) =~= front + back);
    lemma_sum_concat(front + seq![invs[k]], back);
    lemma_sum_concat(front, seq![invs[k]]);
    lemma_sum_concat(front, back);
    assert(seq![invs[k]].drop_last() =~= Seq::<Investment>::empty());
    assert(sum_of_amounts(Seq::<Investment>::empty()) == 0);
    assert(sum_of_amounts(seq![invs[k]]) == invs[k].amount);
}

/// Reordering attempts does not change the sum of their amounts.
pub proof fn lemma_sum_reordered(a: Seq<Investment>, b: Seq<Investment>)
    requires
        a.to_multiset() == b.to_multiset(),
    ensures
        sum_of_amounts(a) == sum_of_amounts(b),
    decreases a.len(),
{
    broadcast use vstd::seq_lib::group_to_multiset_ensures;
    broadcast use vstd::multiset::group_multiset_axioms;

    if a.len() == 0 {
        assert(b.to_multiset().len() == 0);
    } else {
        let x = a.last();
        let rest = a.drop_last();
        assert(a =~= rest.push(x));
        assert(a.to_multiset().count(x) > 0);
        assert(b.contains(x));
        let k = choose|k: int| 0 <= k < b.len() && b[k] == x;
        assert(b.remove(k).to_multiset() =~= rest.to_multiset());
        lemma_sum_reordered(rest, b.remove(k));
        lemma_sum_remove(b, k);
    }
}

/// The total does not depend on the order of the investments: starting from
/// an untouched artwork, the same authorized investments made in any order
/// give the same total, the sum of their amounts.
pub proof fn lemma_total_ignores_order(a: Seq<Investment>, b: Seq<Investment>)
    requires
        forall|j: int| 0 <= j < a.len() ==> (#[trigger] a[j]).authorized,
        a.to_multiset() == b.to_multiset(),
        sum_of_amounts(a) <= u32::MAX,
    ensures
        replay(ArtworkView::empty(), a).total_invested == replay(
            ArtworkView::empty(),
            b,
        ).total_invested,
        replay(ArtworkView::empty(), b).total_invested == sum_of_amounts(a),
{
    broadcast use vstd::seq_lib::group_to_multiset_ensures;

    lemma_sum_reordered(a, b);
    assert forall|j: int| 0 <= j < b.len() implies (#[trigger] b[j]).authorized by {
        assert(b.contains(b[j]));
        assert(a.to_multiset().count(b[j]) > 0);
        assert(a.contains(b[j]));
    }
    lemma_total_is_sum(a);
    lemma_total_is_sum(b);
}

/// Refused attempts change nothing: if every attempt of `invs` would be
/// refused from `v`, replaying them leaves `v` as it was.
pub proof fn lemma_refused_attempts_change_nothing(v: ArtworkView, invs: Seq<Investment>)
    requires
        forall|j: int|
            0 <= j < invs.len() ==> v.invest_error((#[trigger] invs[j]).amount, invs[j].authorized)
                is Some,
    ensures
        replay(v, invs) == v,
    decreases invs.len(),
{
    if invs.len() > 0 {
        let prefix = invs.drop_last();
        assert forall|j: int| 0 <= j < prefix.len() implies v.invest_error(
            (#[trigger] prefix[j]).amount,
            prefix[j].authorized,
        ) is Some by {
            assert(prefix[j] == invs[j]);
        }
        lemma_refused_attempts_change_nothing(v, prefix);
        assert(v.invest_error(invs[invs.len() - 1].amount, invs[invs.len() - 1].authorized) is Some);
    }
}

/// The latest investor is the investor of the latest accepted attempt: after
/// `inv` is accepted, attempts that are refused do not change it.
pub proof fn lemma_last_investor_is_latest_accepted(
    start: ArtworkView,
    earlier: Seq<Investment>,
    inv: Investment,
    later: Seq<Investment>,
)
    requires
        replay(start, earlier).invest_error(inv.amount, inv.authorized) is None,
        forall|j: int|
            0 <= j < later.len() ==> replay(start, earlier.push(inv)).invest_error(
                (#[trigger] later[j]).amount,
                later[j].authorized,
            ) is Some,
    ensures
        replay(start, earlier.push(inv) + later).last_investor == Some(inv.investor),
{
    let accepted = replay(start, earlier.push(inv));
    assert(earlier.push(inv).drop_last() =~= earlier);
    assert(accepted.last_investor == Some(inv.investor));
    lemma_replay_concat(start, earlier.push(inv), later);
    lemma_refused_attempts_change_nothing(accepted, later);
}

/// The goal is written once: after a goal is set, setting another changes
/// nothing, and the first request on an artwork without a goal sets it.
pub proof fn lemma_goal_is_write_once(v: ArtworkView, first: u32, second: u32)
    ensures
        v.with_goal(first).with_goal(second) == v.with_goal(first),
        v.funding_goal is None ==> v.with_goal(first).with_goal(second).funding_goal == Some(first),
{
}

/// Investments never change the goal, and never lower the total.
pub proof fn lemma_investments_keep_goal(v: ArtworkView, invs: Seq<Investment>)
    ensures
        replay(v, invs).funding_goal == v.funding_goal,
        replay(v, invs).total_invested >= v.total_invested,
    decreases invs.len(),
{
    if invs.len() > 0 {
        lemma_investments_keep_goal(v, invs.drop_last());
    }
}

/// Without a goal an artwork is never fully funded, whatever its total.
pub proof fn lemma_no_goal_never_funded(v: ArtworkView)
    requires
        v.funding_goal is None,
    ensures
        !v.funded(),
{
}

/// With a goal set, an artwork is fully funded exactly when its total has
/// reached the goal.
pub proof fn lemma_funded_iff_goal_reached(v: ArtworkView, goal: u32)
    requires
        v.funding_goal == Some(goal),
    ensures
        v.funded() <==> v.total_invested >= goal,
{
}

/// Once fully funded, an artwork stays fully funded, whatever attempts to
/// invest and to set a goal follow.
pub proof fn lemma_funded_stays_funded(v: ArtworkView, invs: Seq<Investment>, goal: u32)
    requires
        v.funded(),
    ensures
        replay(v, invs).funded(),
        v.with_goal(goal).funded(),
{
    lemma_investments_keep_goal(v, invs);
}

} // verus!
