//! How the instances of a test run come to a shaped network together.
//!
//! An instance asks for its network first of all. All that is asked of the
//! service that shapes it is that it does not say to be done before as many
//! instances have asked as the instance is to wait for.

use crate::laws::law_one_more_step;
use crate::network::law_network_is_as_given;
use crate::plan::Plan;
use crate::protocol::{Outcome, Progress, Step};
use crate::together::{lemma_last, lemma_prefix, outcomes_of, TestRun};
use vstd::prelude::*;

verus! {

/// Whether a step asks for a network, with `state` signalled once it is there.
pub open spec fn asks_for_network(step: Step, state: Seq<char>) -> bool {
    step matches Step::ShapeNetwork(shape) && shape.callback_state == state
}

/// Whether a run that had these outcomes has come to ask for a network, with
/// `state` signalled once it is there.
pub open spec fn has_asked(p: Progress, outcomes: Seq<Outcome>, state: Seq<char>) -> bool {
    exists|j: int|
        0 <= j <= outcomes.len() && asks_for_network(
            (#[trigger] p.after(outcomes.take(j))).step(),
            state,
        )
}

impl TestRun {
    /// Whether instance `i` has come to ask for a network.
    pub open spec fn asked_by(self, i: int, state: Seq<char>) -> bool {
        has_asked(self.begun[i], outcomes_of(self.history, i), state)
    }

    /// How many of the first `n` instances have come to ask for a network.
    pub open spec fn asked_by_first(self, n: nat, state: Seq<char>) -> nat
        decreases n,
    {
        if n == 0 {
            0
        } else {
            self.asked_by_first((n - 1) as nat, state) + if self.asked_by(n - 1, state) {
                1nat
            } else {
                0nat
            }
        }
    }

    /// Whether the network that the last outcome said to be shaped, if it said
    /// so of one, had been asked for by as many instances as were to be waited
    /// for.
    pub open spec fn shaping_is_kept(self) -> bool {
        let (i, outcome) = self.history.last();
        let before = self.until(self.history.len() - 1);
        outcome is Done ==> (before.run(i).step() matches Step::ShapeNetwork(shape)
            ==> before.asked_by_first(self.begun.len(), shape.callback_state)
            >= shape.callback_target)
    }

    /// Whether no network was said to be shaped before as many instances had
    /// asked for it as were to be waited for.
    pub open spec fn shapings_are_kept(self) -> bool {
        forall|k: int| 0 < k <= self.history.len() ==> (#[trigger] self.until(k)).shaping_is_kept()
    }
}

/// An instance on a shaped network begins with asking for it, with all
/// instances to wait for, or fails at once.
proof fn lemma_begun_asking(t: TestRun, plan: Plan, i: int)
    requires
        t.of_plan(plan),
        plan is KrakensyncShaped,
        0 <= i < t.begun.len(),
    ensures
        t.begun[i].stage is Shaping || t.begun[i].stage is Failed,
        t.begun[i].step() matches Step::ShapeNetwork(shape) ==> shape.callback_target
            == t.begun.len() && shape.callback_state == "network-configured"@,
{
    let (seqs, params) = choose|seqs: Seq<u64>, params: Seq<Map<Seq<char>, Seq<char>>>|
        seqs.len() == t.begun.len() && t.begun == #[trigger] TestRun::begin(plan, seqs, params);
    law_network_is_as_given(params[i], seqs.len() as u64);
}

/// Who still asks for a network is where it began.
proof fn lemma_asks_at_the_beginning_only(p: Progress, outcomes: Seq<Outcome>)
    requires
        p.after(outcomes).stage is Shaping,
    ensures
        p.after(outcomes) == p,
{
    if outcomes.len() > 0 {
        let front = outcomes.drop_last();
        assert(outcomes =~= front.push(outcomes.last()));
        law_one_more_step(p, front, outcomes.last());
    }
}

/// Who has asked has asked for good.
proof fn lemma_asked_stays(t: TestRun, i: int, state: Seq<char>)
    requires
        t.history.len() > 0,
        t.until(t.history.len() - 1).asked_by(i, state),
    ensures
        t.asked_by(i, state),
{
    let front = t.history.drop_last();
    assert(t.history.take(t.history.len() - 1) =~= front);
    let (before, after) = (outcomes_of(front, i), outcomes_of(t.history, i));
    let p = t.begun[i];
    let j = choose|j: int|
        0 <= j <= before.len() && asks_for_network(
            (#[trigger] p.after(before.take(j))).step(),
            state,
        );
    assert(before.take(j) =~= after.take(j));
    assert(asks_for_network(p.after(after.take(j)).step(), state));
}

/// Where all who asked in one test run asked in another, there they are no fewer.
proof fn lemma_asked_sum(t: TestRun, u: TestRun, n: nat, state: Seq<char>)
    requires
        forall|i: int| 0 <= i < n && #[trigger] t.asked_by(i, state) ==> u.asked_by(i, state),
    ensures
        t.asked_by_first(n, state) <= u.asked_by_first(n, state),
    decreases n,
{
    if n > 0 {
        lemma_asked_sum(t, u, (n - 1) as nat, state);
        assert(t.asked_by(n - 1, state) ==> u.asked_by(n - 1, state));
    }
}

/// As many who asked as there are instances are all of them.
proof fn lemma_all_asked(t: TestRun, n: nat, state: Seq<char>)
    ensures
        t.asked_by_first(n, state) <= n,
        t.asked_by_first(n, state) == n ==> forall|i: int|
            0 <= i < n ==> #[trigger] t.asked_by(i, state),
    decreases n,
{
    if n > 0 {
        lemma_all_asked(t, (n - 1) as nat, state);
    }
}

/// Where an instance goes on with its network shaped, as many have asked for
/// theirs as there are instances.
proof fn lemma_goes_on_shaped(t: TestRun, plan: Plan, i: int)
    requires
        t.of_plan(plan),
        plan is KrakensyncShaped,
        t.shapings_are_kept(),
        0 <= i < t.begun.len(),
        !(t.run(i).stage is Shaping),
        !(t.run(i).stage is Failed),
    ensures
        t.asked_by_first(t.begun.len(), "network-configured"@) >= t.begun.len(),
    decreases t.history.len(),
{
    let state = "network-configured"@;
    lemma_begun_asking(t, plan, i);
    if t.history.len() > 0 {
        let u = t.until(t.history.len() - 1);
        lemma_prefix(t, plan, t.history.len() - 1);
        lemma_last(t, i);
        if u.run(i).stage is Shaping {
            lemma_asks_at_the_beginning_only(t.begun[i], outcomes_of(u.history, i));
            assert(t.history.take(t.history.len() as int) =~= t.history);
            assert(t.until(t.history.len() as int).shaping_is_kept());
        } else {
            assert forall|j: int| 0 < j <= u.history.len() implies (#[trigger] u.until(
                j,
            )).shaping_is_kept() by {
                assert(u.history.take(j) =~= t.history.take(j));
                assert(t.until(j).shaping_is_kept());
            }
            lemma_goes_on_shaped(u, plan, i);
        }
        assert forall|j: int| 0 <= j < t.begun.len() && #[trigger] u.asked_by(
            j,
            state,
        ) implies t.asked_by(j, state) by {
            lemma_asked_stays(t, j, state);
        }
        lemma_asked_sum(u, t, t.begun.len(), state);
    }
}

/// No instance goes on to its part, with its network shaped, before every
/// instance has come to ask for its network.
pub proof fn law_nobody_goes_on_before_all_are_shaped(t: TestRun, plan: Plan, i: int, k: int)
    requires
        t.of_plan(plan),
        plan is KrakensyncShaped,
        t.shapings_are_kept(),
        0 <= i < t.begun.len(),
        0 <= k <= t.history.len(),
        !(t.until(k).run(i).step() is ShapeNetwork),
        !(t.until(k).run(i).step() is GiveUp),
    ensures
        forall|j: int|
            0 <= j < t.begun.len() ==> #[trigger] t.until(k).asked_by(j, "network-configured"@),
{
    let u = t.until(k);
    lemma_prefix(t, plan, k);
    assert forall|j: int| 0 < j <= u.history.len() implies (#[trigger] u.until(
        j,
    )).shaping_is_kept() by {
        assert(u.history.take(j) =~= t.history.take(j));
        assert(t.until(j).shaping_is_kept());
    }
    lemma_goes_on_shaped(u, plan, i);
    lemma_all_asked(u, u.begun.len(), "network-configured"@);
}

} // verus!
