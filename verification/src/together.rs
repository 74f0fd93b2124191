//! What holds of all the instances of a test run together.
//!
//! The instances meet at the state that each of them signals when it is done,
//! and through what they announce. All that is asked of the service between
//! them is that a wait for some number of signals does not return before as
//! many have been given, and that it makes no announcements up.

use crate::announcement::{address_in, law_announcement_reads_back, Json};
use crate::laws::{law_begins_sound, law_keeps_its_place, law_one_more_step, law_stays_sound};
use crate::plan::{Plan, Role};
use crate::protocol::{done_state, Outcome, Progress, Step};
use vstd::prelude::*;

verus! {

/// Several instances, each with its run.
pub struct TestRun {
    /// The beginning of each instance's run.
    pub begun: Seq<Progress>,
    /// What has come of the instances' steps, in the order in which it came:
    /// each outcome with the place of its instance in `begun`.
    pub history: Seq<(int, Outcome)>,
}

/// What came of the steps of instance `i`.
pub open spec fn outcomes_of(history: Seq<(int, Outcome)>, i: int) -> Seq<Outcome>
    decreases history.len(),
{
    if history.len() == 0 {
        Seq::empty()
    } else {
        let before = outcomes_of(history.drop_last(), i);
        if history.last().0 == i {
            before.push(history.last().1)
        } else {
            before
        }
    }
}

/// Whether a step signals `state`.
pub open spec fn signals(step: Step, state: Seq<char>) -> bool {
    match step {
        Step::Signal(signalled) | Step::SignalAndWait(signalled, _) => signalled == state,
        _ => false,
    }
}

/// How often a run that had these outcomes has come to a step that signals
/// `state`. A step that it has come to counts before anything has come of it.
pub open spec fn signals_given(p: Progress, outcomes: Seq<Outcome>, state: Seq<char>) -> nat
    decreases outcomes.len(),
{
    let before = if outcomes.len() == 0 {
        0
    } else {
        signals_given(p, outcomes.drop_last(), state)
    };
    if signals(p.after(outcomes).step(), state) {
        before + 1
    } else {
        before
    }
}

impl TestRun {
    /// The beginning of a test run of `plan`, one instance for each of the
    /// sequence numbers `seqs`.
    pub open spec fn begin(
        plan: Plan,
        seqs: Seq<u64>,
        params: Seq<Map<Seq<char>, Seq<char>>>,
    ) -> Seq<Progress> {
        Seq::new(
            seqs.len(),
            |i: int| Progress::begin(plan, seqs[i], seqs.len() as u64, params[i]),
        )
    }

    /// Whether this is a test run of `plan`, with as many instances as each of
    /// them is told.
    pub open spec fn of_plan(self, plan: Plan) -> bool {
        &&& self.begun.len() <= u64::MAX
        &&& exists|seqs: Seq<u64>, params: Seq<Map<Seq<char>, Seq<char>>>|
            seqs.len() == self.begun.len() && self.begun == #[trigger] Self::begin(
                plan,
                seqs,
                params,
            )
        &&& forall|k: int|
            0 <= k < self.history.len() ==> 0 <= (#[trigger] self.history[k]).0 < self.begun.len()
    }

    /// The test run after the first `k` outcomes.
    pub open spec fn until(self, k: int) -> TestRun {
        TestRun { begun: self.begun, history: self.history.take(k) }
    }

    /// How far instance `i` has come.
    pub open spec fn run(self, i: int) -> Progress {
        self.begun[i].after(outcomes_of(self.history, i))
    }

    /// How often instance `i` has come to signal `state`.
    pub open spec fn signals_by(self, i: int, state: Seq<char>) -> nat {
        signals_given(self.begun[i], outcomes_of(self.history, i), state)
    }

    /// How often the first `n` instances have come to signal `state`.
    pub open spec fn signals_by_first(self, n: nat, state: Seq<char>) -> nat
        decreases n,
    {
        if n == 0 {
            0
        } else {
            self.signals_by_first((n - 1) as nat, state) + self.signals_by(n - 1, state)
        }
    }

    /// How often `state` has been signalled.
    pub open spec fn signals_by_all(self, state: Seq<char>) -> nat {
        self.signals_by_first(self.begun.len(), state)
    }

    /// Whether the wait that the last outcome ended, if it ended one, was for
    /// no more signals than there had been.
    pub open spec fn wait_is_kept(self) -> bool {
        let (i, outcome) = self.history.last();
        let before = self.until(self.history.len() - 1);
        outcome is Done ==> (before.run(i).step() matches Step::SignalAndWait(state, target)
            ==> before.signals_by_all(state) >= target)
    }

    /// Whether no wait for a number of signals returned before as many had
    /// been given.
    pub open spec fn waits_are_kept(self) -> bool {
        forall|k: int| 0 < k <= self.history.len() ==> (#[trigger] self.until(k)).wait_is_kept()
    }

    /// Whether the announcement that the last outcome brought, if it brought
    /// one, had been published: some instance had come to publish it, on the
    /// topic of the instance that it was brought to.
    pub open spec fn announcement_is_real(self) -> bool {
        let (i, outcome) = self.history.last();
        let reader = self.until(self.history.len() - 1).run(i);
        outcome matches Outcome::Announced(announcement) ==> (reader.step() is NextAnnouncement
            ==> exists|l: int, m: int|
            {
                &&& 0 <= l < self.begun.len()
                &&& 0 <= m < self.history.len()
                &&& (#[trigger] self.until(m).run(l)).step() == Step::Publish(
                    reader.plan.spec_topic(),
                    announcement,
                )
            })
    }

    /// Whether no announcement was brought that nobody had published.
    pub open spec fn announcements_are_real(self) -> bool {
        forall|k: int|
            0 < k <= self.history.len() ==> (#[trigger] self.until(k)).announcement_is_real()
    }
}

// ------------------------------------------------------------------------
// One instance

/// A run has signalled to be done once where it has come to its signal or past
/// it, and not at all before. Where it failed it has signalled at most once.
proof fn lemma_signals_given(p: Progress, outcomes: Seq<Outcome>)
    requires
        !(p.stage is Signalling),
        !p.past_signal(),
    ensures
        ({
            let given = signals_given(p, outcomes, done_state());
            let q = p.after(outcomes);
            &&& q.stage is Signalling || q.past_signal() ==> given == 1
            &&& !(q.stage is Signalling) && !q.past_signal() && !(q.stage is Failed) ==> given == 0
            &&& given <= 1
        }),
    decreases outcomes.len(),
{
    if outcomes.len() > 0 {
        let front = outcomes.drop_last();
        lemma_signals_given(p, front);
        assert(outcomes =~= front.push(outcomes.last()));
        law_one_more_step(p, front, outcomes.last());
    }
}

// ------------------------------------------------------------------------
// All instances

/// Every instance begins before its signal, and is told how many there are.
proof fn lemma_begun(t: TestRun, plan: Plan, i: int)
    requires
        t.of_plan(plan),
        0 <= i < t.begun.len(),
    ensures
        !(t.begun[i].stage is Signalling),
        !t.begun[i].past_signal(),
        t.begun[i].sound(),
        t.begun[i].plan == plan,
        t.begun[i].instances == t.begun.len(),
{
    let (seqs, params) = choose|seqs: Seq<u64>, params: Seq<Map<Seq<char>, Seq<char>>>|
        seqs.len() == t.begun.len() && t.begun == #[trigger] TestRun::begin(plan, seqs, params);
    law_begins_sound(plan, seqs[i], seqs.len() as u64, params[i]);
}

/// The beginning of a test run is a test run.
pub proof fn lemma_prefix(t: TestRun, plan: Plan, k: int)
    requires
        t.of_plan(plan),
        0 <= k <= t.history.len(),
    ensures
        t.until(k).of_plan(plan),
{
    let u = t.until(k);
    assert forall|j: int| 0 <= j < u.history.len() implies 0 <= (#[trigger] u.history[j]).0
        < u.begun.len() by {
        assert(u.history[j] == t.history[j]);
    }
}

/// The waits in the beginning of a test run are kept where all are.
proof fn lemma_prefix_waits(t: TestRun, k: int)
    requires
        t.waits_are_kept(),
        0 <= k <= t.history.len(),
    ensures
        t.until(k).waits_are_kept(),
{
    let u = t.until(k);
    assert forall|j: int| 0 < j <= u.history.len() implies (#[trigger] u.until(j)).wait_is_kept() by {
        assert(u.history.take(j) =~= t.history.take(j));
        assert(t.until(j).wait_is_kept());
    }
}

/// One more outcome moves the instance that it is of, and no other.
pub proof fn lemma_last(t: TestRun, i: int)
    requires
        t.history.len() > 0,
    ensures
        t.history.last().0 == i ==> t.run(i) == t.until(t.history.len() - 1).run(i).next(
            t.history.last().1,
        ),
        t.history.last().0 != i ==> t.run(i) == t.until(t.history.len() - 1).run(i),
        t.until(t.history.len() - 1).signals_by(i, done_state()) <= t.signals_by(i, done_state()),
{
    let front = t.history.drop_last();
    let last = t.history.last();
    assert(t.history.take(t.history.len() - 1) =~= front);
    if last.0 == i {
        let before = outcomes_of(front, i);
        law_one_more_step(t.begun[i], before, last.1);
        assert(before.push(last.1).drop_last() =~= before);
    }
}

/// Signals are not taken back.
proof fn lemma_signals_stay(t: TestRun, i: int, k: int)
    requires
        0 <= k <= t.history.len(),
    ensures
        t.until(k).signals_by(i, done_state()) <= t.signals_by(i, done_state()),
    decreases t.history.len(),
{
    if k < t.history.len() {
        let u = t.until(t.history.len() - 1);
        lemma_last(t, i);
        lemma_signals_stay(u, i, k);
        assert(u.history.take(k) =~= t.history.take(k));
    } else {
        assert(t.history.take(k) =~= t.history);
    }
}

/// Where no instance has signalled more often in one test run than in another,
/// neither have all of them together.
proof fn lemma_signals_sum(t: TestRun, u: TestRun, n: nat)
    requires
        forall|i: int|
            0 <= i < n ==> #[trigger] t.signals_by(i, done_state()) <= u.signals_by(
                i,
                done_state(),
            ),
    ensures
        t.signals_by_first(n, done_state()) <= u.signals_by_first(n, done_state()),
    decreases n,
{
    if n > 0 {
        lemma_signals_sum(t, u, (n - 1) as nat);
        assert(t.signals_by(n - 1, done_state()) <= u.signals_by(n - 1, done_state()));
    }
}

/// Where nobody signals twice, as many signals as instances are one of each.
proof fn lemma_one_each(t: TestRun, n: nat)
    requires
        forall|i: int| 0 <= i < n ==> #[trigger] t.signals_by(i, done_state()) <= 1,
    ensures
        t.signals_by_first(n, done_state()) <= n,
        t.signals_by_first(n, done_state()) == n <==> forall|i: int|
            0 <= i < n ==> #[trigger] t.signals_by(i, done_state()) == 1,
    decreases n,
{
    if n > 0 {
        lemma_one_each(t, (n - 1) as nat);
        assert(t.signals_by(n - 1, done_state()) <= 1);
    }
}

/// Where an instance that waits is past its signal, there have been as many
/// signals as there are instances.
proof fn lemma_all_signalled(t: TestRun, plan: Plan, i: int)
    requires
        t.of_plan(plan),
        t.waits_are_kept(),
        0 <= i < t.begun.len(),
        t.run(i).past_signal(),
        t.run(i).role() == Role::Listener || plan.spec_dialer_waits(),
    ensures
        t.signals_by_all(done_state()) >= t.begun.len(),
    decreases t.history.len(),
{
    lemma_begun(t, plan, i);
    if t.history.len() > 0 {
        let u = t.until(t.history.len() - 1);
        lemma_prefix(t, plan, t.history.len() - 1);
        lemma_prefix_waits(t, t.history.len() - 1);
        lemma_last(t, i);
        law_keeps_its_place(t.begun[i], outcomes_of(u.history, i));
        law_keeps_its_place(t.begun[i], outcomes_of(t.history, i));
        if u.run(i).past_signal() {
            lemma_all_signalled(u, plan, i);
        } else {
            assert(t.history.take(t.history.len() as int) =~= t.history);
            assert(t.until(t.history.len() as int).wait_is_kept());
        }
        assert forall|j: int| 0 <= j < t.begun.len() implies #[trigger] u.signals_by(
            j,
            done_state(),
        ) <= t.signals_by(j, done_state()) by {
            lemma_last(t, j);
        }
        lemma_signals_sum(u, t, t.begun.len());
    }
}

/// An instance that dials was last told of the address that it dials.
proof fn lemma_told_before_dialing(t: TestRun, plan: Plan, i: int) -> (k: int)
    requires
        t.of_plan(plan),
        0 <= i < t.begun.len(),
        t.run(i).step() is Dial,
    ensures
        0 <= k < t.history.len(),
        t.history[k].0 == i,
        t.history[k].1 matches Outcome::Announced(announcement) && address_in(announcement) == Some(
            t.run(i).step()->Dial_0,
        ),
        t.until(k).run(i).step() is NextAnnouncement,
    decreases t.history.len(),
{
    lemma_begun(t, plan, i);
    assert(t.history.len() > 0);
    let u = t.until(t.history.len() - 1);
    lemma_last(t, i);
    if t.history.last().0 == i {
        t.history.len() - 1
    } else {
        lemma_prefix(t, plan, t.history.len() - 1);
        let k = lemma_told_before_dialing(u, plan, i);
        assert(u.history.take(k) =~= t.history.take(k));
        k
    }
}

/// An instance that publishes has last begun to listen at its address.
proof fn lemma_listened_before_publishing(t: TestRun, plan: Plan, i: int) -> (k: int)
    requires
        t.of_plan(plan),
        0 <= i < t.begun.len(),
        t.run(i).step() is Publish,
    ensures
        0 <= k < t.history.len(),
        t.history[k] == (i, Outcome::Done),
        t.until(k).run(i).step() == Step::Listen(t.run(i).addr),
    decreases t.history.len(),
{
    lemma_begun(t, plan, i);
    assert(t.history.len() > 0);
    let u = t.until(t.history.len() - 1);
    lemma_last(t, i);
    if t.history.last().0 == i {
        t.history.len() - 1
    } else {
        lemma_prefix(t, plan, t.history.len() - 1);
        let k = lemma_listened_before_publishing(u, plan, i);
        assert(u.history.take(k) =~= t.history.take(k));
        k
    }
}

/// An address that is read from what an instance publishes is its own.
proof fn lemma_published_addr(p: Progress, topic: Seq<char>, announcement: Json)
    requires
        p.step() == Step::Publish(topic, announcement),
    ensures
        address_in(announcement) == Some(p.addr),
{
    law_announcement_reads_back(p.seq, p.addr, p.offered);
}

/// Where an instance comes to dial an address, another has come to publish it
/// as its own before.
#[verifier::rlimit(40)]
proof fn lemma_published_before_dialing(t: TestRun, plan: Plan, dialer: int, k: int) -> (at: (
    int,
    int,
))
    requires
        t.of_plan(plan),
        t.announcements_are_real(),
        0 <= dialer < t.begun.len(),
        0 <= k <= t.history.len(),
        t.until(k).run(dialer).step() is Dial,
    ensures
        0 <= at.0 < t.begun.len(),
        0 <= at.1 < k,
        t.until(at.1).run(at.0).step() is Publish,
        t.until(at.1).run(at.0).addr == t.until(k).run(dialer).step()->Dial_0,
{
    let u = t.until(k);
    lemma_prefix(t, plan, k);
    let told = lemma_told_before_dialing(u, plan, dialer);
    assert(u.history[told] == t.history[told]);
    let v = t.until(told + 1);
    assert(v.announcement_is_real());
    assert(v.history.last() == t.history[told]);
    assert(v.until(told) == u.until(told)) by {
        assert(v.history.take(told) =~= u.history.take(told));
    }
    let announcement = t.history[told].1->Announced_0;
    let topic = v.until(told).run(dialer).plan.spec_topic();
    let (l, m) = choose|l: int, m: int|
        {
            &&& 0 <= l < v.begun.len()
            &&& 0 <= m < v.history.len()
            &&& (#[trigger] v.until(m).run(l)).step() == Step::Publish(topic, announcement)
        };
    assert(v.until(m) == t.until(m)) by {
        assert(v.history.take(m) =~= t.history.take(m));
    }
    lemma_published_addr(t.until(m).run(l), topic, announcement);
    (l, m)
}

// ------------------------------------------------------------------------
// Laws

/// Nobody is dialed before it listens: where an instance comes to dial an
/// address, a listener has begun to listen there before.
#[verifier::rlimit(40)]
pub proof fn law_nobody_is_dialed_before_it_listens(t: TestRun, plan: Plan, dialer: int, k: int)
    requires
        t.of_plan(plan),
        t.announcements_are_real(),
        0 <= dialer < t.begun.len(),
        0 <= k <= t.history.len(),
        t.until(k).run(dialer).step() is Dial,
    ensures
        exists|l: int, j: int|
            {
                &&& 0 <= l < t.begun.len()
                &&& 0 <= j < k
                &&& t.history[j] == (l, Outcome::Done)
                &&& t.begun[l].role() == Role::Listener
                &&& (#[trigger] t.until(j).run(l)).step() == Step::Listen(
                    t.until(k).run(dialer).step()->Dial_0,
                )
            },
{
    let (l, m) = lemma_published_before_dialing(t, plan, dialer, k);
    let w = t.until(m);
    lemma_prefix(t, plan, m);
    let j = lemma_listened_before_publishing(w, plan, l);
    assert(w.history.take(j) =~= t.history.take(j));
    law_keeps_its_place(t.begun[l], outcomes_of(t.history.take(j), l));
    assert(t.until(j).run(l).step() is Listen);
}

/// No instance signals to be done twice, and where every instance has reached
/// its end each of them has signalled once.
pub proof fn law_everyone_signals_once(t: TestRun, plan: Plan)
    requires
        t.of_plan(plan),
    ensures
        forall|i: int| 0 <= i < t.begun.len() ==> #[trigger] t.signals_by(i, done_state()) <= 1,
        (forall|i: int| 0 <= i < t.begun.len() ==> (#[trigger] t.run(i)).stage is Finished) ==> {
            &&& forall|i: int|
                0 <= i < t.begun.len() ==> #[trigger] t.signals_by(i, done_state()) == 1
            &&& t.signals_by_all(done_state()) == t.begun.len()
        },
{
    assert forall|i: int| 0 <= i < t.begun.len() implies #[trigger] t.signals_by(i, done_state())
        <= 1 && (t.run(i).stage is Finished ==> t.signals_by(i, done_state()) == 1) by {
        lemma_begun(t, plan, i);
        lemma_signals_given(t.begun[i], outcomes_of(t.history, i));
    }
    lemma_one_each(t, t.begun.len());
}

/// No instance that waits gets past its signal before every instance has come
/// to signal: from then on nobody dials, fetches or signals any more.
#[verifier::rlimit(40)]
pub proof fn law_everyone_waits_for_everyone(t: TestRun, plan: Plan, waiting: int, k: int)
    requires
        t.of_plan(plan),
        t.waits_are_kept(),
        0 <= waiting < t.begun.len(),
        0 <= k <= t.history.len(),
        t.until(k).run(waiting).past_signal(),
        t.until(k).run(waiting).role() == Role::Listener || plan.spec_dialer_waits(),
    ensures
        forall|i: int|
            0 <= i < t.begun.len() ==> #[trigger] t.until(k).signals_by(i, done_state()) == 1,
        forall|i: int, m: int|
            0 <= i < t.begun.len() && k <= m <= t.history.len() ==> {
                &&& !((#[trigger] t.until(m).run(i)).step() is Dial)
                &&& !t.until(m).run(i).fetches()
                &&& t.until(m).signals_by(i, done_state()) == 1
            },
{
    let u = t.until(k);
    lemma_prefix(t, plan, k);
    lemma_prefix_waits(t, k);
    lemma_all_signalled(u, plan, waiting);
    law_everyone_signals_once(u, plan);
    lemma_one_each(u, u.begun.len());
    assert forall|i: int, m: int| 0 <= i < t.begun.len() && k <= m <= t.history.len() implies {
        &&& !((#[trigger] t.until(m).run(i)).step() is Dial)
        &&& !t.until(m).run(i).fetches()
        &&& t.until(m).signals_by(i, done_state()) == 1
    } by {
        let v = t.until(m);
        assert(u.signals_by(i, done_state()) == 1);
        assert(v.history.take(k) =~= t.history.take(k));
        lemma_signals_stay(v, i, k);
        lemma_begun(t, plan, i);
        lemma_signals_given(t.begun[i], outcomes_of(v.history, i));
    }
}

/// A listener comes to stop only after every instance, and so every dialer,
/// has come to its signal, and has dialed and fetched for the last time.
pub proof fn law_nobody_stops_listening_too_early(t: TestRun, plan: Plan, listener: int, k: int)
    requires
        t.of_plan(plan),
        t.waits_are_kept(),
        0 <= listener < t.begun.len(),
        0 <= k <= t.history.len(),
        t.until(k).run(listener).step() is StopListening,
    ensures
        forall|i: int|
            0 <= i < t.begun.len() ==> #[trigger] t.until(k).signals_by(i, done_state()) == 1,
        forall|i: int, m: int|
            0 <= i < t.begun.len() && k <= m <= t.history.len() ==> {
                &&& !((#[trigger] t.until(m).run(i)).step() is Dial)
                &&& !t.until(m).run(i).fetches()
                &&& t.until(m).signals_by(i, done_state()) == 1
            },
{
    lemma_begun(t, plan, listener);
    law_stays_sound(t.begun[listener], outcomes_of(t.until(k).history, listener));
    law_everyone_waits_for_everyone(t, plan, listener, k);
}

} // verus!
