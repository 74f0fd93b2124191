//! What holds of every run, whatever comes of its steps.

use crate::address::{
    data_interface_name, first_named, is_own_address, law_address_is_own,
    law_address_is_that_of_eth1, law_local_addr_reads_back, law_no_address_without_eth1, local_addr,
    part_after, part_before, read_socket, AddressError, Interface,
};
use crate::announcement::{
    address_in, announcement_of, cid_in, law_announcement_reads_back, Json,
};
use crate::content::cid_reading;
use crate::decimal::{all_digits, decimal, digits_value};
use crate::metrics::{law_measurement_reads_back, Metric};
use crate::network::{
    law_given_shape_is_asked_for, law_network_is_as_given, network_shape, NetworkShape, SettingError,
};
use crate::plan::{expected_listeners, Plan, Role};
use crate::protocol::{done_state, Failure, Outcome, Progress, Stage, Step};
use vstd::prelude::*;

verus! {

impl Progress {
    /// The run after these outcomes, one after the other.
    pub open spec fn after(self, outcomes: Seq<Outcome>) -> Progress
        decreases outcomes.len(),
    {
        if outcomes.len() == 0 {
            self
        } else {
            self.next(outcomes[0]).after(outcomes.drop_first())
        }
    }

    /// The steps that these outcomes came of, one each.
    pub open spec fn taken(self, outcomes: Seq<Outcome>) -> Seq<Step>
        decreases outcomes.len(),
    {
        if outcomes.len() == 0 {
            Seq::empty()
        } else {
            seq![self.step()] + self.next(outcomes[0]).taken(outcomes.drop_first())
        }
    }

    /// Whether the run is over, finished or given up.
    pub open spec fn over(self) -> bool {
        self.stage is Finished || self.stage is Failed
    }

    /// Whether the run is at a stage that only listeners come to.
    pub open spec fn listens(self) -> bool {
        self.stage is Importing || self.stage is Publishing || self.stage is Stopping
    }

    /// Whether the run is at a stage that only dialers come to.
    pub open spec fn dials(self) -> bool {
        ||| self.stage is Subscribing
        ||| self.stage is Collecting
        ||| self.stage is Dialing
        ||| self.stage is Leaving
        ||| self.fetches()
    }

    /// Whether the run is at a stage that comes with a fetch.
    pub open spec fn fetches(self) -> bool {
        ||| self.stage is Fetching
        ||| self.stage is FirstUpdate
        ||| self.stage is ReportingFirst
        ||| self.stage is Updates
        ||| self.stage is ReportingLast
    }

    /// Whether the run has signalled to be done, with no failure so far.
    pub open spec fn past_signal(self) -> bool {
        self.stage is Stopping || self.stage is Recording || self.stage is Finished
    }

    /// What holds of a run at every stage.
    pub open spec fn sound(self) -> bool {
        // Each part keeps to its own stages.
        &&& self.listens() ==> self.role() == Role::Listener
        &&& self.dials() ==> self.role() == Role::Dialer
        &&& self.stage is Importing || self.fetches() ==> self.plan.spec_has_content()
        // An announcement is waited for only while one is missing.
        &&& self.stage is Collecting ==> self.awaited > 0
        &&& self.awaited <= expected_listeners(self.instances)
        // Each announcement taken gives one content to fetch, where there is content.
        &&& self.plan.spec_has_content() ==> self.cids.len() + self.awaited == expected_listeners(
            self.instances,
        )
        &&& !self.plan.spec_has_content() ==> self.cids.len() == 0
        &&& self.fetched <= self.cids.len()
        // A listener that has content to offer knows it before it listens.
        &&& self.plan.spec_has_content() && self.role() == Role::Listener && (self.stage is Opening
            || self.stage is Publishing) ==> self.offered is Some
        &&& !self.plan.spec_has_content() ==> self.offered is None
        // A dialer is done only when it has fetched all that was announced.
        &&& self.role() == Role::Dialer && (self.stage is Signalling || self.past_signal())
            ==> self.fetched == self.cids.len()
    }
}

/// Whether a step signals to be done.
pub open spec fn signals_done(step: Step) -> bool {
    step is Signal || step is SignalAndWait
}

// ------------------------------------------------------------------------
// One step after another

/// An address is published only by who has begun to listen there, and at once.
pub proof fn law_listens_before_publishing(p: Progress, outcome: Outcome)
    requires
        p.next(outcome).step() is Publish,
    ensures
        p.step() == Step::Listen(p.addr),
        outcome is Done,
        p.next(outcome).step() == Step::Publish(
            p.plan.spec_topic(),
            announcement_of(p.seq, p.addr, p.offered),
        ),
{
}

/// Only an address is dialed that has just been announced.
pub proof fn law_dials_what_is_announced(p: Progress, outcome: Outcome)
    requires
        p.next(outcome).step() is Dial,
    ensures
        p.step() is NextAnnouncement,
        outcome matches Outcome::Announced(announcement) && address_in(announcement) == Some(
            p.next(outcome).step()->Dial_0,
        ),
{
}

/// A listener stops only once every instance has signalled to be done.
pub proof fn law_listens_until_everyone_is_done(p: Progress, outcome: Outcome)
    requires
        p.next(outcome).step() is StopListening,
    ensures
        p.step() == Step::SignalAndWait(done_state(), p.instances),
        outcome is Done,
{
}

/// An instance signals to be done when it has published its address, or when
/// it has fetched all that was announced to it and dropped its subscription.
pub proof fn law_done_when_all_is_done(p: Progress, outcome: Outcome)
    requires
        signals_done(p.next(outcome).step()),
    ensures
        p.next(outcome).fetched >= p.next(outcome).cids.len() || (p.step() is Publish
            && outcome is Done),
        !(p.step() is Publish) ==> p.step() is Unsubscribe || p.step() is NextUpdate
            || p.step() is Report,
{
}

/// Success is recorded right after the end of the test: after the signal to be
/// done, or after a listener has stopped.
pub proof fn law_success_comes_last(p: Progress, outcome: Outcome)
    requires
        p.next(outcome).step() is RecordSuccess,
    ensures
        outcome is Done,
        signals_done(p.step()) || p.step() is StopListening,
{
}

/// A run that reaches its end has recorded its success.
pub proof fn law_finished_means_success(p: Progress, outcome: Outcome)
    requires
        !p.over(),
        p.next(outcome).stage is Finished,
    ensures
        p.step() is RecordSuccess,
        outcome is Done,
{
}

/// A failed step ends the run.
pub proof fn law_failed_step_ends_the_run(p: Progress)
    requires
        !p.over(),
    ensures
        p.next(Outcome::Failed).step() == Step::GiveUp(
            Failure::Step,
            Failure::Step.spec_message(),
        ),
{
}

/// A run that is over stays as it is.
pub proof fn law_over_is_over(p: Progress, outcomes: Seq<Outcome>)
    requires
        p.over(),
    ensures
        p.after(outcomes) == p,
    decreases outcomes.len(),
{
    if outcomes.len() > 0 {
        law_over_is_over(p, outcomes.drop_first());
    }
}

/// What a listener publishes makes each dialer of its plan that reads it dial
/// that listener, and fetch what it offers.
pub proof fn law_announcement_reaches_dialers(listener: Progress, dialer: Progress)
    requires
        listener.plan == dialer.plan,
        listener.sound(),
        dialer.sound(),
        listener.stage is Publishing,
        dialer.stage is Collecting,
    ensures
        listener.step() matches Step::Publish(topic, announcement) && {
            let told = dialer.next(Outcome::Announced(announcement));
            &&& dialer.at(Stage::Subscribing).step() == Step::Subscribe(
                topic,
                expected_listeners(dialer.instances) as nat,
            )
            &&& told.step() == Step::Dial(listener.addr, dialer.plan.spec_server_name())
            &&& told.cids == match listener.offered {
                Some(cid) => dialer.cids.push(cid),
                None => dialer.cids,
            }
        },
{
    law_announcement_reads_back(listener.seq, listener.addr, listener.offered);
}

/// Whether what a run offers is a content identifier that reads back as itself.
pub open spec fn offers_readable(p: Progress) -> bool {
    p.offered matches Some(cid) && cid_reading(cid) == Ok::<Seq<char>, Seq<char>>(cid)
}

/// A dialer that comes to what a listener offers fetches exactly that content.
pub proof fn law_offered_content_is_fetched(listener: Progress, dialer: Progress)
    requires
        offers_readable(listener),
        dialer.fetched < dialer.cids.len(),
        listener.offered == Some(dialer.cids[dialer.fetched as int]),
    ensures
        dialer.fetching().step() == Step::Fetch(listener.offered->0),
{
}

// ------------------------------------------------------------------------
// Every run

/// Every run is sound from its beginning on.
pub proof fn law_begins_sound(
    plan: Plan,
    seq: u64,
    instances: u64,
    params: Map<Seq<char>, Seq<char>>,
)
    ensures
        Progress::begin(plan, seq, instances, params).sound(),
{
}

/// A sound run stays sound, whatever comes of its steps.
pub proof fn law_stays_sound(p: Progress, outcomes: Seq<Outcome>)
    requires
        p.sound(),
    ensures
        p.after(outcomes).sound(),
    decreases outcomes.len(),
{
    if outcomes.len() > 0 {
        law_stays_sound(p.next(outcomes[0]), outcomes.drop_first());
    }
}

/// What a run was begun with stays: its plan, its sequence number and the
/// number of instances.
pub proof fn law_keeps_its_place(p: Progress, outcomes: Seq<Outcome>)
    ensures
        p.after(outcomes).plan == p.plan,
        p.after(outcomes).seq == p.seq,
        p.after(outcomes).instances == p.instances,
    decreases outcomes.len(),
{
    if outcomes.len() > 0 {
        law_keeps_its_place(p.next(outcomes[0]), outcomes.drop_first());
    }
}

/// A run in parts is the run as a whole.
pub proof fn law_runs_in_parts(p: Progress, first: Seq<Outcome>, second: Seq<Outcome>)
    ensures
        p.after(first + second) == p.after(first).after(second),
        p.taken(first + second) == p.taken(first) + p.after(first).taken(second),
    decreases first.len(),
{
    let whole = first + second;
    if first.len() == 0 {
        assert(whole =~= second);
        assert(p.taken(first) + p.taken(second) =~= p.taken(second));
    } else {
        assert(whole[0] == first[0]);
        assert(whole.drop_first() =~= first.drop_first() + second);
        law_runs_in_parts(p.next(first[0]), first.drop_first(), second);
    }
}

/// There are as many steps as outcomes, and each is the step of the run at
/// that point.
pub proof fn law_one_step_per_outcome(p: Progress, outcomes: Seq<Outcome>)
    ensures
        p.taken(outcomes).len() == outcomes.len(),
        forall|i: int|
            0 <= i < outcomes.len() ==> #[trigger] p.taken(outcomes)[i] == p.after(
                outcomes.take(i),
            ).step(),
    decreases outcomes.len(),
{
    if outcomes.len() > 0 {
        let q = p.next(outcomes[0]);
        let rest = outcomes.drop_first();
        law_one_step_per_outcome(q, rest);
        assert forall|i: int| 0 <= i < outcomes.len() implies #[trigger] p.taken(outcomes)[i]
            == p.after(outcomes.take(i)).step() by {
            if i > 0 {
                assert(p.taken(outcomes)[i] == q.taken(rest)[i - 1]);
                assert(outcomes.take(i).drop_first() =~= rest.take(i - 1));
                assert(outcomes.take(i)[0] == outcomes[0]);
            }
        }
    }
}

/// One more outcome is one more step.
pub proof fn law_one_more_step(p: Progress, outcomes: Seq<Outcome>, outcome: Outcome)
    ensures
        p.after(outcomes.push(outcome)) == p.after(outcomes).next(outcome),
        p.taken(outcomes.push(outcome)) == p.taken(outcomes).push(p.after(outcomes).step()),
{
    let q = p.after(outcomes);
    assert(outcomes.push(outcome) =~= outcomes + seq![outcome]);
    law_runs_in_parts(p, outcomes, seq![outcome]);
    assert(seq![outcome].drop_first() =~= Seq::<Outcome>::empty());
    assert(q.next(outcome).after(Seq::empty()) == q.next(outcome));
    assert(q.next(outcome).taken(Seq::empty()) =~= Seq::<Step>::empty());
    assert(q.taken(seq![outcome]) =~= seq![q.step()]);
    assert(p.taken(outcomes) + seq![q.step()] =~= p.taken(outcomes).push(q.step()));
}

/// Where success is about to be recorded, no step has failed.
pub proof fn law_success_means_no_failure(p: Progress, outcomes: Seq<Outcome>)
    requires
        p.after(outcomes).step() is RecordSuccess,
    ensures
        forall|i: int| 0 <= i < outcomes.len() ==> !(#[trigger] outcomes[i] is Failed),
    decreases outcomes.len(),
{
    if outcomes.len() > 0 {
        let q = p.next(outcomes[0]);
        let rest = outcomes.drop_first();
        law_success_means_no_failure(q, rest);
        if outcomes[0] is Failed {
            assert(q.over());
            law_over_is_over(q, rest);
        }
        assert forall|i: int| 0 <= i < outcomes.len() implies !(#[trigger] outcomes[i]
            is Failed) by {
            if i > 0 {
                assert(rest[i - 1] == outcomes[i]);
            }
        }
    }
}

/// A run past its signal never signals again.
proof fn lemma_never_signals_again(p: Progress, outcomes: Seq<Outcome>)
    requires
        p.past_signal() || p.stage is Failed,
    ensures
        forall|i: int|
            0 <= i < outcomes.len() ==> !signals_done(#[trigger] p.taken(outcomes)[i]),
    decreases outcomes.len(),
{
    if outcomes.len() > 0 {
        let q = p.next(outcomes[0]);
        let rest = outcomes.drop_first();
        lemma_never_signals_again(q, rest);
        law_one_step_per_outcome(q, rest);
        assert forall|i: int| 0 <= i < outcomes.len() implies !signals_done(
            #[trigger] p.taken(outcomes)[i],
        ) by {
            if i > 0 {
                assert(p.taken(outcomes)[i] == q.taken(rest)[i - 1]);
            }
        }
    }
}

/// An instance signals to be done at most once: as many signals as there are
/// instances mean that each of them is done.
pub proof fn law_signals_once(p: Progress, outcomes: Seq<Outcome>, i: int, j: int)
    requires
        0 <= i < j < outcomes.len(),
        signals_done(p.taken(outcomes)[i]),
    ensures
        !signals_done(p.taken(outcomes)[j]),
    decreases outcomes.len(),
{
    let q = p.next(outcomes[0]);
    let rest = outcomes.drop_first();
    law_one_step_per_outcome(q, rest);
    assert(p.taken(outcomes)[j] == q.taken(rest)[j - 1]);
    if i == 0 {
        lemma_never_signals_again(q, rest);
    } else {
        assert(p.taken(outcomes)[i] == q.taken(rest)[i - 1]);
        law_signals_once(q, rest, i - 1, j - 1);
    }
}

/// A run that reaches its end has signalled to be done on the way.
pub proof fn law_finished_means_signalled(p: Progress, outcomes: Seq<Outcome>) -> (at: int)
    requires
        !p.past_signal(),
        p.after(outcomes).past_signal(),
    ensures
        0 <= at < outcomes.len(),
        signals_done(p.taken(outcomes)[at]),
        outcomes[at] is Done,
    decreases outcomes.len(),
{
    assert(outcomes.len() > 0);
    let q = p.next(outcomes[0]);
    let rest = outcomes.drop_first();
    if q.past_signal() {
        0
    } else {
        let at = law_finished_means_signalled(q, rest);
        law_one_step_per_outcome(q, rest);
        assert(p.taken(outcomes)[at + 1] == q.taken(rest)[at]);
        assert(rest[at] == outcomes[at + 1]);
        at + 1
    }
}

/// A kind of step.
pub enum StepKind {
    Publish,
    Subscribe,
    NextAnnouncement,
    Dial,
}

/// Whether a step is of a kind.
pub open spec fn is_kind(step: Step, kind: StepKind) -> bool {
    match kind {
        StepKind::Publish => step is Publish,
        StepKind::Subscribe => step is Subscribe,
        StepKind::NextAnnouncement => step is NextAnnouncement,
        StepKind::Dial => step is Dial,
    }
}

/// How many of the steps are of a kind.
pub open spec fn step_count(steps: Seq<Step>, kind: StepKind) -> nat
    decreases steps.len(),
{
    if steps.len() == 0 {
        0
    } else {
        let before = step_count(steps.drop_last(), kind);
        if is_kind(steps.last(), kind) {
            before + 1
        } else {
            before
        }
    }
}

/// One more step counts where it is of the kind.
proof fn lemma_count_push(steps: Seq<Step>, step: Step, kind: StepKind)
    ensures
        step_count(steps.push(step), kind) == step_count(steps, kind) + if is_kind(step, kind) {
            1nat
        } else {
            0nat
        },
{
    assert(steps.push(step).drop_last() =~= steps);
}

impl Progress {
    /// Whether the run has not come to its part yet, or has but begun it.
    spec fn starts(self) -> bool {
        ||| self.stage is Shaping
        ||| self.stage is Locating
        ||| self.stage is Importing
        ||| self.stage is Opening
    }

    /// Whether the run has published.
    spec fn has_published(self) -> bool {
        self.role() == Role::Listener && (self.stage is Signalling || self.past_signal())
    }

    /// Whether the run has subscribed.
    spec fn has_subscribed(self) -> bool {
        ||| self.dials() && !(self.stage is Subscribing)
        ||| self.role() == Role::Dialer && (self.stage is Signalling || self.past_signal())
    }
}

/// How often a run has published, subscribed, waited for an announcement and
/// dialed, by how far it has come.
proof fn lemma_step_counts(
    plan: Plan,
    seq: u64,
    instances: u64,
    params: Map<Seq<char>, Seq<char>>,
    outcomes: Seq<Outcome>,
)
    ensures
        ({
            let p = Progress::begin(plan, seq, instances, params);
            let q = p.after(outcomes);
            let steps = p.taken(outcomes);
            let published = step_count(steps, StepKind::Publish);
            let subscribed = step_count(steps, StepKind::Subscribe);
            let waited = step_count(steps, StepKind::NextAnnouncement);
            let dialed = step_count(steps, StepKind::Dial);
            &&& published <= 1
            &&& subscribed <= 1
            &&& waited <= expected_listeners(instances)
            &&& dialed <= waited
            &&& q.role() == Role::Dialer ==> published == 0
            &&& q.role() == Role::Listener ==> subscribed == 0 && waited == 0
            &&& q.starts() || q.stage is Publishing || q.stage is Subscribing ==> {
                &&& published == 0
                &&& subscribed == 0
                &&& waited == 0
                &&& q.awaited == expected_listeners(instances)
            }
            &&& q.has_published() ==> published == 1
            &&& q.has_subscribed() ==> subscribed == 1
            &&& q.stage is Collecting ==> waited + q.awaited == expected_listeners(instances)
            &&& q.stage is Dialing ==> waited + q.awaited == expected_listeners(instances)
                && dialed + 1 <= waited
        }),
    decreases outcomes.len(),
{
    let p = Progress::begin(plan, seq, instances, params);
    law_begins_sound(plan, seq, instances, params);
    law_stays_sound(p, outcomes);
    if outcomes.len() > 0 {
        let front = outcomes.drop_last();
        let before = p.after(front);
        lemma_step_counts(plan, seq, instances, params, front);
        law_stays_sound(p, front);
        law_keeps_its_place(p, front);
        law_keeps_its_place(p, outcomes);
        assert(outcomes =~= front.push(outcomes.last()));
        law_one_more_step(p, front, outcomes.last());
        lemma_count_push(p.taken(front), before.step(), StepKind::Publish);
        lemma_count_push(p.taken(front), before.step(), StepKind::Subscribe);
        lemma_count_push(p.taken(front), before.step(), StepKind::NextAnnouncement);
        lemma_count_push(p.taken(front), before.step(), StepKind::Dial);
    }
}

/// An instance publishes at most once, and dialers never do. A listener that
/// comes to its signal has published exactly once.
pub proof fn law_publishes_once(
    plan: Plan,
    seq: u64,
    instances: u64,
    params: Map<Seq<char>, Seq<char>>,
    outcomes: Seq<Outcome>,
)
    ensures
        ({
            let p = Progress::begin(plan, seq, instances, params);
            let q = p.after(outcomes);
            let published = step_count(p.taken(outcomes), StepKind::Publish);
            &&& published <= 1
            &&& plan.spec_role(seq) == Role::Dialer ==> published == 0
            &&& plan.spec_role(seq) == Role::Listener && (q.stage is Signalling
                || q.past_signal()) ==> published == 1
        }),
{
    lemma_step_counts(plan, seq, instances, params, outcomes);
    law_keeps_its_place(Progress::begin(plan, seq, instances, params), outcomes);
}

/// An instance subscribes at most once, and listeners never do. A dialer that
/// comes to its signal has subscribed exactly once.
pub proof fn law_subscribes_once(
    plan: Plan,
    seq: u64,
    instances: u64,
    params: Map<Seq<char>, Seq<char>>,
    outcomes: Seq<Outcome>,
)
    ensures
        ({
            let p = Progress::begin(plan, seq, instances, params);
            let q = p.after(outcomes);
            let subscribed = step_count(p.taken(outcomes), StepKind::Subscribe);
            &&& subscribed <= 1
            &&& plan.spec_role(seq) == Role::Listener ==> subscribed == 0
            &&& plan.spec_role(seq) == Role::Dialer && (q.stage is Signalling || q.past_signal())
                ==> subscribed == 1
        }),
{
    lemma_step_counts(plan, seq, instances, params, outcomes);
    law_keeps_its_place(Progress::begin(plan, seq, instances, params), outcomes);
}

/// An instance waits for no more announcements than there are listeners to
/// expect, and dials at most once for each, however many announcements there
/// are. Listeners wait for none, and dial nobody.
pub proof fn law_dials_no_more_than_expected(
    plan: Plan,
    seq: u64,
    instances: u64,
    params: Map<Seq<char>, Seq<char>>,
    outcomes: Seq<Outcome>,
)
    ensures
        ({
            let steps = Progress::begin(plan, seq, instances, params).taken(outcomes);
            let waited = step_count(steps, StepKind::NextAnnouncement);
            &&& waited <= expected_listeners(instances)
            &&& step_count(steps, StepKind::Dial) <= waited
            &&& plan.spec_role(seq) == Role::Listener ==> waited == 0
        }),
{
    lemma_step_counts(plan, seq, instances, params, outcomes);
    law_keeps_its_place(Progress::begin(plan, seq, instances, params), outcomes);
}

/// Every address that an instance dials was announced to it, and it dials as
/// soon as it is.
pub proof fn law_dials_only_whom_it_was_told_of(
    plan: Plan,
    seq: u64,
    instances: u64,
    params: Map<Seq<char>, Seq<char>>,
    outcomes: Seq<Outcome>,
)
    ensures
        Progress::begin(plan, seq, instances, params).after(outcomes).step() matches Step::Dial(
            addr,
            name,
        ) ==> {
            &&& outcomes.len() > 0
            &&& outcomes.last() matches Outcome::Announced(announcement) && address_in(announcement)
                == Some(addr)
            &&& name == plan.spec_server_name()
        },
{
    let p = Progress::begin(plan, seq, instances, params);
    if outcomes.len() > 0 {
        let front = outcomes.drop_last();
        assert(outcomes =~= front.push(outcomes.last()));
        law_one_more_step(p, front, outcomes.last());
        law_keeps_its_place(p, outcomes);
        if p.after(outcomes).step() is Dial {
            law_dials_what_is_announced(p.after(front), outcomes.last());
        }
    }
}

/// Whether `addr` is the address that an instance with one of these lists of
/// interfaces has.
pub open spec fn found_among(outcomes: Seq<Outcome>, port: u16, addr: Seq<char>) -> bool {
    exists|interfaces: Seq<Interface>|
        {
            &&& outcomes.contains(Outcome::Interfaces(interfaces))
            &&& #[trigger] local_addr(interfaces, port) is Ok
            &&& local_addr(interfaces, port)->Ok_0 == addr
        }
}

/// An instance that has its address has found it among its interfaces, and
/// offers only what it has loaded.
proof fn lemma_found(
    plan: Plan,
    seq: u64,
    instances: u64,
    params: Map<Seq<char>, Seq<char>>,
    outcomes: Seq<Outcome>,
)
    ensures
        ({
            let q = Progress::begin(plan, seq, instances, params).after(outcomes);
            &&& q.stage is Importing || q.stage is Opening || q.stage is Publishing ==> found_among(
                outcomes,
                plan.spec_listening_port(),
                q.addr,
            )
            &&& q.offered matches Some(cid) ==> outcomes.contains(Outcome::Roots(seq![cid]))
        }),
    decreases outcomes.len(),
{
    let p = Progress::begin(plan, seq, instances, params);
    let port = plan.spec_listening_port();
    if outcomes.len() > 0 {
        let front = outcomes.drop_last();
        let last = outcomes.last();
        let before = p.after(front);
        let q = p.after(outcomes);
        lemma_found(plan, seq, instances, params, front);
        law_keeps_its_place(p, front);
        assert(outcomes =~= front.push(last));
        law_one_more_step(p, front, last);
        assert(outcomes[outcomes.len() - 1] == last);
        assert forall|o: Outcome| front.contains(o) implies #[trigger] outcomes.contains(o) by {
            let i = front.index_of(o);
            assert(outcomes[i] == o);
        }
        if found_among(front, port, before.addr) {
            let interfaces = choose|interfaces: Seq<Interface>|
                {
                    &&& front.contains(Outcome::Interfaces(interfaces))
                    &&& #[trigger] local_addr(interfaces, port) is Ok
                    &&& local_addr(interfaces, port)->Ok_0 == before.addr
                };
            assert(outcomes.contains(Outcome::Interfaces(interfaces)));
            assert(found_among(outcomes, port, before.addr));
        }
        if let Outcome::Interfaces(interfaces) = last {
            assert(outcomes.contains(Outcome::Interfaces(interfaces)));
            if local_addr(interfaces, port) is Ok {
                assert(found_among(outcomes, port, local_addr(interfaces, port)->Ok_0));
            }
        }
        if let Outcome::Roots(roots) = last {
            if roots.len() == 1 {
                assert(roots =~= seq![roots[0]]);
            }
        }
    }
}

/// What an instance publishes is so: on the topic of its plan it gives its
/// sequence number, one address, which reads as the IPv4 address of its
/// interface on the data network with the port of the plan, and, where the
/// plan has content, the one root of the archive that it loaded.
pub proof fn law_announcement_is_so(
    plan: Plan,
    seq: u64,
    instances: u64,
    params: Map<Seq<char>, Seq<char>>,
    outcomes: Seq<Outcome>,
)
    ensures
        Progress::begin(plan, seq, instances, params).after(outcomes).step() matches Step::Publish(
            topic,
            announcement,
        ) ==> {
            &&& topic == plan.spec_topic()
            &&& announcement.member("ID"@) == Json::Natural(seq as nat)
            &&& announcement.member("Addrs"@) matches Json::List(addrs) && addrs.len() == 1
            &&& address_in(announcement) is Some
            &&& exists|interfaces: Seq<Interface>|
                {
                    &&& outcomes.contains(Outcome::Interfaces(interfaces))
                    &&& #[trigger] first_named(interfaces, data_interface_name()) is Some
                    &&& read_socket(address_in(announcement)->0) == Some(
                        (
                            first_named(interfaces, data_interface_name())->0,
                            plan.spec_listening_port(),
                        ),
                    )
                }
            &&& plan.spec_has_content() == (cid_in(announcement) is Some)
            &&& cid_in(announcement) matches Some(cid) ==> outcomes.contains(
                Outcome::Roots(seq![cid]),
            )
        },
{
    let p = Progress::begin(plan, seq, instances, params);
    let q = p.after(outcomes);
    if q.step() is Publish {
        let port = plan.spec_listening_port();
        lemma_found(plan, seq, instances, params, outcomes);
        law_begins_sound(plan, seq, instances, params);
        law_stays_sound(p, outcomes);
        law_keeps_its_place(p, outcomes);
        law_announcement_reads_back(q.seq, q.addr, q.offered);
        reveal_strlit("Addrs");
        reveal_strlit("Cid");
        assert("Addrs"@.len() == 5);
        assert("Cid"@.len() == 3);
        let interfaces = choose|interfaces: Seq<Interface>|
            {
                &&& outcomes.contains(Outcome::Interfaces(interfaces))
                &&& #[trigger] local_addr(interfaces, port) is Ok
                &&& local_addr(interfaces, port)->Ok_0 == q.addr
            };
        law_local_addr_reads_back(interfaces, port);
        assert(first_named(interfaces, data_interface_name()) is Some);
    }
}

// ------------------------------------------------------------------------
// What a run is begun with, and how it comes to an early end

/// A run is begun with what it is told, and takes the part of its number.
pub proof fn law_begins_as_told(
    plan: Plan,
    seq: u64,
    instances: u64,
    params: Map<Seq<char>, Seq<char>>,
)
    ensures
        ({
            let p = Progress::begin(plan, seq, instances, params);
            &&& p.plan == plan
            &&& p.seq == seq
            &&& p.instances == instances
            &&& p.role() == plan.spec_role(seq)
            &&& p.cids.len() == 0
            &&& p.offered is None
            &&& p.awaited == expected_listeners(instances)
        }),
{
}

/// A run on a shaped network begins with asking for it: for the latency and
/// the bandwidth that were given, and for all instances to have it.
pub proof fn law_begins_with_the_given_network(
    seq: u64,
    instances: u64,
    params: Map<Seq<char>, Seq<char>>,
    millis: u64,
    bandwidth: u64,
)
    requires
        params.contains_pair("latency"@, decimal(millis as nat)),
        params.contains_pair("bandwidth"@, decimal(bandwidth as nat)),
        millis * 1_000_000 <= u64::MAX,
    ensures
        Progress::begin(Plan::KrakensyncShaped, seq, instances, params).step() matches
            Step::ShapeNetwork(shape) && {
            &&& shape.latency == millis * 1_000_000
            &&& shape.bandwidth == bandwidth
            &&& shape.jitter == 0
            &&& shape.enable
            &&& shape.network == "default"@
            &&& shape.callback_state == "network-configured"@
            &&& shape.callback_target == instances
        },
{
    law_given_shape_is_asked_for(params, instances, millis, bandwidth);
    law_network_is_as_given(params, instances);
}

/// A run whose network cannot be shaped is given up at once, and says why; a
/// run of another plan does not ask for a network.
pub proof fn law_given_up_for_its_settings(
    plan: Plan,
    seq: u64,
    instances: u64,
    params: Map<Seq<char>, Seq<char>>,
    error: SettingError,
)
    requires
        network_shape(params, instances) == Err::<NetworkShape, SettingError>(error),
    ensures
        plan is KrakensyncShaped ==> Progress::begin(plan, seq, instances, params).step()
            == Step::GiveUp(Failure::Setting(error), Failure::Setting(error).spec_message()),
        !(plan is KrakensyncShaped) ==> {
            let step = Progress::begin(plan, seq, instances, params).step();
            step is ListInterfaces || step is Subscribe
        },
{
}

/// Interfaces give an instance the address of the first that is called `eth1`.
/// Without one, or where that has an IPv6 address, the run is given up.
pub proof fn law_located_at_eth1(p: Progress, interfaces: Seq<Interface>, i: int)
    requires
        p.step() is ListInterfaces,
    ensures
        ({
            let q = p.next(Outcome::Interfaces(interfaces));
            let none = forall|j: int|
                0 <= j < interfaces.len() ==> (#[trigger] interfaces[j]).name@ != "eth1"@;
            let first = 0 <= i < interfaces.len() && interfaces[i].name@ == "eth1"@ && forall|j: int|
                0 <= j < i ==> (#[trigger] interfaces[j]).name@ != "eth1"@;
            &&& none ==> q.step() == Step::GiveUp(
                Failure::Address(AddressError::NoDataInterface),
                "no interface is called eth1"@,
            )
            &&& first && interfaces[i].ip is V6 ==> q.step() == Step::GiveUp(
                Failure::Address(AddressError::Ipv6Unsupported),
                "eth1 has an IPv6 address"@,
            )
            &&& first && interfaces[i].ip is V4 ==> {
                &&& read_socket(q.addr) == Some((interfaces[i].ip, p.plan.spec_listening_port()))
                &&& if p.role() is Dialer {
                    q.step() == Step::OpenEndpoint(q.addr)
                } else if p.plan is Tcp || p.plan is Quic {
                    q.step() == Step::Listen(q.addr)
                } else {
                    q.step() == Step::ImportFixture(p.plan.spec_fixture())
                }
            }
        }),
{
    let port = p.plan.spec_listening_port();
    if forall|j: int| 0 <= j < interfaces.len() ==> (#[trigger] interfaces[j]).name@ != "eth1"@ {
        law_no_address_without_eth1(interfaces, port);
    }
    if 0 <= i < interfaces.len() && interfaces[i].name@ == "eth1"@ && forall|j: int|
        0 <= j < i ==> (#[trigger] interfaces[j]).name@ != "eth1"@ {
        law_address_is_that_of_eth1(interfaces, i, port);
    }
}

/// An instance listens, or opens the endpoint that it dials from, at its own
/// address: that of the first of its interfaces that is called `eth1`, with
/// the port of its plan.
pub proof fn law_opens_at_its_own_address(
    plan: Plan,
    seq: u64,
    instances: u64,
    params: Map<Seq<char>, Seq<char>>,
    outcomes: Seq<Outcome>,
    addr: Seq<char>,
)
    requires
        ({
            let step = Progress::begin(plan, seq, instances, params).after(outcomes).step();
            step == Step::Listen(addr) || step == Step::OpenEndpoint(addr)
        }),
    ensures
        exists|interfaces: Seq<Interface>, i: int|
            {
                &&& outcomes.contains(Outcome::Interfaces(interfaces))
                &&& #[trigger] is_own_address(interfaces, i, plan.spec_listening_port(), addr)
            },
{
    let q = Progress::begin(plan, seq, instances, params).after(outcomes);
    let port = plan.spec_listening_port();
    lemma_found(plan, seq, instances, params, outcomes);
    let interfaces = choose|interfaces: Seq<Interface>|
        {
            &&& outcomes.contains(Outcome::Interfaces(interfaces))
            &&& #[trigger] local_addr(interfaces, port) is Ok
            &&& local_addr(interfaces, port)->Ok_0 == q.addr
        };
    let i = law_address_is_own(interfaces, port);
    assert(is_own_address(interfaces, i, port, addr));
}

/// The one root of a loaded archive is what is offered; an archive with none,
/// or with several, ends the run.
pub proof fn law_offers_the_one_root(p: Progress, roots: Seq<Seq<char>>)
    requires
        p.step() is ImportFixture,
    ensures
        roots.len() == 1 ==> p.next(Outcome::Roots(roots)).offered == Some(roots[0]),
        roots.len() == 1 && p.role() is Listener ==> p.next(Outcome::Roots(roots)).step()
            == Step::Listen(p.addr),
        roots.len() != 1 ==> p.next(Outcome::Roots(roots)).step() == Step::GiveUp(
            Failure::Roots,
            "expected /fixtures/10MiB.car file to have one root cid"@,
        ),
{
}

/// An announcement that gives all that the plan needs is dialed at the address
/// that it gives, and its content is fetched behind that of those before it.
/// Any other ends the run.
pub proof fn law_announcement_is_taken_or_ends_the_run(p: Progress, announcement: Json)
    requires
        p.step() is NextAnnouncement,
        p.awaited > 0,
    ensures
        ({
            let q = p.next(Outcome::Announced(announcement));
            let content = p.plan is Krakensync || p.plan is KrakensyncShaped;
            let whole = address_in(announcement) is Some && (content ==> cid_in(
                announcement,
            ) is Some);
            &&& whole ==> {
                &&& q.step() == Step::Dial(
                    address_in(announcement)->0,
                    if p.plan is Quic {
                        Some("localhost"@)
                    } else {
                        None
                    },
                )
                &&& q.awaited == p.awaited - 1
                &&& content ==> q.cids == p.cids.push(cid_in(announcement)->0)
                &&& !content ==> q.cids == p.cids
            }
            &&& !whole ==> q.step() == Step::GiveUp(
                Failure::Announcement,
                "an announcement is incomplete"@,
            )
        }),
{
}

/// Where no announcement comes any more, the dialer goes on with those that it has.
pub proof fn law_goes_on_without_announcements(p: Progress)
    requires
        p.step() is NextAnnouncement,
    ensures
        p.next(Outcome::NoAnnouncement).step() is Unsubscribe,
        p.next(Outcome::NoAnnouncement).cids == p.cids,
        p.next(Outcome::NoAnnouncement).fetched == p.fetched,
{
}

/// A dialer that has connected waits for the next announcement while any is
/// missing, and drops its subscription when none is.
pub proof fn law_collects_while_any_is_missing(p: Progress)
    requires
        p.step() is Dial || p.step() is Subscribe,
    ensures
        p.awaited > 0 ==> p.next(Outcome::Done).step() is NextAnnouncement,
        p.awaited == 0 ==> p.next(Outcome::Done).step() is Unsubscribe,
        p.next(Outcome::Done).awaited == p.awaited,
        p.next(Outcome::Done).cids == p.cids,
{
}

/// The content that is announced is fetched in the order of the announcements:
/// what its identifier reads as, or the run is given up with what the reading
/// says. Where nothing is left to fetch the dialer signals.
pub proof fn law_fetches_in_order(p: Progress)
    requires
        p.step() is Unsubscribe,
    ensures
        ({
            let q = p.next(Outcome::Done);
            &&& p.fetched < p.cids.len() ==> match cid_reading(p.cids[p.fetched as int]) {
                Ok(cid) => q.step() == Step::Fetch(cid) && q.fetched == p.fetched + 1,
                Err(error) => q.step() == Step::GiveUp(Failure::Cid, error),
            }
            &&& p.fetched >= p.cids.len() ==> signals_done(q.step())
            &&& q.cids == p.cids
        }),
{
}

/// The plan that measures reports when the first news of a fetch came and when
/// the fetch ended, each in whole milliseconds under its own name; the other
/// plans report nothing.
pub proof fn law_reports_what_it_measured(p: Progress, millis: u128)
    ensures
        p.stage is FirstUpdate && p.plan is Krakensync ==> (p.next(Outcome::Updated(millis)).step()
            matches Step::Report(text) && part_before(text, '=') == "REQUESTER_TTFB"@ && all_digits(
            part_after(text, '='),
        ) && digits_value(part_after(text, '=')) == millis),
        p.stage is Updates && p.plan is Krakensync ==> (p.next(Outcome::NoUpdate(millis)).step()
            matches Step::Report(text) && part_before(text, '=') == "REQUESTER_FETCH_DURATION"@
            && all_digits(part_after(text, '=')) && digits_value(part_after(text, '=')) == millis),
        p.stage is FirstUpdate && !(p.plan is Krakensync) ==> p.next(
            Outcome::Updated(millis),
        ).step() is NextUpdate,
        p.stage is Updates && !(p.plan is Krakensync) ==> p.next(Outcome::NoUpdate(millis))
            == p.fetching(),
        p.stage is FirstUpdate ==> p.next(Outcome::NoUpdate(millis)).step() is NextUpdate,
        p.stage is Updates ==> p.next(Outcome::Updated(millis)) == p,
{
    law_measurement_reads_back(Metric::RequesterTtfb, millis);
    law_measurement_reads_back(Metric::RequesterFetchDuration, millis);
}

/// Whether `outcome` is of a kind that can come of `step`.
pub open spec fn answers(outcome: Outcome, step: Step) -> bool {
    match step {
        Step::ListInterfaces => outcome is Interfaces,
        Step::ImportFixture(_) => outcome is Roots,
        Step::NextAnnouncement => outcome is Announced || outcome is NoAnnouncement,
        Step::NextUpdate => outcome is Updated || outcome is NoUpdate,
        _ => outcome is Done,
    }
}

/// What cannot come of a step ends the run.
pub proof fn law_out_of_turn_ends_the_run(p: Progress, outcome: Outcome)
    requires
        !p.over(),
        !(outcome is Failed),
        !answers(outcome, p.step()),
    ensures
        p.next(outcome).step() == Step::GiveUp(Failure::OutOfTurn, "an event came out of turn"@),
{
}

/// What can come of a step is never out of turn.
pub proof fn law_in_turn_goes_on(p: Progress, outcome: Outcome)
    requires
        !p.over(),
        answers(outcome, p.step()),
    ensures
        !(p.next(outcome).step() matches Step::GiveUp(failure, _) && (failure is OutOfTurn
            || failure is Step)),
{
}

/// Every instance signals `done`, and those that wait, wait for all instances.
pub proof fn law_signals_to_all(p: Progress)
    ensures
        p.step() matches Step::Signal(state) ==> state == "done"@ && p.plan is Tcp && p.role()
            is Dialer,
        p.step() matches Step::SignalAndWait(state, target) ==> state == "done"@ && target
            == p.instances,
        p.stage is Signalling && p.role() is Listener ==> p.step() is SignalAndWait,
{
}

} // verus!
