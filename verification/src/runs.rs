//! Whole runs in which everything goes well: which steps an instance takes
//! from the beginning to the end.

use crate::address::{local_addr, AddressError, Interface};
use crate::announcement::{
    address_in, announcement_of, cid_in, law_announcement_reads_back, Json,
};
use crate::content::cid_reading;
use crate::laws::{law_runs_in_parts, offers_readable};
use crate::metrics::{metric_line, Metric};
use crate::network::network_shape;
use crate::plan::{expected_listeners, Plan, Role};
use crate::protocol::{done_state, Outcome, Progress, Stage, Step};
use vstd::prelude::*;

verus! {

/// The steps `steps` where `condition` holds, none where it does not.
pub open spec fn steps_if(condition: bool, steps: Seq<Step>) -> Seq<Step> {
    if condition {
        steps
    } else {
        Seq::empty()
    }
}

/// The outcomes `outcomes` where `condition` holds, none where it does not.
pub open spec fn outcomes_if(condition: bool, outcomes: Seq<Outcome>) -> Seq<Outcome> {
    if condition {
        outcomes
    } else {
        Seq::empty()
    }
}

/// One outcome of one step.
proof fn lemma_one(p: Progress, a: Outcome)
    ensures
        p.after(seq![a]) == p.next(a),
        p.taken(seq![a]) =~= seq![p.step()],
{
    reveal_with_fuel(Progress::after, 2);
    reveal_with_fuel(Progress::taken, 2);
    assert(seq![a].drop_first() =~= Seq::<Outcome>::empty());
}

/// Outcomes of two steps.
proof fn lemma_two(p: Progress, a: Outcome, b: Outcome)
    ensures
        p.after(seq![a, b]) == p.next(a).next(b),
        p.taken(seq![a, b]) =~= seq![p.step(), p.next(a).step()],
{
    lemma_one(p, a);
    lemma_one(p.next(a), b);
    assert(seq![a, b] =~= seq![a] + seq![b]);
    law_runs_in_parts(p, seq![a], seq![b]);
}

/// Outcomes of three steps.
proof fn lemma_three(p: Progress, a: Outcome, b: Outcome, c: Outcome)
    ensures
        p.after(seq![a, b, c]) == p.next(a).next(b).next(c),
        p.taken(seq![a, b, c]) =~= seq![
            p.step(),
            p.next(a).step(),
            p.next(a).next(b).step(),
        ],
{
    lemma_one(p, a);
    lemma_two(p.next(a), b, c);
    assert(seq![a, b, c] =~= seq![a] + seq![b, c]);
    law_runs_in_parts(p, seq![a], seq![b, c]);
}

/// Two parts of a run, one after the other.
proof fn lemma_chain(
    p: Progress,
    first: Seq<Outcome>,
    first_steps: Seq<Step>,
    q: Progress,
    second: Seq<Outcome>,
    second_steps: Seq<Step>,
    r: Progress,
)
    requires
        p.after(first) == q,
        p.taken(first) == first_steps,
        q.after(second) == r,
        q.taken(second) == second_steps,
    ensures
        p.after(first + second) == r,
        p.taken(first + second) == first_steps + second_steps,
{
    law_runs_in_parts(p, first, second);
}

/// The outcomes of the steps before an instance's part begins.
pub open spec fn shaping_outcomes(plan: Plan) -> Seq<Outcome> {
    outcomes_if(plan.spec_shapes_network(), seq![Outcome::Done])
}

/// The steps before an instance's part begins: shape the network.
pub open spec fn shaping_steps(
    plan: Plan,
    instances: u64,
    params: Map<Seq<char>, Seq<char>>,
) -> Seq<Step> {
    steps_if(
        plan.spec_shapes_network(),
        seq![Step::ShapeNetwork(network_shape(params, instances)->Ok_0)],
    )
}

/// The part of an instance begins with nothing done.
proof fn lemma_shaping(
    plan: Plan,
    seq: u64,
    instances: u64,
    params: Map<Seq<char>, Seq<char>>,
)
    requires
        plan.spec_shapes_network() ==> network_shape(params, instances) is Ok,
    ensures
        Progress::begin(plan, seq, instances, params).after(shaping_outcomes(plan))
            == Progress::fresh(plan, seq, instances, Progress::first_stage(plan, seq)),
        Progress::begin(plan, seq, instances, params).taken(shaping_outcomes(plan))
            == shaping_steps(plan, instances, params),
{
    lemma_one(Progress::begin(plan, seq, instances, params), Outcome::Done);
}

// ------------------------------------------------------------------------
// Listeners

/// The outcomes of the steps in which a listener prepares to listen.
pub open spec fn preparing_outcomes(
    plan: Plan,
    interfaces: Seq<Interface>,
    cid: Seq<char>,
) -> Seq<Outcome> {
    seq![Outcome::Interfaces(interfaces)] + outcomes_if(
        plan.spec_has_content(),
        seq![Outcome::Roots(seq![cid])],
    )
}

/// The steps in which a listener prepares to listen: find the own address,
/// load the content.
pub open spec fn preparing_steps(plan: Plan) -> Seq<Step> {
    seq![Step::ListInterfaces] + steps_if(
        plan.spec_has_content(),
        seq![Step::ImportFixture(plan.spec_fixture())],
    )
}

/// The outcomes of the steps from listening on.
pub open spec fn serving_outcomes(plan: Plan) -> Seq<Outcome> {
    seq![Outcome::Done, Outcome::Done, Outcome::Done] + (outcomes_if(
        plan.spec_stops_listener(),
        seq![Outcome::Done],
    ) + seq![Outcome::Done])
}

/// The steps from listening on: listen, publish, signal to be done and wait
/// for the others; stop, and record the success.
pub open spec fn serving_steps(
    plan: Plan,
    seq: u64,
    instances: u64,
    addr: Seq<char>,
    offered: Option<Seq<char>>,
) -> Seq<Step> {
    seq![
        Step::Listen(addr),
        Step::Publish(plan.spec_topic(), announcement_of(seq, addr, offered)),
        Step::SignalAndWait(done_state(), instances),
    ] + (steps_if(plan.spec_stops_listener(), seq![Step::StopListening]) + seq![
        Step::RecordSuccess,
    ])
}

/// What a listener of `plan` offers, where `cid` is the content of its archive.
pub open spec fn offer(plan: Plan, cid: Seq<char>) -> Option<Seq<char>> {
    if plan.spec_has_content() {
        Some(cid)
    } else {
        None
    }
}

/// The outcomes of a listener's steps where all goes well.
pub open spec fn listener_outcomes(
    plan: Plan,
    interfaces: Seq<Interface>,
    cid: Seq<char>,
) -> Seq<Outcome> {
    shaping_outcomes(plan) + (preparing_outcomes(plan, interfaces, cid) + serving_outcomes(plan))
}

/// The steps of a listener where all goes well.
pub open spec fn listener_steps(
    plan: Plan,
    seq: u64,
    instances: u64,
    params: Map<Seq<char>, Seq<char>>,
    addr: Seq<char>,
    cid: Seq<char>,
) -> Seq<Step> {
    shaping_steps(plan, instances, params) + (preparing_steps(plan) + serving_steps(
        plan,
        seq,
        instances,
        addr,
        offer(plan, cid),
    ))
}

/// A listener that is prepared has its address and its content.
proof fn lemma_preparing(
    plan: Plan,
    seq: u64,
    instances: u64,
    interfaces: Seq<Interface>,
    addr: Seq<char>,
    cid: Seq<char>,
)
    requires
        plan.spec_role(seq) == Role::Listener,
        local_addr(interfaces, plan.spec_listening_port()) == Ok::<Seq<char>, AddressError>(addr),
    ensures
        Progress::fresh(plan, seq, instances, Stage::Locating).after(
            preparing_outcomes(plan, interfaces, cid),
        ) == (Progress {
            addr,
            offered: offer(plan, cid),
            ..Progress::fresh(plan, seq, instances, Stage::Opening)
        }),
        Progress::fresh(plan, seq, instances, Stage::Locating).taken(
            preparing_outcomes(plan, interfaces, cid),
        ) == preparing_steps(plan),
{
    let p = Progress::fresh(plan, seq, instances, Stage::Locating);
    let found = Outcome::Interfaces(interfaces);
    let loaded = Outcome::Roots(seq![cid]);
    lemma_one(p, found);
    lemma_one(p.next(found), loaded);
    law_runs_in_parts(p, seq![found], outcomes_if(plan.spec_has_content(), seq![loaded]));
}

/// A listener that is prepared listens, and serves to the end.
proof fn lemma_serving(p: Progress)
    requires
        p.role() == Role::Listener,
        p.stage is Opening,
    ensures
        p.after(serving_outcomes(p.plan)) == p.at(Stage::Finished),
        p.taken(serving_outcomes(p.plan)) == serving_steps(
            p.plan,
            p.seq,
            p.instances,
            p.addr,
            p.offered,
        ),
{
    let signalled = p.at(Stage::Signalling).next(Outcome::Done);
    let stop = outcomes_if(p.plan.spec_stops_listener(), seq![Outcome::Done]);
    let stop_steps = steps_if(p.plan.spec_stops_listener(), seq![Step::StopListening]);
    let recording = p.at(Stage::Recording);
    lemma_three(p, Outcome::Done, Outcome::Done, Outcome::Done);
    lemma_one(signalled, Outcome::Done);
    lemma_one(recording, Outcome::Done);
    lemma_chain(
        signalled,
        stop,
        stop_steps,
        recording,
        seq![Outcome::Done],
        seq![Step::RecordSuccess],
        p.at(Stage::Finished),
    );
    lemma_chain(
        p,
        seq![Outcome::Done, Outcome::Done, Outcome::Done],
        p.taken(seq![Outcome::Done, Outcome::Done, Outcome::Done]),
        signalled,
        stop + seq![Outcome::Done],
        stop_steps + seq![Step::RecordSuccess],
        p.at(Stage::Finished),
    );
}

/// A listener to whom nothing bad happens takes exactly the steps of a
/// listener, in their order, and reaches the end.
pub proof fn law_listener_run(
    plan: Plan,
    seq: u64,
    instances: u64,
    params: Map<Seq<char>, Seq<char>>,
    interfaces: Seq<Interface>,
    addr: Seq<char>,
    cid: Seq<char>,
)
    requires
        plan.spec_role(seq) == Role::Listener,
        plan.spec_shapes_network() ==> network_shape(params, instances) is Ok,
        local_addr(interfaces, plan.spec_listening_port()) == Ok::<Seq<char>, AddressError>(addr),
    ensures
        Progress::begin(plan, seq, instances, params).after(
            listener_outcomes(plan, interfaces, cid),
        ).step() is Finish,
        Progress::begin(plan, seq, instances, params).taken(
            listener_outcomes(plan, interfaces, cid),
        ) == listener_steps(plan, seq, instances, params, addr, cid),
{
    let begun = Progress::begin(plan, seq, instances, params);
    let placed = Progress::fresh(plan, seq, instances, Stage::Locating);
    let prepared = Progress {
        addr,
        offered: offer(plan, cid),
        ..Progress::fresh(plan, seq, instances, Stage::Opening)
    };
    lemma_shaping(plan, seq, instances, params);
    lemma_preparing(plan, seq, instances, interfaces, addr, cid);
    lemma_serving(prepared);
    lemma_chain(
        placed,
        preparing_outcomes(plan, interfaces, cid),
        preparing_steps(plan),
        prepared,
        serving_outcomes(plan),
        serving_steps(plan, seq, instances, addr, offer(plan, cid)),
        prepared.at(Stage::Finished),
    );
    lemma_chain(
        begun,
        shaping_outcomes(plan),
        shaping_steps(plan, instances, params),
        placed,
        preparing_outcomes(plan, interfaces, cid) + serving_outcomes(plan),
        preparing_steps(plan) + serving_steps(plan, seq, instances, addr, offer(plan, cid)),
        prepared.at(Stage::Finished),
    );
}

// ------------------------------------------------------------------------
// Dialers

/// Whether a dialer of `plan` can use this announcement.
pub open spec fn usable(plan: Plan, announcement: Json) -> bool {
    &&& address_in(announcement) is Some
    &&& plan.spec_has_content() ==> cid_in(announcement) is Some
}

/// The outcomes of waiting for announcements and dialing who they tell of.
pub open spec fn collect_outcomes(announcements: Seq<Json>) -> Seq<Outcome>
    decreases announcements.len(),
{
    if announcements.len() == 0 {
        Seq::empty()
    } else {
        seq![Outcome::Announced(announcements[0]), Outcome::Done] + collect_outcomes(
            announcements.drop_first(),
        )
    }
}

/// The steps of waiting for announcements and dialing who they tell of: one
/// after the other, each as soon as it is there.
pub open spec fn collect_steps(plan: Plan, announcements: Seq<Json>) -> Seq<Step>
    decreases announcements.len(),
{
    if announcements.len() == 0 {
        Seq::empty()
    } else {
        seq![
            Step::NextAnnouncement,
            Step::Dial(address_in(announcements[0])->0, plan.spec_server_name()),
        ] + collect_steps(plan, announcements.drop_first())
    }
}

/// The content that the announcements tell of.
pub open spec fn announced_cids(plan: Plan, announcements: Seq<Json>) -> Seq<Seq<char>> {
    if plan.spec_has_content() {
        announcements.map_values(|announcement: Json| cid_in(announcement)->0)
    } else {
        Seq::empty()
    }
}

/// A dialer takes as many announcements as it awaits, and dials each listener.
proof fn lemma_collect(p: Progress, announcements: Seq<Json>)
    requires
        p.awaited == announcements.len(),
        forall|i: int|
            0 <= i < announcements.len() ==> usable(p.plan, #[trigger] announcements[i]),
    ensures
        p.collecting().after(collect_outcomes(announcements)) == (Progress {
            awaited: 0,
            cids: p.cids + announced_cids(p.plan, announcements),
            stage: Stage::Leaving,
            ..p
        }),
        p.collecting().taken(collect_outcomes(announcements)) == collect_steps(
            p.plan,
            announcements,
        ),
    decreases announcements.len(),
{
    let start = p.collecting();
    if announcements.len() == 0 {
        assert(p.cids + announced_cids(p.plan, announcements) =~= p.cids);
    } else {
        let first = announcements[0];
        let rest = announcements.drop_first();
        assert(usable(p.plan, first));
        let told = start.next(Outcome::Announced(first));
        lemma_two(start, Outcome::Announced(first), Outcome::Done);
        assert(told.stage == Stage::Dialing(address_in(first)->0));
        assert forall|i: int| 0 <= i < rest.len() implies usable(p.plan, #[trigger] rest[i]) by {
            assert(rest[i] == announcements[i + 1]);
        }
        lemma_collect(told, rest);
        law_runs_in_parts(
            start,
            seq![Outcome::Announced(first), Outcome::Done],
            collect_outcomes(rest),
        );
        assert(told.cids + announced_cids(p.plan, rest) =~= p.cids + announced_cids(
            p.plan,
            announcements,
        ));
    }
}

/// How a fetch goes: after how many milliseconds each of its news comes, and
/// after how many milliseconds it ends.
pub struct FetchTimes {
    pub news: Seq<u128>,
    pub end: u128,
}

/// The outcomes of waiting for the news of a fetch that has had some.
pub open spec fn news_outcomes(news: Seq<u128>) -> Seq<Outcome> {
    news.map_values(|millis: u128| Outcome::Updated(millis))
}

/// The outcomes of the steps of one fetch.
pub open spec fn fetch_outcomes(plan: Plan, times: FetchTimes) -> Seq<Outcome> {
    let first = if times.news.len() == 0 {
        seq![Outcome::NoUpdate(times.end)]
    } else {
        seq![Outcome::Updated(times.news[0])] + outcomes_if(
            plan.spec_reports(),
            seq![Outcome::Done],
        ) + news_outcomes(times.news.drop_first())
    };
    seq![Outcome::Done] + (first + (seq![Outcome::NoUpdate(times.end)] + outcomes_if(
        plan.spec_reports(),
        seq![Outcome::Done],
    )))
}

/// The steps of one fetch: begin it, wait for the first news and report when
/// it came, wait for the rest of the news, and report when the end came.
pub open spec fn fetch_steps(plan: Plan, cid: Seq<char>, times: FetchTimes) -> Seq<Step> {
    let first = if times.news.len() == 0 {
        seq![Step::NextUpdate]
    } else {
        seq![Step::NextUpdate] + steps_if(
            plan.spec_reports(),
            seq![Step::Report(metric_line(Metric::RequesterTtfb, times.news[0]))],
        ) + Seq::new((times.news.len() - 1) as nat, |i: int| Step::NextUpdate)
    };
    seq![Step::Fetch(cid)] + (first + (seq![Step::NextUpdate] + steps_if(
        plan.spec_reports(),
        seq![Step::Report(metric_line(Metric::RequesterFetchDuration, times.end))],
    )))
}

/// Waiting for news goes on as long as news comes.
proof fn lemma_news(p: Progress, news: Seq<u128>)
    requires
        p.stage is Updates,
    ensures
        p.after(news_outcomes(news)) == p,
        p.taken(news_outcomes(news)) =~= Seq::new(news.len(), |i: int| Step::NextUpdate),
    decreases news.len(),
{
    let outcomes = news_outcomes(news);
    if news.len() > 0 {
        assert(outcomes.drop_first() =~= news_outcomes(news.drop_first()));
        assert(outcomes[0] == Outcome::Updated(news[0]));
        lemma_news(p, news.drop_first());
    }
}

/// One fetch, from its beginning to the next.
proof fn lemma_fetch(p: Progress, cid: Seq<char>, times: FetchTimes)
    requires
        p.stage == Stage::Fetching(cid),
    ensures
        p.after(fetch_outcomes(p.plan, times)) == p.fetching(),
        p.taken(fetch_outcomes(p.plan, times)) == fetch_steps(p.plan, cid, times),
{
    let reports = p.plan.spec_reports();
    let news = times.news;
    let report = outcomes_if(reports, seq![Outcome::Done]);
    let last = seq![Outcome::NoUpdate(times.end)] + report;
    let begun = p.at(Stage::FirstUpdate);
    let going = p.at(Stage::Updates);
    lemma_one(p, Outcome::Done);

    // The end: the same whatever came before.
    law_runs_in_parts(going, seq![Outcome::NoUpdate(times.end)], report);
    lemma_one(going, Outcome::NoUpdate(times.end));
    lemma_one(p.at(Stage::ReportingLast(times.end)), Outcome::Done);
    assert(going.after(last) == p.fetching());

    // The first news, and those that follow.
    let first = if news.len() == 0 {
        seq![Outcome::NoUpdate(times.end)]
    } else {
        seq![Outcome::Updated(news[0])] + report + news_outcomes(news.drop_first())
    };
    if news.len() == 0 {
        lemma_one(begun, Outcome::NoUpdate(times.end));
    } else {
        let head = seq![Outcome::Updated(news[0])] + report;
        law_runs_in_parts(begun, seq![Outcome::Updated(news[0])], report);
        lemma_one(begun, Outcome::Updated(news[0]));
        lemma_one(p.at(Stage::ReportingFirst(news[0])), Outcome::Done);
        assert(begun.after(head) == going);
        law_runs_in_parts(begun, head, news_outcomes(news.drop_first()));
        lemma_news(going, news.drop_first());
    }
    assert(begun.after(first) == going);
    law_runs_in_parts(p, seq![Outcome::Done], first + last);
    law_runs_in_parts(begun, first, last);
}

/// The outcomes of the steps of all fetches, one after the other.
pub open spec fn all_fetch_outcomes(plan: Plan, times: Seq<FetchTimes>) -> Seq<Outcome>
    decreases times.len(),
{
    if times.len() == 0 {
        Seq::empty()
    } else {
        fetch_outcomes(plan, times[0]) + all_fetch_outcomes(plan, times.drop_first())
    }
}

/// The steps of all fetches, one after the other.
pub open spec fn all_fetch_steps(
    plan: Plan,
    cids: Seq<Seq<char>>,
    times: Seq<FetchTimes>,
) -> Seq<Step>
    decreases times.len(),
{
    if times.len() == 0 {
        Seq::empty()
    } else {
        fetch_steps(plan, cid_reading(cids[0])->Ok_0, times[0]) + all_fetch_steps(
            plan,
            cids.drop_first(),
            times.drop_first(),
        )
    }
}

/// All that was announced is fetched, in the order of the announcements.
proof fn lemma_fetch_all(p: Progress, times: Seq<FetchTimes>)
    requires
        p.fetched + times.len() == p.cids.len(),
        forall|i: int| 0 <= i < p.cids.len() ==> cid_reading(#[trigger] p.cids[i]) is Ok,
    ensures
        p.fetching().after(all_fetch_outcomes(p.plan, times)) == (Progress {
            fetched: p.cids.len(),
            stage: Stage::Signalling,
            ..p
        }),
        p.fetching().taken(all_fetch_outcomes(p.plan, times)) == all_fetch_steps(
            p.plan,
            p.cids.skip(p.fetched as int),
            times,
        ),
    decreases times.len(),
{
    if times.len() > 0 {
        let start = p.fetching();
        let left = p.cids.skip(p.fetched as int);
        assert(cid_reading(p.cids[p.fetched as int]) is Ok);
        assert(left[0] == p.cids[p.fetched as int]);
        assert(left.drop_first() =~= p.cids.skip(p.fetched as int + 1));
        lemma_fetch(start, cid_reading(left[0])->Ok_0, times[0]);
        lemma_fetch_all(start, times.drop_first());
        law_runs_in_parts(
            start,
            fetch_outcomes(p.plan, times[0]),
            all_fetch_outcomes(p.plan, times.drop_first()),
        );
    }
}

/// The outcomes of the steps in which a dialer gets its endpoint.
pub open spec fn endpoint_outcomes(plan: Plan, interfaces: Seq<Interface>) -> Seq<Outcome> {
    outcomes_if(
        plan.spec_dials_from_endpoint(),
        seq![Outcome::Interfaces(interfaces), Outcome::Done],
    )
}

/// The steps in which a dialer gets its endpoint: find the own address, open
/// the endpoint there.
pub open spec fn endpoint_steps(plan: Plan, addr: Seq<char>) -> Seq<Step> {
    steps_if(
        plan.spec_dials_from_endpoint(),
        seq![Step::ListInterfaces, Step::OpenEndpoint(addr)],
    )
}

/// The outcomes of the steps in which a dialer meets the listeners.
pub open spec fn meeting_outcomes(announcements: Seq<Json>) -> Seq<Outcome> {
    seq![Outcome::Done] + (collect_outcomes(announcements) + seq![Outcome::Done])
}

/// The steps in which a dialer meets the listeners: subscribe, dial each
/// listener that announces itself, drop the subscription.
pub open spec fn meeting_steps(plan: Plan, instances: u64, announcements: Seq<Json>) -> Seq<Step> {
    seq![Step::Subscribe(plan.spec_topic(), expected_listeners(instances) as nat)] + (collect_steps(
        plan,
        announcements,
    ) + seq![Step::Unsubscribe])
}

/// The outcomes of the steps in which a dialer fetches, and ends.
pub open spec fn using_outcomes(plan: Plan, times: Seq<FetchTimes>) -> Seq<Outcome> {
    all_fetch_outcomes(plan, times) + seq![Outcome::Done, Outcome::Done]
}

/// The steps in which a dialer fetches, and ends: fetch all that was
/// announced, signal to be done, record the success.
pub open spec fn using_steps(
    plan: Plan,
    instances: u64,
    cids: Seq<Seq<char>>,
    times: Seq<FetchTimes>,
) -> Seq<Step> {
    all_fetch_steps(plan, cids, times) + seq![
        if plan.spec_dialer_waits() {
            Step::SignalAndWait(done_state(), instances)
        } else {
            Step::Signal(done_state())
        },
        Step::RecordSuccess,
    ]
}

/// The outcomes of a dialer's steps where all goes well.
pub open spec fn dialer_outcomes(
    plan: Plan,
    interfaces: Seq<Interface>,
    announcements: Seq<Json>,
    times: Seq<FetchTimes>,
) -> Seq<Outcome> {
    shaping_outcomes(plan) + (endpoint_outcomes(plan, interfaces) + (meeting_outcomes(announcements)
        + using_outcomes(plan, times)))
}

/// The steps of a dialer where all goes well.
pub open spec fn dialer_steps(
    plan: Plan,
    instances: u64,
    params: Map<Seq<char>, Seq<char>>,
    addr: Seq<char>,
    announcements: Seq<Json>,
    times: Seq<FetchTimes>,
) -> Seq<Step> {
    shaping_steps(plan, instances, params) + (endpoint_steps(plan, addr) + (meeting_steps(
        plan,
        instances,
        announcements,
    ) + using_steps(plan, instances, announced_cids(plan, announcements), times)))
}

/// The address that a dialer has: its own, where it dials from an endpoint.
spec fn dialer_addr(plan: Plan, addr: Seq<char>) -> Seq<char> {
    if plan.spec_dials_from_endpoint() {
        addr
    } else {
        Seq::empty()
    }
}

/// A dialer with its endpoint is ready to subscribe.
proof fn lemma_endpoint(
    plan: Plan,
    seq: u64,
    instances: u64,
    interfaces: Seq<Interface>,
    addr: Seq<char>,
)
    requires
        plan.spec_role(seq) == Role::Dialer,
        plan.spec_dials_from_endpoint() ==> local_addr(interfaces, plan.spec_listening_port())
            == Ok::<Seq<char>, AddressError>(addr),
    ensures
        Progress::fresh(plan, seq, instances, Progress::first_stage(plan, seq)).after(
            endpoint_outcomes(plan, interfaces),
        ) == (Progress {
            addr: dialer_addr(plan, addr),
            ..Progress::fresh(plan, seq, instances, Stage::Subscribing)
        }),
        Progress::fresh(plan, seq, instances, Progress::first_stage(plan, seq)).taken(
            endpoint_outcomes(plan, interfaces),
        ) == endpoint_steps(plan, addr),
{
    let p = Progress::fresh(plan, seq, instances, Progress::first_stage(plan, seq));
    lemma_two(p, Outcome::Interfaces(interfaces), Outcome::Done);
}

/// A dialer meets as many listeners as it expects, and goes on to fetch.
proof fn lemma_meeting(p: Progress, announcements: Seq<Json>)
    requires
        p.stage is Subscribing,
        p.awaited == announcements.len(),
        p.cids == Seq::<Seq<char>>::empty(),
        forall|i: int|
            0 <= i < announcements.len() ==> usable(p.plan, #[trigger] announcements[i]),
    ensures
        p.after(meeting_outcomes(announcements)) == (Progress {
            awaited: 0,
            cids: announced_cids(p.plan, announcements),
            ..p
        }).fetching(),
        p.taken(meeting_outcomes(announcements)) == meeting_steps(
            p.plan,
            p.instances,
            announcements,
        ),
{
    let cids = announced_cids(p.plan, announcements);
    let met = Progress { awaited: 0, cids, stage: Stage::Leaving, ..p };
    lemma_one(p, Outcome::Done);
    lemma_collect(p, announcements);
    assert(p.cids + cids =~= cids);
    lemma_one(met, Outcome::Done);
    lemma_chain(
        p.collecting(),
        collect_outcomes(announcements),
        collect_steps(p.plan, announcements),
        met,
        seq![Outcome::Done],
        seq![Step::Unsubscribe],
        met.fetching(),
    );
    lemma_chain(
        p,
        seq![Outcome::Done],
        p.taken(seq![Outcome::Done]),
        p.collecting(),
        collect_outcomes(announcements) + seq![Outcome::Done],
        collect_steps(p.plan, announcements) + seq![Step::Unsubscribe],
        met.fetching(),
    );
    let same = Progress { awaited: 0, cids, ..p };
    assert(met.fetching() == same.fetching());
}

/// A dialer fetches all that was announced, and ends.
proof fn lemma_using(p: Progress, times: Seq<FetchTimes>)
    requires
        p.role() == Role::Dialer,
        p.fetched == 0,
        times.len() == p.cids.len(),
        forall|i: int| 0 <= i < p.cids.len() ==> cid_reading(#[trigger] p.cids[i]) is Ok,
    ensures
        p.fetching().after(using_outcomes(p.plan, times)).stage is Finished,
        p.fetching().taken(using_outcomes(p.plan, times)) == using_steps(
            p.plan,
            p.instances,
            p.cids,
            times,
        ),
{
    let used = Progress { fetched: p.cids.len(), stage: Stage::Signalling, ..p };
    lemma_fetch_all(p, times);
    assert(p.cids.skip(0) =~= p.cids);
    lemma_two(used, Outcome::Done, Outcome::Done);
    lemma_chain(
        p.fetching(),
        all_fetch_outcomes(p.plan, times),
        all_fetch_steps(p.plan, p.cids, times),
        used,
        seq![Outcome::Done, Outcome::Done],
        used.taken(seq![Outcome::Done, Outcome::Done]),
        used.at(Stage::Finished),
    );
}

/// A dialer to whom nothing bad happens takes exactly the steps of a dialer,
/// in their order, and reaches the end. As many listeners as it expects
/// announce themselves, and where they offer content, all of it is fetched.
pub proof fn law_dialer_run(
    plan: Plan,
    seq: u64,
    instances: u64,
    params: Map<Seq<char>, Seq<char>>,
    interfaces: Seq<Interface>,
    addr: Seq<char>,
    announcements: Seq<Json>,
    times: Seq<FetchTimes>,
)
    requires
        plan.spec_role(seq) == Role::Dialer,
        plan.spec_shapes_network() ==> network_shape(params, instances) is Ok,
        plan.spec_dials_from_endpoint() ==> local_addr(interfaces, plan.spec_listening_port())
            == Ok::<Seq<char>, AddressError>(addr),
        announcements.len() == expected_listeners(instances),
        forall|i: int| 0 <= i < announcements.len() ==> usable(plan, #[trigger] announcements[i]),
        forall|i: int|
            0 <= i < announced_cids(plan, announcements).len() ==> cid_reading(
                #[trigger] announced_cids(plan, announcements)[i],
            ) is Ok,
        times.len() == announced_cids(plan, announcements).len(),
    ensures
        Progress::begin(plan, seq, instances, params).after(
            dialer_outcomes(plan, interfaces, announcements, times),
        ).step() is Finish,
        Progress::begin(plan, seq, instances, params).taken(
            dialer_outcomes(plan, interfaces, announcements, times),
        ) == dialer_steps(plan, instances, params, addr, announcements, times),
{
    let cids = announced_cids(plan, announcements);
    let begun = Progress::begin(plan, seq, instances, params);
    let placed = Progress::fresh(plan, seq, instances, Progress::first_stage(plan, seq));
    let ready = Progress {
        addr: dialer_addr(plan, addr),
        ..Progress::fresh(plan, seq, instances, Stage::Subscribing)
    };
    let met = Progress { awaited: 0, cids, ..ready };
    let last = met.fetching().after(using_outcomes(plan, times));
    lemma_shaping(plan, seq, instances, params);
    lemma_endpoint(plan, seq, instances, interfaces, addr);
    lemma_meeting(ready, announcements);
    lemma_using(met, times);
    lemma_chain(
        ready,
        meeting_outcomes(announcements),
        meeting_steps(plan, instances, announcements),
        met.fetching(),
        using_outcomes(plan, times),
        using_steps(plan, instances, cids, times),
        last,
    );
    lemma_chain(
        placed,
        endpoint_outcomes(plan, interfaces),
        endpoint_steps(plan, addr),
        ready,
        meeting_outcomes(announcements) + using_outcomes(plan, times),
        meeting_steps(plan, instances, announcements) + using_steps(plan, instances, cids, times),
        last,
    );
    lemma_chain(
        begun,
        shaping_outcomes(plan),
        shaping_steps(plan, instances, params),
        placed,
        endpoint_outcomes(plan, interfaces) + (meeting_outcomes(announcements) + using_outcomes(
            plan,
            times,
        )),
        endpoint_steps(plan, addr) + (meeting_steps(plan, instances, announcements) + using_steps(
            plan,
            instances,
            cids,
            times,
        )),
        last,
    );
}

// ------------------------------------------------------------------------
// Together

/// What a listener that has come to publish announces.
pub open spec fn announcement_by(listener: Progress) -> Json {
    announcement_of(listener.seq, listener.addr, listener.offered)
}

/// Whether a run of `plan` is a listener that has come to publish, and offers
/// content that can be fetched where the plan has content.
pub open spec fn publishes(plan: Plan, listener: Progress) -> bool {
    &&& listener.plan == plan
    &&& listener.sound()
    &&& listener.stage is Publishing
    &&& plan.spec_has_content() ==> offers_readable(listener)
}

/// Where as many listeners publish as a dialer expects, and it reads what they
/// published in some order, it dials each of them in that order, at the
/// address where it listens, fetches the content that each offers, and reaches
/// the end.
pub proof fn law_dialer_meets_the_listeners(
    plan: Plan,
    seq: u64,
    instances: u64,
    params: Map<Seq<char>, Seq<char>>,
    interfaces: Seq<Interface>,
    addr: Seq<char>,
    listeners: Seq<Progress>,
    times: Seq<FetchTimes>,
)
    requires
        plan.spec_role(seq) == Role::Dialer,
        plan.spec_shapes_network() ==> network_shape(params, instances) is Ok,
        plan.spec_dials_from_endpoint() ==> local_addr(interfaces, plan.spec_listening_port())
            == Ok::<Seq<char>, AddressError>(addr),
        listeners.len() == expected_listeners(instances),
        forall|i: int| 0 <= i < listeners.len() ==> publishes(plan, #[trigger] listeners[i]),
        plan.spec_has_content() ==> times.len() == listeners.len(),
        !plan.spec_has_content() ==> times.len() == 0,
    ensures
        ({
            let announcements = listeners.map_values(|listener: Progress| announcement_by(listener));
            let cids = announced_cids(plan, announcements);
            let outcomes = dialer_outcomes(plan, interfaces, announcements, times);
            let begun = Progress::begin(plan, seq, instances, params);
            &&& begun.after(outcomes).step() is Finish
            &&& begun.taken(outcomes) == dialer_steps(
                plan,
                instances,
                params,
                addr,
                announcements,
                times,
            )
            &&& forall|i: int|
                0 <= i < listeners.len() ==> address_in(#[trigger] announcements[i]) == Some(
                    listeners[i].addr,
                )
            &&& plan.spec_has_content() ==> cids.len() == listeners.len()
            &&& forall|i: int|
                0 <= i < cids.len() ==> (cid_reading(#[trigger] cids[i]) matches Ok(cid)
                    && listeners[i].offered == Some(cid))
        }),
{
    let announcements = listeners.map_values(|listener: Progress| announcement_by(listener));
    let cids = announced_cids(plan, announcements);
    assert forall|i: int| 0 <= i < announcements.len() implies usable(
        plan,
        #[trigger] announcements[i],
    ) && address_in(announcements[i]) == Some(listeners[i].addr) by {
        let listener = listeners[i];
        assert(publishes(plan, listener));
        law_announcement_reads_back(listener.seq, listener.addr, listener.offered);
    }
    assert forall|i: int| 0 <= i < cids.len() implies cid_reading(#[trigger] cids[i]) is Ok
        && listeners[i].offered == Some(cid_reading(cids[i])->Ok_0) by {
        let listener = listeners[i];
        assert(publishes(plan, listener));
        law_announcement_reads_back(listener.seq, listener.addr, listener.offered);
    }
    law_dialer_run(plan, seq, instances, params, interfaces, addr, announcements, times);
}

} // verus!
