//! The run of one instance, step by step.
//!
//! A session says which action to take; whoever runs it takes the action and
//! hands back the event that came of it.

use crate::address::{get_local_addr, Interface};
use crate::announcement::{
    announced_address, announced_cid, announcement, json_content, text_view,
};
use crate::content::{cid_text, parse_cid, print_cid, reading_view};
use crate::laws::offers_readable;
use crate::metrics::{metric_text, Metric};
use crate::network::{network_settings, settings_for, shape_of, InstanceParams, NetworkSettings};
use crate::plan::{listener_count, Plan, Role};
use crate::protocol::{Failure, Outcome, Progress, Stage, Step};
use cid::CidGeneric;
use vstd::prelude::*;

verus! {

/// An action of a run, to be taken in the world outside.
pub enum Action {
    /// Have the network shaped, and wait until it is for every instance.
    ShapeNetwork(NetworkSettings),
    /// List the network interfaces.
    ListInterfaces,
    /// Load the archive at this path.
    ImportFixture(String),
    /// Begin to listen at this address.
    Listen(String),
    /// Open at this address the endpoint to dial from.
    OpenEndpoint(String),
    /// Publish on a topic.
    Publish(String, serde_json::Value),
    /// Subscribe to a topic, with room for this many announcements.
    Subscribe(String, usize),
    /// Wait for the next announcement.
    NextAnnouncement,
    /// Connect to the listener at this address, which is certified for this
    /// name, where it is certified.
    Dial(String, Option<String>),
    /// Drop the subscription.
    Unsubscribe,
    /// Begin to fetch the content with this identifier.
    Fetch(CidGeneric<64>),
    /// Wait for news of the fetch.
    NextUpdate,
    /// Write a measurement to the output.
    Report(String),
    /// Signal a state.
    Signal(String),
    /// Signal a state, and wait until this many instances have.
    SignalAndWait(String, u64),
    /// Stop listening.
    StopListening,
    /// Record that the instance succeeded.
    RecordSuccess,
    /// Nothing is left to do.
    Finish,
    /// Give the run up, and say this.
    GiveUp(Failure, String),
}

impl View for Action {
    type V = Step;

    open spec fn view(&self) -> Step {
        match *self {
            Action::ShapeNetwork(settings) => Step::ShapeNetwork(settings@),
            Action::ListInterfaces => Step::ListInterfaces,
            Action::ImportFixture(path) => Step::ImportFixture(path@),
            Action::Listen(addr) => Step::Listen(addr@),
            Action::OpenEndpoint(addr) => Step::OpenEndpoint(addr@),
            Action::Publish(topic, payload) => Step::Publish(topic@, json_content(payload)),
            Action::Subscribe(topic, capacity) => Step::Subscribe(topic@, capacity as nat),
            Action::NextAnnouncement => Step::NextAnnouncement,
            Action::Dial(addr, name) => Step::Dial(addr@, text_view(name)),
            Action::Unsubscribe => Step::Unsubscribe,
            Action::Fetch(cid) => Step::Fetch(cid_text(cid)),
            Action::NextUpdate => Step::NextUpdate,
            Action::Report(text) => Step::Report(text@),
            Action::Signal(state) => Step::Signal(state@),
            Action::SignalAndWait(state, target) => Step::SignalAndWait(state@, target),
            Action::StopListening => Step::StopListening,
            Action::RecordSuccess => Step::RecordSuccess,
            Action::Finish => Step::Finish,
            Action::GiveUp(failure, message) => Step::GiveUp(failure, message@),
        }
    }
}

/// What came of an action.
pub enum Event {
    /// The action was taken.
    Done,
    /// The action failed.
    Failed,
    /// The network interfaces.
    Interfaces(Vec<Interface>),
    /// The content identifiers of the roots of a loaded archive.
    Roots(Vec<CidGeneric<64>>),
    /// An announcement.
    Announced(serde_json::Value),
    /// No announcement will come any more.
    NoAnnouncement,
    /// News of a fetch, this many milliseconds after it began.
    Updated(u128),
    /// No news of the fetch will come any more; it began this many milliseconds ago.
    NoUpdate(u128),
}

impl View for Event {
    type V = Outcome;

    open spec fn view(&self) -> Outcome {
        match *self {
            Event::Done => Outcome::Done,
            Event::Failed => Outcome::Failed,
            Event::Interfaces(interfaces) => Outcome::Interfaces(interfaces@),
            Event::Roots(cids) => Outcome::Roots(
                cids@.map_values(|cid: CidGeneric<64>| cid_text(cid)),
            ),
            Event::Announced(announcement) => Outcome::Announced(json_content(announcement)),
            Event::NoAnnouncement => Outcome::NoAnnouncement,
            Event::Updated(millis) => Outcome::Updated(millis),
            Event::NoUpdate(millis) => Outcome::NoUpdate(millis),
        }
    }
}

/// How far a session has come.
enum Position {
    Shaping { latency: u64, bandwidth: u64, target: u64 },
    Locating,
    Importing,
    Opening,
    Publishing,
    Subscribing,
    Collecting,
    Dialing(String),
    Leaving,
    Fetching(CidGeneric<64>),
    FirstUpdate,
    ReportingFirst(u128),
    Updates,
    ReportingLast(u128),
    Signalling,
    Stopping,
    Recording,
    Finished,
    Failed(Failure, String),
}

impl View for Position {
    type V = Stage;

    closed spec fn view(&self) -> Stage {
        match *self {
            Position::Shaping { latency, bandwidth, target } => Stage::Shaping(
                shape_of(latency, bandwidth, target),
            ),
            Position::Locating => Stage::Locating,
            Position::Importing => Stage::Importing,
            Position::Opening => Stage::Opening,
            Position::Publishing => Stage::Publishing,
            Position::Subscribing => Stage::Subscribing,
            Position::Collecting => Stage::Collecting,
            Position::Dialing(addr) => Stage::Dialing(addr@),
            Position::Leaving => Stage::Leaving,
            Position::Fetching(cid) => Stage::Fetching(cid_text(cid)),
            Position::FirstUpdate => Stage::FirstUpdate,
            Position::ReportingFirst(millis) => Stage::ReportingFirst(millis),
            Position::Updates => Stage::Updates,
            Position::ReportingLast(millis) => Stage::ReportingLast(millis),
            Position::Signalling => Stage::Signalling,
            Position::Stopping => Stage::Stopping,
            Position::Recording => Stage::Recording,
            Position::Finished => Stage::Finished,
            Position::Failed(failure, message) => Stage::Failed(failure, message@),
        }
    }
}

/// The run of one instance.
pub struct Session {
    plan: Plan,
    seq: u64,
    instances: u64,
    addr: String,
    offered: Option<String>,
    awaited: usize,
    cids: Vec<String>,
    fetched: usize,
    position: Position,
}

impl View for Session {
    type V = Progress;

    closed spec fn view(&self) -> Progress {
        Progress {
            plan: self.plan,
            seq: self.seq,
            instances: self.instances,
            addr: self.addr@,
            offered: text_view(self.offered),
            awaited: self.awaited as nat,
            cids: self.cids@.map_values(|cid: String| cid@),
            fetched: self.fetched as nat,
            stage: self.position@,
        }
    }
}

impl Session {
    /// What is offered can be read back by who is told of it.
    #[verifier::type_invariant]
    spec fn offer_reads_back(self) -> bool {
        self@.offered is Some ==> offers_readable(self@)
    }

    /// Begins the run of the instance with sequence number `seq`, one of
    /// `instances`, started with these parameters.
    pub fn begin(plan: Plan, seq: u64, instances: u64, params: &InstanceParams) -> (session: Self)
        ensures
            session@ == Progress::begin(plan, seq, instances, params@),
    {
        let position: Position = match plan {
            Plan::KrakensyncShaped => match network_settings(params, instances) {
                Ok(settings) => Position::Shaping {
                    latency: settings.latency,
                    bandwidth: settings.bandwidth,
                    target: settings.callback_target,
                },
                Err(error) => Position::Failed(
                    Failure::Setting(error),
                    Failure::Setting(error).message(),
                ),
            },
            _ => Self::first_position(plan, seq),
        };
        let session = Session {
            plan,
            seq,
            instances,
            addr: String::new(),
            offered: None,
            awaited: listener_count(instances),
            cids: Vec::new(),
            fetched: 0,
            position,
        };
        assert(session@.cids =~= Seq::<Seq<char>>::empty());
        session
    }

    /// Where an instance's part begins.
    fn first_position(plan: Plan, seq: u64) -> (position: Position)
        ensures
            position@ == Progress::first_stage(plan, seq),
    {
        match (plan, plan.role(seq)) {
            (Plan::Tcp, Role::Dialer) => Position::Subscribing,
            _ => Position::Locating,
        }
    }

    /// The part that the instance takes.
    pub fn role(&self) -> (role: Role)
        ensures
            role == self@.role(),
    {
        self.plan.role(self.seq)
    }

    /// Whether the run is over, finished or given up.
    pub fn is_over(&self) -> (over: bool)
        ensures
            over == (self@.stage is Finished || self@.stage is Failed),
    {
        match self.position {
            Position::Finished | Position::Failed(_, _) => true,
            _ => false,
        }
    }

    /// The action to take.
    pub fn action(&self) -> (action: Action)
        ensures
            action@ == self@.step(),
    {
        match &self.position {
            Position::Shaping { latency, bandwidth, target } => Action::ShapeNetwork(
                settings_for(*latency, *bandwidth, *target),
            ),
            Position::Locating => Action::ListInterfaces,
            Position::Importing => Action::ImportFixture(self.plan.fixture()),
            Position::Opening => match self.role() {
                Role::Listener => Action::Listen(self.addr.clone()),
                Role::Dialer => Action::OpenEndpoint(self.addr.clone()),
            },
            Position::Publishing => {
                let offered: Option<String> = match &self.offered {
                    Some(cid) => Some(cid.clone()),
                    None => None,
                };
                Action::Publish(
                    self.plan.topic(),
                    announcement(self.seq, self.addr.clone(), offered),
                )
            },
            Position::Subscribing => Action::Subscribe(
                self.plan.topic(),
                listener_count(self.instances),
            ),
            Position::Collecting => Action::NextAnnouncement,
            Position::Dialing(addr) => Action::Dial(addr.clone(), self.plan.server_name()),
            Position::Leaving => Action::Unsubscribe,
            Position::Fetching(cid) => Action::Fetch(*cid),
            Position::FirstUpdate | Position::Updates => Action::NextUpdate,
            Position::ReportingFirst(millis) => Action::Report(
                metric_text(Metric::RequesterTtfb, *millis),
            ),
            Position::ReportingLast(millis) => Action::Report(
                metric_text(Metric::RequesterFetchDuration, *millis),
            ),
            Position::Signalling => match (self.plan, self.role()) {
                (Plan::Tcp, Role::Dialer) => Action::Signal("done".to_owned()),
                _ => Action::SignalAndWait("done".to_owned(), self.instances),
            },
            Position::Stopping => Action::StopListening,
            Position::Recording => Action::RecordSuccess,
            Position::Finished => Action::Finish,
            Position::Failed(failure, message) => Action::GiveUp(*failure, message.clone()),
        }
    }

    /// The same run elsewhere.
    fn at(self, position: Position) -> (session: Self)
        ensures
            session@ == self@.at(position@),
    {
        proof {
            use_type_invariant(&self);
        }
        Session { position, ..self }
    }

    /// The same run, given up.
    fn failed(self, failure: Failure) -> (session: Self)
        ensures
            session@ == self@.failed(failure),
    {
        self.at(Position::Failed(failure, failure.message()))
    }

    /// The run once the instance's interfaces are known.
    fn located(self, interfaces: Vec<Interface>) -> (session: Self)
        ensures
            session@ == self@.located(interfaces@),
    {
        proof {
            use_type_invariant(&self);
        }
        match get_local_addr(&interfaces, self.plan.listening_port()) {
            Err(error) => self.failed(Failure::Address(error)),
            Ok(addr) => {
                let position: Position = match self.role() {
                    Role::Listener if self.plan.has_content() => Position::Importing,
                    _ => Position::Opening,
                };
                Session { addr, position, ..self }
            },
        }
    }

    /// The run once the content to offer is loaded.
    fn imported(self, roots: Vec<CidGeneric<64>>) -> (session: Self)
        ensures
            session@ == self@.imported(roots@.map_values(|cid: CidGeneric<64>| cid_text(cid))),
    {
        if roots.len() != 1 {
            self.failed(Failure::Roots)
        } else {
            Session { offered: Some(print_cid(&roots[0])), position: Position::Opening, ..self }
        }
    }

    /// The run at the next announcement, if one is awaited.
    fn collecting(self) -> (session: Self)
        ensures
            session@ == self@.collecting(),
    {
        if self.awaited > 0 {
            self.at(Position::Collecting)
        } else {
            self.at(Position::Leaving)
        }
    }

    /// The run once an announcement has come.
    fn announced(self, announcement: serde_json::Value) -> (session: Self)
        ensures
            session@ == self@.announced(json_content(announcement)),
    {
        proof {
            use_type_invariant(&self);
        }
        let addr: String = match announced_address(&announcement) {
            Some(addr) => addr,
            None => {
                return self.failed(Failure::Announcement);
            },
        };
        let mut offered: Option<String> = None;
        if self.plan.has_content() {
            offered = announced_cid(&announcement);
            if offered.is_none() {
                return self.failed(Failure::Announcement);
            }
        }
        let ghost before = self@.cids;
        let awaited: usize = if self.awaited > 0 {
            self.awaited - 1
        } else {
            0
        };
        let mut cids: Vec<String> = self.cids;
        if let Some(cid) = offered {
            cids.push(cid);
            assert(cids@.map_values(|c: String| c@) =~= before.push(cid@));
        }
        Session { awaited, cids, position: Position::Dialing(addr), ..self }
    }

    /// The run at the next content to fetch, if any is left, where `read` is
    /// what the content's identifier was read as: the identifier, or what is
    /// said of why there is none. [`Session::handle`] reads the identifier and
    /// comes here by itself.
    pub fn fetching_read(self, read: Result<CidGeneric<64>, String>) -> (session: Self)
        ensures
            session@ == self@.fetching_read(reading_view(read)),
    {
        proof {
            use_type_invariant(&self);
        }
        if self.fetched >= self.cids.len() {
            return self.at(Position::Signalling);
        }
        match read {
            Ok(cid) => {
                let fetched: usize = self.fetched + 1;
                Session { fetched, position: Position::Fetching(cid), ..self }
            },
            Err(error) => self.at(Position::Failed(Failure::Cid, error)),
        }
    }

    /// The run at the next content to fetch, if any is left.
    fn fetching(self) -> (session: Self)
        ensures
            session@ == self@.fetching(),
    {
        if self.fetched >= self.cids.len() {
            return self.at(Position::Signalling);
        }
        let read: Result<CidGeneric<64>, String> = parse_cid(self.cids[self.fetched].as_str());
        self.fetching_read(read)
    }

    /// The run once its action was taken.
    fn done(self) -> (session: Self)
        ensures
            session@ == self@.next(Outcome::Done),
    {
        let (plan, seq): (Plan, u64) = (self.plan, self.seq);
        let role: Role = self.role();
        match self.position {
            Position::Finished | Position::Failed(_, _) => self,
            Position::Shaping { .. } => self.at(Self::first_position(plan, seq)),
            Position::Opening => match role {
                Role::Listener => self.at(Position::Publishing),
                Role::Dialer => self.at(Position::Subscribing),
            },
            Position::Publishing => self.at(Position::Signalling),
            Position::Subscribing | Position::Dialing(_) => self.collecting(),
            Position::Leaving | Position::ReportingLast(_) => self.fetching(),
            Position::Fetching(_) => self.at(Position::FirstUpdate),
            Position::ReportingFirst(_) => self.at(Position::Updates),
            Position::Signalling => match (plan, role) {
                (Plan::Tcp, Role::Listener) | (Plan::Quic, Role::Listener) => self.at(
                    Position::Stopping,
                ),
                _ => self.at(Position::Recording),
            },
            Position::Stopping => self.at(Position::Recording),
            Position::Recording => self.at(Position::Finished),
            _ => self.failed(Failure::OutOfTurn),
        }
    }

    /// The run once `event` has come of its action. What it offers, if
    /// anything, can be read back by who is told of it.
    pub fn handle(self, event: Event) -> (session: Self)
        ensures
            session@ == self@.next(event@),
            session@.offered is Some ==> offers_readable(session@),
    {
        proof {
            use_type_invariant(&self);
        }
        if self.is_over() {
            return self;
        }
        let reports: bool = self.plan == Plan::Krakensync;
        let session: Session = match (event, &self.position) {
            (Event::Failed, _) => self.failed(Failure::Step),
            (Event::Done, _) => self.done(),
            (Event::Interfaces(interfaces), Position::Locating) => self.located(interfaces),
            (Event::Roots(roots), Position::Importing) => self.imported(roots),
            (Event::Announced(value), Position::Collecting) => self.announced(value),
            (Event::NoAnnouncement, Position::Collecting) => self.at(Position::Leaving),
            (Event::Updated(millis), Position::FirstUpdate) => if reports {
                self.at(Position::ReportingFirst(millis))
            } else {
                self.at(Position::Updates)
            },
            (Event::NoUpdate(_), Position::FirstUpdate) => self.at(Position::Updates),
            (Event::Updated(_), Position::Updates) => self,
            (Event::NoUpdate(millis), Position::Updates) => if reports {
                self.at(Position::ReportingLast(millis))
            } else {
                self.fetching()
            },
            _ => self.failed(Failure::OutOfTurn),
        };
        proof {
            use_type_invariant(&session);
        }
        session
    }
}

/// An action is the step that it says, with all that it holds.
pub proof fn law_actions_are_their_steps(action: Action)
    ensures
        match action {
            Action::ShapeNetwork(settings) => action@ == Step::ShapeNetwork(settings@),
            Action::ListInterfaces => action@ is ListInterfaces,
            Action::ImportFixture(path) => action@ == Step::ImportFixture(path@),
            Action::Listen(addr) => action@ == Step::Listen(addr@),
            Action::OpenEndpoint(addr) => action@ == Step::OpenEndpoint(addr@),
            Action::Publish(topic, payload) => action@ == Step::Publish(
                topic@,
                json_content(payload),
            ),
            Action::Subscribe(topic, room) => action@ == Step::Subscribe(topic@, room as nat),
            Action::NextAnnouncement => action@ is NextAnnouncement,
            Action::Dial(addr, Some(name)) => action@ == Step::Dial(addr@, Some(name@)),
            Action::Dial(addr, None) => action@ == Step::Dial(addr@, None),
            Action::Unsubscribe => action@ is Unsubscribe,
            Action::Fetch(cid) => action@ == Step::Fetch(cid_text(cid)),
            Action::NextUpdate => action@ is NextUpdate,
            Action::Report(text) => action@ == Step::Report(text@),
            Action::Signal(state) => action@ == Step::Signal(state@),
            Action::SignalAndWait(state, target) => action@ == Step::SignalAndWait(state@, target),
            Action::StopListening => action@ is StopListening,
            Action::RecordSuccess => action@ is RecordSuccess,
            Action::Finish => action@ is Finish,
            Action::GiveUp(failure, message) => action@ == Step::GiveUp(failure, message@),
        },
{
}

/// An event is the outcome that it says, with all that it holds.
pub proof fn law_events_are_their_outcomes(event: Event)
    ensures
        match event {
            Event::Done => event@ is Done,
            Event::Failed => event@ is Failed,
            Event::Interfaces(interfaces) => event@ == Outcome::Interfaces(interfaces@),
            Event::Roots(cids) => event@ matches Outcome::Roots(roots) && roots.len() == cids.len()
                && forall|i: int|
                0 <= i < roots.len() ==> #[trigger] roots[i] == cid_text(cids@[i]),
            Event::Announced(value) => event@ == Outcome::Announced(json_content(value)),
            Event::NoAnnouncement => event@ is NoAnnouncement,
            Event::Updated(millis) => event@ == Outcome::Updated(millis),
            Event::NoUpdate(millis) => event@ == Outcome::NoUpdate(millis),
        },
{
}

} // verus!
